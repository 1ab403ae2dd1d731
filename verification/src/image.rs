//! Decoded image data and the integer steps of image and mask decoding.
use vstd::prelude::*;

verus! {

/// How much an image was scaled down while decoding: the width and height
/// it declares over the width and height that were decoded.
#[derive(Clone, Copy, Debug, PartialEq, Eq, Structural)]
pub struct ScaleFactors {
    pub declared_width: u32,
    pub decoded_width: u32,
    pub declared_height: u32,
    pub decoded_height: u32,
}

impl ScaleFactors {
    /// No scaling.
    pub fn identity() -> (r: ScaleFactors)
        ensures
            r.declared_width == 1 && r.decoded_width == 1 && r.declared_height == 1
                && r.decoded_height == 1,
    {
        ScaleFactors { declared_width: 1, decoded_width: 1, declared_height: 1, decoded_height: 1 }
    }
}

/// A single-channel image: one byte per pixel, row by row.
#[derive(Clone, Debug, PartialEq)]
pub struct LumaData {
    pub data: Vec<u8>,
    pub width: u32,
    pub height: u32,
    pub interpolate: bool,
    pub scale_factors: ScaleFactors,
}

/// An RGB image: three bytes per pixel, row by row.
#[derive(Clone, Debug, PartialEq)]
pub struct RgbData {
    pub data: Vec<u8>,
    pub width: u32,
    pub height: u32,
    pub interpolate: bool,
    pub scale_factors: ScaleFactors,
}

/// Decoded image data.
#[derive(Clone, Debug, PartialEq)]
pub enum ImageData {
    Rgb(RgbData),
    Luma(LumaData),
}

/// What an image XObject is used as.
#[derive(Clone, Copy, Debug, PartialEq, Eq, Structural)]
pub enum ImageKind {
    Image,
    Mask,
    StencilMask,
}

impl ImageKind {
    /// Whether the image is a mask of either kind.
    pub fn is_mask(self) -> (r: bool)
        ensures
            r == (self != ImageKind::Image),
    {
        self != ImageKind::Image
    }
}

/// The height an image of rows of `row_len` samples gets from `len` samples
/// when it declares `height` rows: the declared height when there is enough
/// data, else the number of rows the data starts.
pub open spec fn fixed_height(len: nat, row_len: nat, height: nat) -> nat {
    if row_len * height <= len {
        height
    } else {
        (len / row_len + if len % row_len != 0 { 1nat } else { 0nat }) as nat
    }
}

/// The samples of such an image: cut to the declared size when there is
/// enough data, else padded with `filler` to a whole last row.
pub open spec fn fixed_image<T>(image: Seq<T>, row_len: nat, height: nat, filler: T) -> Seq<T> {
    if row_len * height <= image.len() {
        image.subrange(0, (row_len * height) as int)
    } else if image.len() % row_len != 0 {
        image + Seq::new((row_len - image.len() % row_len) as nat, |i: int| filler)
    } else {
        image
    }
}

/// Make the samples of an image fit its width: cut them to `width *
/// num_components * height` when there are more, else lower the height to the
/// rows there are and pad the last one with `filler`. Fails when the width or
/// the resulting height is zero.
pub fn fix_image_length<T: Copy>(
    image: &mut Vec<T>,
    width: u32,
    height: &mut u32,
    filler: T,
    num_components: usize,
) -> (r: Option<()>)
    requires
        width * num_components <= usize::MAX,
        width * num_components * *old(height) <= usize::MAX,
    ensures
        final(image)@ == fixed_image(
            old(image)@,
            (width * num_components) as nat,
            *old(height) as nat,
            filler,
        ),
        *final(height) as nat == fixed_height(
            old(image)@.len(),
            (width * num_components) as nat,
            *old(height) as nat,
        ),
        r is Some <==> width != 0 && *final(height) != 0,
        r is Some ==> final(image)@.len() == width * num_components * *final(height),
        *final(height) <= *old(height),
        forall|i: int|
            0 <= i < final(image)@.len() && i < old(image)@.len() ==> #[trigger] final(image)@[i]
                == old(image)@[i],
{
    let ghost old_image = image@;
    let ghost old_height = *height;
    let row_len = (width as usize) * num_components;
    let total = row_len * (*height as usize);
    if total <= image.len() {
        image.truncate(total);
    } else {
        let len = image.len();
        proof {
            assert(row_len > 0) by (nonlinear_arith)
                requires
                    total == row_len * old_height,
                    total > len,
            {
            }
        }
        let q = len / row_len;
        let rem = len % row_len;
        proof {
            assert(q <= old_height) by (nonlinear_arith)
                requires
                    len < row_len * old_height,
                    q == len / row_len,
                    row_len > 0,
            {
            }
            assert(q * row_len + rem == len) by (nonlinear_arith)
                requires
                    q == len / row_len,
                    rem == len % row_len,
                    row_len > 0,
            {
            }
            if rem != 0 {
                assert(q < old_height) by (nonlinear_arith)
                    requires
                        len < row_len * old_height,
                        q * row_len + rem == len,
                        rem > 0,
                        row_len > 0,
                {
                }
            }
        }
        let new_height = if rem != 0 {
            q + 1
        } else {
            q
        };
        *height = new_height as u32;
        if rem != 0 {
            let pad = row_len - rem;
            let mut k: usize = 0;
            while k < pad
                invariant
                    k <= pad,
                    image@ == old_image + Seq::new(k as nat, |i: int| filler),
                decreases pad - k,
            {
                image.push(filler);
                k = k + 1;
                assert(image@ =~= old_image + Seq::new(k as nat, |i: int| filler));
            }
            proof {
                assert(image@.len() == len + row_len - rem);
                assert(image@.len() == row_len * new_height) by (nonlinear_arith)
                    requires
                        image@.len() == len + row_len - rem,
                        q * row_len + rem == len,
                        new_height == q + 1,
                {
                }
            }
        } else {
            proof {
                assert(image@.len() == row_len * new_height) by (nonlinear_arith)
                    requires
                        image@.len() == len,
                        q * row_len + rem == len,
                        rem == 0,
                        new_height == q,
                {
                }
            }
        }
    }
    if width == 0 || *height == 0 {
        None
    } else {
        Some(())
    }
}

/// Replace every byte `b` by `255 - b`.
pub fn invert_bytes(data: &mut [u8])
    ensures
        final(data)@.len() == old(data)@.len(),
        forall|i: int| 0 <= i < old(data)@.len() ==> #[trigger] final(data)@[i] == 255 - old(data)@[i],
{
    let mut i: usize = 0;
    while i < data.len()
        invariant
            i <= data.len(),
            data@.len() == old(data)@.len(),
            forall|j: int| 0 <= j < i ==> #[trigger] data@[j] == 255 - old(data)@[j],
            forall|j: int| i <= j < data@.len() ==> #[trigger] data@[j] == old(data)@[j],
        decreases data.len() - i,
    {
        let b = data[i];
        data[i] = 255 - b;
        i = i + 1;
    }
}

/// Fixing an image's length to rows of `row_len > 0` samples gives whole
/// rows, as many as the fixed height says, never more than were declared.
pub proof fn lemma_fixed_image_whole_rows<T>(image: Seq<T>, row_len: nat, height: nat, filler: T)
    requires
        row_len > 0,
    ensures
        fixed_image(image, row_len, height, filler).len() == row_len * fixed_height(image.len(), row_len, height),
        fixed_height(image.len(), row_len, height) <= height,
{
    let len = image.len();
    if row_len * height > len {
        let q = len / row_len;
        let rem = len % row_len;
        assert(q * row_len + rem == len) by (nonlinear_arith)
            requires q == len / row_len, rem == len % row_len, row_len > 0;
        assert(q <= height) by (nonlinear_arith)
            requires len < row_len * height, q * row_len + rem == len, rem >= 0, row_len > 0;
        if rem != 0 {
            assert(q < height) by (nonlinear_arith)
                requires len < row_len * height, q * row_len + rem == len, rem > 0, row_len > 0;
            assert(len + (row_len - rem) == row_len * (q + 1)) by (nonlinear_arith)
                requires q * row_len + rem == len;
        } else {
            assert(len == row_len * q) by (nonlinear_arith)
                requires q * row_len + rem == len, rem == 0;
        }
    }
}

/// Fixing an image's length twice is fixing it once: the fixed image with
/// its fixed height is left as it is.
pub proof fn lemma_fix_image_idempotent<T>(image: Seq<T>, row_len: nat, height: nat, filler: T)
    requires
        row_len > 0,
    ensures
        fixed_image(
            fixed_image(image, row_len, height, filler),
            row_len,
            fixed_height(image.len(), row_len, height),
            filler,
        ) == fixed_image(image, row_len, height, filler),
        fixed_height(
            fixed_image(image, row_len, height, filler).len(),
            row_len,
            fixed_height(image.len(), row_len, height),
        ) == fixed_height(image.len(), row_len, height),
{
    lemma_fixed_image_whole_rows(image, row_len, height, filler);
    let fixed = fixed_image(image, row_len, height, filler);
    let h = fixed_height(image.len(), row_len, height);
    assert(fixed.subrange(0, (row_len * h) as int) == fixed);
}

} // verus!
