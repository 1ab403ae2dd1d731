//! Decoding image samples into masks and pixel data: color key masks,
//! bilevel masks, and the paths that need no interpolation.
use vstd::prelude::*;
use crate::bits::{bit_at, spec_unpack_samples, unpack_samples};
use crate::color::ColorFamily;
use crate::transfer::TransferFunction;
use crate::image::{fixed_height, fixed_image, fix_image_length, invert_bytes, ImageData, LumaData, RgbData, ScaleFactors};

verus! {

/// The number of `[min, max]` pairs of a color key that meet a pixel of
/// `num_components` components.
pub open spec fn key_pair_count(num_components: nat, key_len: nat) -> nat {
    if num_components < key_len / 2 {
        num_components
    } else {
        key_len / 2
    }
}

/// Whether a component lies outside the range `[min, max]` of its key pair.
pub open spec fn outside_key(value: u16, min: u16, max: u16) -> bool {
    value > max || value < min
}

/// The mask value of pixel `p`: 255 when a component lies outside its key
/// range, 0 when all lie inside.
pub open spec fn key_mask_value(samples: Seq<u16>, p: int, num_components: nat, key: Seq<u16>) -> u8 {
    if exists|c: int|
        0 <= c < key_pair_count(num_components, key.len()) && #[trigger] outside_key(
            samples[p * num_components + c],
            key[2 * c],
            key[2 * c + 1],
        ) {
        255
    } else {
        0
    }
}

/// The mask values of all whole pixels of `samples`.
pub open spec fn key_mask(samples: Seq<u16>, num_components: nat, key: Seq<u16>) -> Seq<u8> {
    Seq::new(samples.len() / num_components, |p: int| key_mask_value(samples, p, num_components, key))
}

/// A color key masks out exactly the pixels whose keyed components all lie in
/// their ranges, bounds included: such a pixel gets 0, and a pixel with a
/// keyed component below its minimum or above its maximum gets 255. There is
/// one mask value per whole pixel.
pub proof fn lemma_color_key_ranges_inclusive(samples: Seq<u16>, num_components: nat, key: Seq<u16>, p: int)
    requires
        num_components > 0,
        0 <= p < samples.len() / num_components,
    ensures
        key_mask(samples, num_components, key).len() == samples.len() / num_components,
        (forall|c: int|
            0 <= c < key_pair_count(num_components, key.len()) ==> key[2 * c] <= #[trigger] samples[p
                * num_components + c] <= key[2 * c + 1]) ==> key_mask(samples, num_components, key)[p] == 0,
        (exists|c: int|
            0 <= c < key_pair_count(num_components, key.len()) && (#[trigger] samples[p * num_components
                + c] < key[2 * c] || samples[p * num_components + c] > key[2 * c + 1]))
            ==> key_mask(samples, num_components, key)[p] == 255,
{
    let pairs = key_pair_count(num_components, key.len());
    assert(key_mask(samples, num_components, key)[p] == key_mask_value(samples, p, num_components, key));
    if exists|c: int|
        0 <= c < pairs && (#[trigger] samples[p * num_components + c] < key[2 * c] || samples[p
            * num_components + c] > key[2 * c + 1]) {
        let c = choose|c: int|
            0 <= c < pairs && (#[trigger] samples[p * num_components + c] < key[2 * c] || samples[p
                * num_components + c] > key[2 * c + 1]);
        assert(outside_key(samples[p * num_components + c], key[2 * c], key[2 * c + 1]));
    }
}

/// The mask that a color key gives the whole pixels of `samples`: 255 where a
/// pixel has a component outside its key range, 0 elsewhere.
pub fn color_key_mask_values(samples: &[u16], num_components: usize, key: &[u16]) -> (r: Vec<u8>)
    requires
        num_components > 0,
    ensures
        r@ == key_mask(samples@, num_components as nat, key@),
{
    let sl = samples.len();
    let kl = key.len();
    let n = sl / num_components;
    let pairs = if num_components < key.len() / 2 {
        num_components
    } else {
        key.len() / 2
    };
    let mut out: Vec<u8> = Vec::new();
    let mut p: usize = 0;
    while p < n
        invariant
            num_components > 0,
            sl == samples@.len(),
            kl == key@.len(),
            n == samples@.len() / (num_components as nat),
            pairs == key_pair_count(num_components as nat, key@.len()),
            p <= n,
            out@.len() == p,
            forall|q: int| 0 <= q < p ==> #[trigger] out@[q] == key_mask_value(samples@, q, num_components as nat, key@),
        decreases n - p,
    {
        proof {
            assert(p * num_components + num_components <= samples@.len()) by (nonlinear_arith)
                requires
                    p < n,
                    n == samples@.len() / (num_components as nat),
                    num_components > 0,
            {
            }
        }
        let base = p * num_components;
        let mut value: u8 = 0;
        let mut c: usize = 0;
        while c < pairs
            invariant
                pairs <= num_components,
                pairs <= key@.len() / 2,
                sl == samples@.len(),
                kl == key@.len(),
                base == p * num_components,
                base + num_components <= samples@.len(),
                c <= pairs,
                value == 0 || value == 255,
                value == 255 <==> exists|d: int|
                    0 <= d < c && #[trigger] outside_key(samples@[p * num_components + d], key@[2 * d], key@[2 * d + 1]),
            decreases pairs - c,
        {
            let v = samples[base + c];
            if v > key[2 * c + 1] || v < key[2 * c] {
                value = 255;
                proof {
                    assert(outside_key(samples@[p * num_components + c], key@[2 * c], key@[2 * c + 1]));
                }
            }
            c = c + 1;
        }
        out.push(value);
        p = p + 1;
    }
    proof {
        assert(out@ == key_mask(samples@, num_components as nat, key@));
    }
    out
}

/// Whether `r` is the alpha that a color key mask `key` gives an image of
/// `height` rows of `width` pixels with the samples `data`.
pub open spec fn color_key_mask_matches(
    r: Option<LumaData>,
    data: Seq<u8>,
    key: Seq<u16>,
    width: u32,
    height: u32,
    num_components: nat,
    bits_per_component: nat,
    scale_factors: ScaleFactors,
    interpolate: bool,
) -> bool {
    match spec_unpack_samples(data, width as nat, height as nat, num_components, bits_per_component) {
        None => r is None,
        Some(samples) => {
            let mask = key_mask(samples, num_components, key);
            let h = fixed_height(mask.len(), width as nat, height as nat);
            &&& (r is Some <==> width != 0 && h != 0)
            &&& r is Some ==> {
                &&& r.unwrap().data@ == fixed_image(mask, width as nat, height as nat, 0u8)
                &&& r.unwrap().width == width
                &&& r.unwrap().height == h
                &&& r.unwrap().interpolate == interpolate
                &&& r.unwrap().scale_factors == scale_factors
            }
        },
    }
}

/// The alpha of an image with a color key mask: the key mask of its samples,
/// with its length fixed to whole rows of `width` pixels. `None` when the
/// samples cannot be unpacked at this depth, or when the width or the fixed
/// height is zero.
pub fn decode_color_key_mask(
    data: &[u8],
    color_key_mask: &[u16],
    width: u32,
    height: u32,
    num_components: usize,
    bits_per_component: u8,
    scale_factors: ScaleFactors,
    interpolate: bool,
) -> (r: Option<LumaData>)
    requires
        num_components > 0,
        width * num_components <= usize::MAX,
        width * num_components * height <= usize::MAX,
    ensures
        color_key_mask_matches(r, data@, color_key_mask@, width, height, num_components as nat, bits_per_component as nat, scale_factors, interpolate),
{
    proof {
        assert(width * height <= width * num_components * height) by (nonlinear_arith)
            requires num_components > 0;
    }
    let samples = unpack_samples(data, width, height, num_components, bits_per_component)?;
    let mut mask = color_key_mask_values(samples.as_slice(), num_components, color_key_mask);
    let mut h = height;
    match fix_image_length(&mut mask, width, &mut h, 0u8, 1) {
        None => None,
        Some(_) => Some(LumaData { data: mask, width, height: h, interpolate, scale_factors }),
    }
}

/// The bytes a packed row of `width` one-bit pixels takes.
pub open spec fn row_bytes(width: nat) -> nat {
    width / 8 + if width % 8 != 0 { 1nat } else { 0nat }
}

/// The number of pixels a bilevel mask of `height` rows of `width` pixels
/// gets from `len` bytes: every whole row that is there, and of a last
/// partial row the eight pixels of each of its bytes.
pub open spec fn bilevel_len(len: nat, width: nat, height: nat) -> nat {
    let rb = row_bytes(width);
    let full = if len / rb < height { len / rb } else { height };
    full * width + if full < height { 8 * (len % rb) } else { 0 }
}

/// Pixel `k` of a bilevel mask: 255 where its bit is set and 0 where it is
/// clear, the other way round when `invert` holds.
pub open spec fn bilevel_pixel(data: Seq<u8>, k: int, width: nat, invert: bool) -> u8 {
    let row = k / (width as int);
    let x = k % (width as int);
    if (bit_at(data, row * row_bytes(width) * 8 + x) == 1) != invert {
        255
    } else {
        0
    }
}

/// Expand a mask of one bit per pixel, rows starting at whole bytes, into one
/// byte per pixel: 255 for a set bit and 0 for a clear one, or the reverse
/// when `should_invert` holds. Takes at most `height` rows, and of a short
/// last row only the pixels its bytes hold.
#[verifier::rlimit(40)]
pub fn decode_bilevel_mask_data(data: &[u8], width: u32, height: u32, should_invert: bool) -> (r: Vec<u8>)
    requires
        width > 0,
    ensures
        r@.len() == bilevel_len(data@.len(), width as nat, height as nat),
        forall|k: int| 0 <= k < r@.len() ==> #[trigger] r@[k] == bilevel_pixel(data@, k, width as nat, should_invert),
{
    let w = width as usize;
    let rb = w / 8 + if w % 8 != 0 { 1 } else { 0 };
    let len = data.len();
    let ghost wn = w as nat;
    let mut out: Vec<u8> = Vec::new();
    let mut r: u32 = 0;
    let mut start: usize = 0;
    let mut done = false;
    while !done && r < height && start < len
        invariant
            w == width,
            w > 0,
            rb == row_bytes(wn),
            wn == w,
            rb > 0,
            len == data@.len(),
            r <= height,
            !done ==> start == r * rb && r * rb <= len && out@.len() == r * w,
            done ==> out@.len() == bilevel_len(len as nat, wn, height as nat),
            forall|k: int| 0 <= k < out@.len() ==> #[trigger] out@[k] == bilevel_pixel(data@, k, wn, should_invert),
        decreases height - r, if done { 0int } else { 1int },
    {
        let row_len = if len - start < rb { len - start } else { rb };
        let npix = if row_len < rb { row_len * 8 } else { w };
        proof {
            if row_len < rb {
                assert(row_len * 8 <= w) by (nonlinear_arith)
                    requires row_len < rb, rb == w / 8 + if w % 8 != 0 { 1nat } else { 0nat };
            }
        }
        let mut x: usize = 0;
        while x < npix
            invariant
                w == width,
                w > 0,
                wn == w,
                rb == row_bytes(wn),
                rb > 0,
                len == data@.len(),
                start == r * rb,
                row_len <= rb,
                start + row_len <= len,
                row_len == rb || start + row_len == len,
                npix == if row_len < rb { row_len * 8 } else { w as int },
                npix <= w,
                x <= npix,
                out@.len() == r * w + x,
                forall|k: int| 0 <= k < out@.len() ==> #[trigger] out@[k] == bilevel_pixel(data@, k, wn, should_invert),
            decreases npix - x,
        {
            let ghost k = out@.len() as int;
            let ghost i = (r * rb * 8 + x) as int;
            proof {
                assert(x / 8 < row_len) by (nonlinear_arith)
                    requires
                        x < npix,
                        npix == if row_len < rb { row_len * 8 } else { w as int },
                        row_len <= rb,
                        rb == w / 8 + if w % 8 != 0 { 1nat } else { 0nat },
                {
                }
                vstd::arithmetic::div_mod::lemma_fundamental_div_mod_converse(k, w as int, r as int, x as int);
                assert(x == 8 * (x / 8) + x % 8);
                assert(i == 8 * (start + x / 8) + x % 8) by (nonlinear_arith)
                    requires
                        i == r * rb * 8 + x,
                        start == r * rb,
                        x == 8 * (x / 8) + x % 8,
                {
                }
                vstd::arithmetic::div_mod::lemma_fundamental_div_mod_converse(i, 8, (start + x / 8) as int, (x % 8) as int);
            }
            let byte = data[start + x / 8];
            let shift = (7 - x % 8) as u8;
            let bit = (byte >> shift) & 1u8;
            let set = bit == 1;
            let v: u8 = if set != should_invert { 255 } else { 0 };
            out.push(v);
            x = x + 1;
        }
        if row_len < rb {
            proof {
                assert((len as int) / (rb as int) == r && (len as int) % (rb as int) == row_len) by {
                    vstd::arithmetic::div_mod::lemma_fundamental_div_mod_converse(len as int, rb as int, r as int, row_len as int);
                }
            }
            done = true;
        } else {
            proof {
                assert(start + rb == (r + 1) * rb) by (nonlinear_arith)
                    requires start == r * rb;
                assert(out@.len() == (r + 1) * w) by (nonlinear_arith)
                    requires out@.len() == r * w + w;
            }
            start = start + rb;
            r = r + 1;
        }
    }
    proof {
        if !done {
            if r == height {
                assert((len as int) / (rb as int) >= r) by (nonlinear_arith)
                    requires r * rb <= len, rb > 0;
            } else {
                assert(start == len);
                vstd::arithmetic::div_mod::lemma_fundamental_div_mod_converse(len as int, rb as int, r as int, 0);
            }
        }
    }
    out
}

/// How the decode array of an image relates to its color space: the default
/// one, the default one reversed, or any other.
#[derive(Clone, Copy, Debug, PartialEq, Eq, Structural)]
pub enum DecodeKind {
    Default,
    InvertedDefault,
    Other,
}

/// How the samples of a mask become bytes: one bit per pixel expanded, bytes
/// taken as they are, or each component interpolated through the decode
/// array.
#[derive(Clone, Copy, Debug, PartialEq, Eq, Structural)]
pub enum MaskPath {
    Bilevel,
    Bytes,
    Interpolated,
}

pub open spec fn spec_mask_path(bits_per_component: u8, num_components: usize, decode: DecodeKind) -> MaskPath {
    if decode == DecodeKind::Other {
        MaskPath::Interpolated
    } else if bits_per_component == 1 && num_components == 1 {
        MaskPath::Bilevel
    } else if bits_per_component == 8 {
        MaskPath::Bytes
    } else {
        MaskPath::Interpolated
    }
}

/// The path a mask takes: bilevel for one component of one bit, bytes for
/// eight bits, both only with a default or reversed default decode array;
/// interpolation otherwise.
pub fn mask_path(bits_per_component: u8, num_components: usize, decode: DecodeKind) -> (r: MaskPath)
    ensures
        r == spec_mask_path(bits_per_component, num_components, decode),
{
    if decode == DecodeKind::Other {
        MaskPath::Interpolated
    } else if bits_per_component == 1 && num_components == 1 {
        MaskPath::Bilevel
    } else if bits_per_component == 8 {
        MaskPath::Bytes
    } else {
        MaskPath::Interpolated
    }
}

/// Every byte `b` of `s` replaced by `255 - b`.
pub open spec fn inverted(s: Seq<u8>) -> Seq<u8> {
    Seq::new(s.len(), |i: int| (255 - s[i]) as u8)
}

/// The bytes of a mask on a path that needs no interpolation, before its
/// length is fixed.
pub open spec fn mask_bytes(data: Seq<u8>, width: u32, height: u32, path: MaskPath, should_invert: bool) -> Seq<u8> {
    if path == MaskPath::Bilevel {
        Seq::new(
            bilevel_len(data.len(), width as nat, height as nat),
            |k: int| bilevel_pixel(data, k, width as nat, should_invert),
        )
    } else if should_invert {
        inverted(data)
    } else {
        data
    }
}

/// The bytes and height of a mask that needs no interpolation, with their
/// length fixed to whole rows; `None` where the width or the fixed height is
/// zero.
pub open spec fn spec_decode_mask_data(
    data: Seq<u8>,
    width: u32,
    height: u32,
    num_components: usize,
    bits_per_component: u8,
    decode: DecodeKind,
    invert: bool,
) -> Option<(Seq<u8>, u32)> {
    let path = spec_mask_path(bits_per_component, num_components, decode);
    let bytes = mask_bytes(data, width, height, path, invert != (decode == DecodeKind::InvertedDefault));
    let row_len = (width * num_components) as nat;
    let h = fixed_height(bytes.len(), row_len, height as nat);
    if width != 0 && h != 0 {
        Some((fixed_image(bytes, row_len, height as nat, 0u8), h as u32))
    } else {
        None
    }
}

/// The bytes of a mask whose samples need no interpolation, with their length
/// fixed to whole rows: `invert` (a stencil mask) and a reversed default
/// decode array each reverse the values. Returns the bytes and the fixed
/// height, or `None` when the width or that height is zero.
pub fn decode_mask_data(
    data: Vec<u8>,
    width: u32,
    height: u32,
    num_components: usize,
    bits_per_component: u8,
    decode: DecodeKind,
    invert: bool,
) -> (r: Option<(Vec<u8>, u32)>)
    requires
        spec_mask_path(bits_per_component, num_components, decode) != MaskPath::Interpolated,
        spec_mask_path(bits_per_component, num_components, decode) == MaskPath::Bilevel ==> width > 0,
        width * num_components <= usize::MAX,
        width * num_components * height <= usize::MAX,
    ensures
        match spec_decode_mask_data(data@, width, height, num_components, bits_per_component, decode, invert) {
            None => r is None,
            Some((bytes, h)) => r is Some && r.unwrap().0@ == bytes && r.unwrap().1 == h,
        },
{
    let should_invert = invert != (decode == DecodeKind::InvertedDefault);
    let path = mask_path(bits_per_component, num_components, decode);
    let mut bytes = if path == MaskPath::Bilevel {
        let out = decode_bilevel_mask_data(data.as_slice(), width, height, should_invert);
        proof {
            assert(out@ == mask_bytes(data@, width, height, path, should_invert));
        }
        out
    } else {
        let mut d = data;
        if should_invert {
            invert_bytes(d.as_mut_slice());
            proof {
                assert(d@ == inverted(data@));
            }
        }
        d
    };
    let mut h = height;
    match fix_image_length(&mut bytes, width, &mut h, 0u8, num_components) {
        None => None,
        Some(_) => Some((bytes, h)),
    }
}

/// Whether `r` is what an image of 8-bit samples in DeviceGray (`gray`) or
/// DeviceRGB, whose samples are used as they are, decodes to.
pub open spec fn native_image_matches(
    r: Option<(ImageData, Option<LumaData>)>,
    data: Seq<u8>,
    width: u32,
    height: u32,
    gray: bool,
    color_key_mask: Option<Seq<u16>>,
    invert: bool,
    interpolate: bool,
    scale_factors: ScaleFactors,
) -> bool {
    let nc: nat = if gray { 1 } else { 3 };
    let row_len = (width * nc) as nat;
    let h = fixed_height(data.len(), row_len, height as nat);
    let fixed = fixed_image(data, row_len, height as nat, 0u8);
    let pixels = if invert { inverted(fixed) } else { fixed };
    &&& (r is Some <==> width != 0 && h != 0)
    &&& r is Some ==> {
        let (image, alpha) = r.unwrap();
        &&& match image {
            ImageData::Luma(l) => gray && l.data@ == pixels && l.width == width && l.height == h
                && l.interpolate == interpolate && l.scale_factors == scale_factors,
            ImageData::Rgb(c) => !gray && c.data@ == pixels && c.width == width && c.height == h
                && c.interpolate == interpolate && c.scale_factors == scale_factors,
        }
        &&& match color_key_mask {
            None => alpha is None,
            Some(key) => color_key_mask_matches(alpha, fixed, key, width, h as u32, nc, 8, scale_factors, interpolate),
        }
    }
}

/// Decode an image of 8-bit samples in DeviceGray (`gray`) or DeviceRGB
/// whose decode array is the default one or its reverse (`invert`): the
/// samples are fixed to whole rows, the alpha of a color key mask (where
/// there is one) is computed from them, and they are then reversed if asked.
/// `None` when the width or the fixed height is zero.
pub fn decode_native(
    data: Vec<u8>,
    width: u32,
    height: u32,
    gray: bool,
    color_key_mask: Option<&[u16]>,
    invert: bool,
    interpolate: bool,
    scale_factors: ScaleFactors,
) -> (r: Option<(ImageData, Option<LumaData>)>)
    requires
        width * (if gray { 1int } else { 3int }) <= usize::MAX,
        width * (if gray { 1int } else { 3int }) * height <= usize::MAX,
    ensures
        native_image_matches(
            r,
            data@,
            width,
            height,
            gray,
            match color_key_mask {
                None => None,
                Some(k) => Some(k@),
            },
            invert,
            interpolate,
            scale_factors,
        ),
{
    let nc: usize = if gray { 1 } else { 3 };
    let mut pixels = data;
    let mut h = height;
    if fix_image_length(&mut pixels, width, &mut h, 0u8, nc).is_none() {
        return None;
    }
    let ghost fixed = pixels@;
    proof {
        assert(width * nc * h <= width * nc * height) by (nonlinear_arith)
            requires h <= height;
    }
    let alpha = match color_key_mask {
        None => None,
        Some(key) => decode_color_key_mask(pixels.as_slice(), key, width, h, nc, 8, scale_factors, interpolate),
    };
    if invert {
        invert_bytes(pixels.as_mut_slice());
        proof {
            assert(pixels@ == inverted(fixed));
        }
    }
    let image = if gray {
        ImageData::Luma(LumaData { data: pixels, width, height: h, interpolate, scale_factors })
    } else {
        ImageData::Rgb(RgbData { data: pixels, width, height: h, interpolate, scale_factors })
    };
    Some((image, alpha))
}

/// Every byte of a mask that needs no interpolation is reversed by asking
/// for the inversion: a stencil mask is the negative of a soft mask of the
/// same samples.
pub proof fn lemma_mask_inversion(data: Seq<u8>, width: u32, height: u32, path: MaskPath, i: int)
    requires
        path != MaskPath::Interpolated,
        width > 0,
        0 <= i < mask_bytes(data, width, height, path, false).len(),
    ensures
        mask_bytes(data, width, height, path, true).len() == mask_bytes(data, width, height, path, false).len(),
        mask_bytes(data, width, height, path, true)[i] == 255 - mask_bytes(data, width, height, path, false)[i],
{
}

/// A reversed default decode array undoes the inversion of a stencil mask:
/// the two together give what a soft mask with the default array gives.
pub proof fn lemma_reversed_decode_cancels_stencil(
    data: Seq<u8>,
    width: u32,
    height: u32,
    num_components: usize,
    bits_per_component: u8,
)
    ensures
        spec_decode_mask_data(data, width, height, num_components, bits_per_component, DecodeKind::InvertedDefault, true)
            == spec_decode_mask_data(data, width, height, num_components, bits_per_component, DecodeKind::Default, false),
{
}

/// A bilevel mask holds only fully transparent and fully opaque bytes.
pub proof fn lemma_bilevel_two_values(data: Seq<u8>, k: int, width: nat, invert: bool)
    ensures
        bilevel_pixel(data, k, width, invert) == 0 || bilevel_pixel(data, k, width, invert) == 255,
{
}

/// An image decoded without interpolation always consists of whole rows:
/// `width * components * height` bytes, with the height never above the
/// declared one.
pub proof fn lemma_native_image_whole_rows(
    r: Option<(ImageData, Option<LumaData>)>,
    data: Seq<u8>,
    width: u32,
    height: u32,
    gray: bool,
    color_key_mask: Option<Seq<u16>>,
    invert: bool,
    interpolate: bool,
    scale_factors: ScaleFactors,
)
    requires
        native_image_matches(r, data, width, height, gray, color_key_mask, invert, interpolate, scale_factors),
        r is Some,
    ensures
        match r.unwrap().0 {
            ImageData::Luma(l) => l.data@.len() == width * l.height && l.height <= height,
            ImageData::Rgb(c) => c.data@.len() == width * 3 * c.height && c.height <= height,
        },
{
    let nc: nat = if gray { 1 } else { 3 };
    let row_len = (width * nc) as nat;
    let h = fixed_height(data.len(), row_len, height as nat);
    crate::image::lemma_fixed_image_whole_rows(data, row_len, height as nat, 0u8);
}

/// The color space that image data says it has.
#[derive(Clone, Copy, Debug, PartialEq, Eq, Structural)]
pub enum ImageColorSpace {
    Gray,
    Rgb,
    Cmyk,
    Unknown,
}

/// The color space family an image is decoded in: the one its dictionary
/// declares, else the one its data says it has where that is a device space,
/// else DeviceGray.
pub fn image_color_family(declared: Option<ColorFamily>, from_data: Option<ImageColorSpace>) -> (r: ColorFamily)
    ensures
        r == match declared {
            Some(f) => f,
            None => match from_data {
                Some(ImageColorSpace::Rgb) => ColorFamily::DeviceRgb,
                Some(ImageColorSpace::Cmyk) => ColorFamily::DeviceCmyk,
                _ => ColorFamily::DeviceGray,
            },
        },
{
    match declared {
        Some(f) => f,
        None => match from_data {
            Some(ImageColorSpace::Gray) => ColorFamily::DeviceGray,
            Some(ImageColorSpace::Rgb) => ColorFamily::DeviceRgb,
            Some(ImageColorSpace::Cmyk) => ColorFamily::DeviceCmyk,
            _ => ColorFamily::DeviceGray,
        },
    }
}

/// The size an image is decoded at, and how it was scaled: the size its data
/// has where the decoder reports one (a decoder may scale the image down),
/// else the size the image declares, unscaled.
pub fn decoded_size(declared_width: u32, declared_height: u32, decoded: Option<(u32, u32)>) -> (r: (u32, u32, ScaleFactors))
    ensures
        match decoded {
            Some((w, h)) => r.0 == w && r.1 == h && r.2 == (ScaleFactors {
                declared_width,
                decoded_width: w,
                declared_height,
                decoded_height: h,
            }),
            None => r.0 == declared_width && r.1 == declared_height && r.2 == (ScaleFactors {
                declared_width: 1,
                decoded_width: 1,
                declared_height: 1,
                decoded_height: 1,
            }),
        },
{
    match decoded {
        Some((w, h)) => (w, h, ScaleFactors { declared_width, decoded_width: w, declared_height, decoded_height: h }),
        None => (declared_width, declared_height, ScaleFactors::identity()),
    }
}

/// Where the alpha of an image comes from.
#[derive(Clone, Copy, Debug, PartialEq, Eq, Structural)]
pub enum AlphaSource {
    /// The soft mask with a matte color, whose size fits the image.
    Matte,
    /// A soft mask in the image data itself.
    EmbeddedSoftMask,
    /// A soft mask or mask stream.
    MaskStream,
    /// The color key mask.
    ColorKey,
    /// No alpha.
    Opaque,
}

/// Bytes after an optional transfer function: each byte replaced by the
/// function's sample for it.
pub open spec fn transferred(data: Seq<u8>, transfer: Option<TransferFunction>) -> Seq<u8> {
    match transfer {
        None => data,
        Some(t) => Seq::new(data.len(), |k: int| t.samples()[data[k] as int]),
    }
}

/// Whether the components of an image of `width` x `height` pixels of
/// `num_components` bytes can be fixed to whole rows and converted to RGB:
/// there is at least one component, the sizes fit in memory, and the width and
/// the fixed height are not zero.
pub open spec fn converted_ok(len: nat, width: u32, height: u32, num_components: usize) -> bool {
    let h = fixed_height(len, (width * num_components) as nat, height as nat);
    &&& num_components > 0
    &&& width * num_components <= usize::MAX
    &&& width * num_components * height <= usize::MAX
    &&& width != 0 && h != 0
    &&& width * h * 3 <= usize::MAX
}

/// An image whose 8-bit components (after its decode array) are fixed to
/// whole rows, converted to RGB by `convert` (three bytes per pixel, written
/// into a zeroed buffer) and then passed through its transfer function, if it
/// has one. `None` where the components cannot be fixed or sized (see
/// `converted_ok`) and where `convert` fails.
pub fn decode_converted<F: Fn(&[u8], &mut [u8]) -> Option<()>>(
    components: Vec<u8>,
    width: u32,
    height: u32,
    num_components: usize,
    convert: F,
    transfer: Option<&TransferFunction>,
    interpolate: bool,
    scale_factors: ScaleFactors,
) -> (r: Option<RgbData>)
    requires
        forall|input: &[u8], output: &mut [u8]| call_requires(convert, (input, output)),
    ensures
        !converted_ok(components@.len(), width, height, num_components) ==> r is None,
        converted_ok(components@.len(), width, height, num_components) ==> {
            let row = (width * num_components) as nat;
            let h = fixed_height(components@.len(), row, height as nat);
            exists|input: &[u8], output: &mut [u8], res: Option<()>|
                input@ == fixed_image(components@, row, height as nat, 0u8)
                    && output@ == Seq::new((width * h * 3) as nat, |k: int| 0u8)
                    && call_ensures(convert, (input, output), res)
                    && (r is Some <==> res is Some)
                    && (r is Some ==> {
                        &&& r.unwrap().data@ == transferred(final(output)@, match transfer {
                            Some(t) => Some(*t),
                            None => None,
                        })
                        &&& r.unwrap().width == width
                        &&& r.unwrap().height == h
                        &&& r.unwrap().interpolate == interpolate
                        &&& r.unwrap().scale_factors == scale_factors
                    })
        },
{
    if num_components == 0 {
        return None;
    }
    let row_len = match (width as usize).checked_mul(num_components) {
        Some(v) => v,
        None => return None,
    };
    if row_len.checked_mul(height as usize).is_none() {
        return None;
    }
    let mut components = components;
    let mut h = height;
    if fix_image_length(&mut components, width, &mut h, 0u8, num_components).is_none() {
        return None;
    }
    let n = match (width as usize).checked_mul(h as usize) {
        Some(p) => match p.checked_mul(3) {
            Some(n) => n,
            None => return None,
        },
        None => return None,
    };
    let mut output: Vec<u8> = vec![0u8; n];
    let ghost out0 = output@;
    let m = output.as_mut_slice();
    proof {
        assert(m@ == out0);
    }
    let res = convert(components.as_slice(), m);
    if res.is_none() {
        return None;
    }
    match transfer {
        Some(t) => {
            t.apply_to(output.as_mut_slice());
        },
        None => {},
    }
    Some(RgbData { data: output, width, height: h, interpolate, scale_factors })
}

/// A decoded image with the alpha it is drawn with, if any.
pub struct DecodedRaster {
    pub image: ImageData,
    pub alpha: Option<LumaData>,
}

/// Put a decoded image together with the outcome of resolving its alpha:
/// `Some(a)` where an alpha source applied, its decoded alpha or `None` where
/// decoding it failed; `None` where no source applied. The image is returned
/// whenever it decoded, also where its alpha did not; there is no raster
/// without an image.
pub fn decoded_raster(image: Option<ImageData>, alpha: Option<Option<LumaData>>) -> (r: Option<DecodedRaster>)
    ensures
        r is Some <==> image is Some,
        r is Some ==> r.unwrap().image == image.unwrap() && r.unwrap().alpha == match alpha {
            Some(a) => a,
            None => None,
        },
{
    let image = image?;
    let alpha = match alpha {
        Some(a) => a,
        None => None,
    };
    Some(DecodedRaster { image, alpha })
}

/// Choose the source of an image's alpha, in this order: a soft mask with a
/// matte whose decoded size fits the image, a soft mask in the data when
/// `SMaskInData` is 1, a soft mask (which goes before a mask) or mask
/// stream, a color key mask; else the image is opaque.
pub fn alpha_source(matte_fits: bool, smask_in_data: Option<u8>, has_mask_stream: bool, has_color_key: bool) -> (r: AlphaSource)
    ensures
        r == if matte_fits {
            AlphaSource::Matte
        } else if smask_in_data == Some(1u8) {
            AlphaSource::EmbeddedSoftMask
        } else if has_mask_stream {
            AlphaSource::MaskStream
        } else if has_color_key {
            AlphaSource::ColorKey
        } else {
            AlphaSource::Opaque
        },
{
    if matte_fits {
        AlphaSource::Matte
    } else if smask_in_data == Some(1u8) {
        AlphaSource::EmbeddedSoftMask
    } else if has_mask_stream {
        AlphaSource::MaskStream
    } else if has_color_key {
        AlphaSource::ColorKey
    } else {
        AlphaSource::Opaque
    }
}

/// The alpha of an image from a soft mask in its data: one byte per pixel,
/// its length fixed to whole rows of `width`. `None` without such data or
/// where the width or fixed height is zero.
pub fn embedded_alpha(
    data: Option<Vec<u8>>,
    width: u32,
    height: u32,
    interpolate: bool,
    scale_factors: ScaleFactors,
) -> (r: Option<LumaData>)
    requires
        width * height <= usize::MAX,
    ensures
        match data {
            None => r is None,
            Some(d) => {
                let h = fixed_height(d@.len(), width as nat, height as nat);
                &&& (r is Some <==> width != 0 && h != 0)
                &&& r is Some ==> {
                    &&& r.unwrap().data@ == fixed_image(d@, width as nat, height as nat, 0u8)
                    &&& r.unwrap().width == width
                    &&& r.unwrap().height == h
                    &&& r.unwrap().interpolate == interpolate
                    &&& r.unwrap().scale_factors == scale_factors
                }
            },
        },
{
    match data {
        None => None,
        Some(d) => {
            let mut d = d;
            let mut h = height;
            proof {
                assert(width * 1 == width);
                assert(width * 1 * height == width * height) by (nonlinear_arith);
            }
            match fix_image_length(&mut d, width, &mut h, 0u8, 1) {
                None => None,
                Some(_) => Some(LumaData { data: d, width, height: h, interpolate, scale_factors }),
            }
        },
    }
}

} // verus!
