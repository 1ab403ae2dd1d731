//! Turning decoded images into the RGBA pixels that are drawn.
use vstd::prelude::*;
use crate::image::{ImageData, LumaData, RgbData};
use crate::pixels::{premultiplied, premultiply_rgba};
use crate::resize::{format_channels, resample_ok, resampled, resize_image_data, ImagePixelFormat};
use crate::decode::{native_image_matches, lemma_native_image_whole_rows};
use crate::image::ScaleFactors;
use pic_scale::Scaler;

verus! {

/// An image of one color, drawn through an alpha mask.
#[derive(Clone, Copy, Debug)]
pub struct SolidColorImage {
    pub color: [u8; 3],
    pub width: u32,
    pub height: u32,
    pub interpolate: bool,
}

/// The images the renderer draws.
pub enum RenderImageData {
    Rgb(RgbData),
    Luma(LumaData),
    Solid(SolidColorImage),
}

impl RenderImageData {
    pub open spec fn spec_width(&self) -> u32 {
        match self {
            RenderImageData::Rgb(d) => d.width,
            RenderImageData::Luma(d) => d.width,
            RenderImageData::Solid(d) => d.width,
        }
    }

    pub open spec fn spec_height(&self) -> u32 {
        match self {
            RenderImageData::Rgb(d) => d.height,
            RenderImageData::Luma(d) => d.height,
            RenderImageData::Solid(d) => d.height,
        }
    }

    pub open spec fn spec_interpolate(&self) -> bool {
        match self {
            RenderImageData::Rgb(d) => d.interpolate,
            RenderImageData::Luma(d) => d.interpolate,
            RenderImageData::Solid(d) => d.interpolate,
        }
    }

    /// The width of the image in pixels.
    pub fn width(&self) -> (r: u32)
        ensures
            r == self.spec_width(),
    {
        match self {
            RenderImageData::Rgb(d) => d.width,
            RenderImageData::Luma(d) => d.width,
            RenderImageData::Solid(d) => d.width,
        }
    }

    /// The height of the image in pixels.
    pub fn height(&self) -> (r: u32)
        ensures
            r == self.spec_height(),
    {
        match self {
            RenderImageData::Rgb(d) => d.height,
            RenderImageData::Luma(d) => d.height,
            RenderImageData::Solid(d) => d.height,
        }
    }

    /// Whether the image asks to be interpolated when scaled.
    pub fn interpolate(&self) -> (r: bool)
        ensures
            r == self.spec_interpolate(),
    {
        match self {
            RenderImageData::Rgb(d) => d.interpolate,
            RenderImageData::Luma(d) => d.interpolate,
            RenderImageData::Solid(d) => d.interpolate,
        }
    }

    /// The image that decoded image data is drawn as.
    pub fn from_image(value: ImageData) -> (r: RenderImageData)
        ensures
            match value {
                ImageData::Rgb(d) => r == RenderImageData::Rgb(d),
                ImageData::Luma(d) => r == RenderImageData::Luma(d),
            },
    {
        match value {
            ImageData::Rgb(d) => RenderImageData::Rgb(d),
            ImageData::Luma(d) => RenderImageData::Luma(d),
        }
    }
}

/// Gray bytes as opaque RGBA pixels.
pub open spec fn gray_rgba(gray: Seq<u8>) -> Seq<u8> {
    Seq::new(4 * gray.len(), |i: int| if i % 4 == 3 { 255u8 } else { gray[i / 4] })
}

/// Gray bytes with their alpha as RGBA pixels, as many as both have.
pub open spec fn gray_alpha_rgba(gray: Seq<u8>, alpha: Seq<u8>) -> Seq<u8> {
    let n = if gray.len() < alpha.len() { gray.len() } else { alpha.len() };
    Seq::new(4 * n, |i: int| if i % 4 == 3 { alpha[i / 4] } else { gray[i / 4] })
}

/// One color with each alpha byte as RGBA pixels.
pub open spec fn solid_alpha_rgba(color: Seq<u8>, alpha: Seq<u8>) -> Seq<u8> {
    Seq::new(4 * alpha.len(), |i: int| if i % 4 == 3 { alpha[i / 4] } else { color[i % 4] })
}

/// The whole RGB pixels of `rgb` as opaque RGBA pixels.
pub open spec fn rgb_rgba(rgb: Seq<u8>) -> Seq<u8> {
    Seq::new(4 * (rgb.len() / 3), |i: int| if i % 4 == 3 { 255u8 } else { rgb[3 * (i / 4) + i % 4] })
}

/// The whole RGB pixels of `rgb` with their alpha as RGBA pixels, as many as
/// both have.
pub open spec fn rgb_alpha_rgba(rgb: Seq<u8>, alpha: Seq<u8>) -> Seq<u8> {
    let n = if rgb.len() / 3 < alpha.len() { rgb.len() / 3 } else { alpha.len() };
    Seq::new(4 * n, |i: int| if i % 4 == 3 { alpha[i / 4] } else { rgb[3 * (i / 4) + i % 4] })
}

/// In the RGBA of RGB pixels with their alpha, each pixel keeps its three
/// color bytes, in order, and takes its own alpha byte.
pub proof fn lemma_rgb_alpha_pixel(rgb: Seq<u8>, alpha: Seq<u8>, i: int)
    requires
        0 <= i < rgb.len() / 3,
        i < alpha.len(),
    ensures
        4 * i + 4 <= rgb_alpha_rgba(rgb, alpha).len(),
        rgb_alpha_rgba(rgb, alpha).subrange(4 * i, 4 * i + 4) == seq![rgb[3 * i], rgb[3 * i + 1], rgb[3 * i + 2], alpha[i]],
{
    let out = rgb_alpha_rgba(rgb, alpha);
    assert forall|k: int| 0 <= k < 4 implies #[trigger] out[4 * i + k] == seq![rgb[3 * i], rgb[3 * i + 1], rgb[3 * i + 2], alpha[i]][k] by {
        assert((4 * i + k) / 4 == i && (4 * i + k) % 4 == k) by (nonlinear_arith)
            requires
                0 <= k < 4,
        {
        }
    }
    assert(out.subrange(4 * i, 4 * i + 4) =~= seq![rgb[3 * i], rgb[3 * i + 1], rgb[3 * i + 2], alpha[i]]);
}

/// Converting two runs of RGB pixels with their alphas one after the other
/// gives what converting them together does: each pixel's alpha goes with it.
pub proof fn lemma_rgb_alpha_concat(rgb1: Seq<u8>, a1: Seq<u8>, rgb2: Seq<u8>, a2: Seq<u8>)
    requires
        rgb1.len() == 3 * a1.len(),
        rgb2.len() == 3 * a2.len(),
    ensures
        rgb_alpha_rgba(rgb1 + rgb2, a1 + a2) == rgb_alpha_rgba(rgb1, a1) + rgb_alpha_rgba(rgb2, a2),
{
    let n1 = a1.len() as int;
    let n2 = a2.len() as int;
    let rgb = rgb1 + rgb2;
    let a = a1 + a2;
    assert(rgb1.len() / 3 == n1 && rgb2.len() / 3 == n2 && rgb.len() / 3 == n1 + n2) by (nonlinear_arith)
        requires
            rgb1.len() == 3 * n1,
            rgb2.len() == 3 * n2,
            rgb.len() == rgb1.len() + rgb2.len(),
            n1 >= 0,
            n2 >= 0,
    {
    }
    let lhs = rgb_alpha_rgba(rgb, a);
    let rhs = rgb_alpha_rgba(rgb1, a1) + rgb_alpha_rgba(rgb2, a2);
    assert forall|k: int| 0 <= k < lhs.len() implies #[trigger] lhs[k] == rhs[k] by {
        let q = k / 4;
        let m = k % 4;
        assert(k == 4 * q + m && 0 <= m < 4) by (nonlinear_arith)
            requires
                q == k / 4,
                m == k % 4,
                k >= 0,
        {
        }
        if k < 4 * n1 {
            assert(q < n1) by (nonlinear_arith)
                requires
                    k == 4 * q + m,
                    0 <= m < 4,
                    k < 4 * n1,
            {
            }
            if m < 3 {
                assert(3 * q + m < 3 * n1) by (nonlinear_arith)
                    requires
                        q < n1,
                        0 <= m < 3,
                {
                }
            }
        } else {
            let k2 = k - 4 * n1;
            assert(k2 / 4 == q - n1 && k2 % 4 == m) by (nonlinear_arith)
                requires
                    k == 4 * q + m,
                    0 <= m < 4,
                    k2 == k - 4 * n1,
            {
            }
            assert(q >= n1) by (nonlinear_arith)
                requires
                    k == 4 * q + m,
                    0 <= m < 4,
                    k >= 4 * n1,
            {
            }
            assert(3 * (q - n1) + m == 3 * q + m - 3 * n1);
        }
    }
    assert(lhs =~= rhs);
}

/// `n` RGB pixels of one color.
pub open spec fn solid_rgb(color: Seq<u8>, n: nat) -> Seq<u8> {
    Seq::new(3 * n, |i: int| color[i % 3])
}

/// Gray bytes as opaque RGBA pixels.
pub fn gray_to_rgba(gray: &[u8]) -> (r: Vec<u8>)
    ensures
        r@ == gray_rgba(gray@),
{
    let mut out: Vec<u8> = Vec::new();
    let mut i: usize = 0;
    while i < gray.len()
        invariant
            i <= gray@.len(),
            out@.len() == 4 * i,
            forall|k: int| 0 <= k < 4 * i ==> #[trigger] out@[k] == gray_rgba(gray@)[k],
        decreases gray.len() - i,
    {
        let g = gray[i];
        out.push(g);
        out.push(g);
        out.push(g);
        out.push(255);
        i = i + 1;
    }
    assert(out@ == gray_rgba(gray@));
    out
}

/// Gray bytes with their alpha as RGBA pixels, as many as both have.
pub fn gray_alpha_to_rgba(gray: &[u8], alpha: &[u8]) -> (r: Vec<u8>)
    ensures
        r@ == gray_alpha_rgba(gray@, alpha@),
{
    let n = if gray.len() < alpha.len() { gray.len() } else { alpha.len() };
    let mut out: Vec<u8> = Vec::new();
    let mut i: usize = 0;
    while i < n
        invariant
            n == if gray@.len() < alpha@.len() { gray@.len() } else { alpha@.len() },
            i <= n,
            out@.len() == 4 * i,
            forall|k: int| 0 <= k < 4 * i ==> #[trigger] out@[k] == gray_alpha_rgba(gray@, alpha@)[k],
        decreases n - i,
    {
        let g = gray[i];
        out.push(g);
        out.push(g);
        out.push(g);
        out.push(alpha[i]);
        i = i + 1;
    }
    assert(out@ == gray_alpha_rgba(gray@, alpha@));
    out
}

/// One color with each alpha byte as RGBA pixels.
pub fn solid_alpha_to_rgba(color: [u8; 3], alpha: &[u8]) -> (r: Vec<u8>)
    ensures
        r@ == solid_alpha_rgba(color@, alpha@),
{
    let mut out: Vec<u8> = Vec::new();
    let mut i: usize = 0;
    while i < alpha.len()
        invariant
            i <= alpha@.len(),
            color@.len() == 3,
            out@.len() == 4 * i,
            forall|k: int| 0 <= k < 4 * i ==> #[trigger] out@[k] == solid_alpha_rgba(color@, alpha@)[k],
        decreases alpha.len() - i,
    {
        out.push(color[0]);
        out.push(color[1]);
        out.push(color[2]);
        out.push(alpha[i]);
        i = i + 1;
    }
    assert(out@ == solid_alpha_rgba(color@, alpha@));
    out
}

/// The whole RGB pixels of `rgb`, with their alpha where there is one, else
/// opaque, as RGBA pixels.
pub fn rgb_to_rgba(rgb: &[u8], alpha: Option<&[u8]>) -> (r: Vec<u8>)
    ensures
        r@ == match alpha {
            None => rgb_rgba(rgb@),
            Some(a) => rgb_alpha_rgba(rgb@, a@),
        },
{
    let rl = rgb.len();
    let np = rl / 3;
    let n = match alpha {
        None => np,
        Some(a) => if np < a.len() { np } else { a.len() },
    };
    let ghost target = match alpha {
        None => rgb_rgba(rgb@),
        Some(a) => rgb_alpha_rgba(rgb@, a@),
    };
    let mut out: Vec<u8> = Vec::new();
    let mut i: usize = 0;
    while i < n
        invariant
            rl == rgb@.len(),
            np == rgb@.len() / 3,
            n <= np,
            target.len() == 4 * n,
            target == match alpha {
                None => rgb_rgba(rgb@),
                Some(a) => rgb_alpha_rgba(rgb@, a@),
            },
            alpha is Some ==> n <= alpha.unwrap()@.len(),
            i <= n,
            out@.len() == 4 * i,
            forall|k: int| 0 <= k < 4 * i ==> #[trigger] out@[k] == target[k],
        decreases n - i,
    {
        out.push(rgb[3 * i]);
        out.push(rgb[3 * i + 1]);
        out.push(rgb[3 * i + 2]);
        let a = match alpha {
            None => 255u8,
            Some(a) => a[i],
        };
        out.push(a);
        i = i + 1;
    }
    assert(out@ == target);
    out
}

/// `n` RGB pixels of one color.
pub fn solid_to_rgb(color: [u8; 3], n: usize) -> (r: Vec<u8>)
    ensures
        r@ == solid_rgb(color@, n as nat),
{
    let mut out: Vec<u8> = Vec::new();
    let mut i: usize = 0;
    while i < n
        invariant
            i <= n,
            color@.len() == 3,
            out@.len() == 3 * i,
            forall|k: int| 0 <= k < 3 * i ==> #[trigger] out@[k] == solid_rgb(color@, n as nat)[k],
        decreases n - i,
    {
        out.push(color[0]);
        out.push(color[1]);
        out.push(color[2]);
        i = i + 1;
    }
    assert(out@ == solid_rgb(color@, n as nat));
    out
}

/// Byte `i` of RGBA pixels in rows of `width` pixels, framed by two
/// transparent pixels on every side.
pub open spec fn padded_byte(data: Seq<u8>, width: nat, i: int) -> u8 {
    let row_bytes = 4 * width;
    let padded_row = row_bytes + 16;
    let rows = data.len() / row_bytes;
    let r = i / (padded_row as int);
    let c = i % (padded_row as int);
    if 2 <= r < rows + 2 && 8 <= c < 8 + row_bytes {
        data[(r - 2) * row_bytes + c - 8]
    } else {
        0
    }
}

/// The whole rows of RGBA pixels in `data`, framed by two transparent pixels
/// on every side.
pub open spec fn padded(data: Seq<u8>, width: nat) -> Seq<u8> {
    let rows = data.len() / (4 * width);
    Seq::new((rows + 4) * (4 * width + 16), |i: int| padded_byte(data, width, i))
}

/// Frame the whole rows of RGBA pixels in `data`, each `width` pixels wide,
/// with two transparent pixels on every side.
#[verifier::rlimit(40)]
pub fn pad_rgba(data: &[u8], width: u32) -> (r: Vec<u8>)
    requires
        width > 0,
        (4 * width + 16) * 2 <= usize::MAX,
    ensures
        r@ == padded(data@, width as nat),
{
    let rw = 4 * (width as usize);
    let pw = rw + 16;
    let dl = data.len();
    let rows = dl / rw;
    let ghost wn = width as nat;
    let mut out: Vec<u8> = Vec::new();
    let mut k: usize = 0;
    while k < 2 * pw
        invariant
            rw == 4 * wn,
            wn == width,
            width > 0,
            pw == rw + 16,
            2 * pw <= usize::MAX,
            rows == data@.len() / (rw as nat),
            k <= 2 * pw,
            out@.len() == k,
            forall|i: int| 0 <= i < k ==> #[trigger] out@[i] == padded_byte(data@, wn, i),
        decreases 2 * pw - k,
    {
        proof {
            assert((k as int) / (pw as int) < 2) by (nonlinear_arith)
                requires k < 2 * pw, pw > 0;
        }
        out.push(0u8);
        k = k + 1;
    }
    let mut r: usize = 0;
    while r < rows
        invariant
            rw == 4 * wn,
            wn == width,
            width > 0,
            pw == rw + 16,
            2 * pw <= usize::MAX,
            dl == data@.len(),
            rows == data@.len() / (rw as nat),
            r <= rows,
            out@.len() == (r + 2) * pw,
            forall|i: int| 0 <= i < out@.len() ==> #[trigger] out@[i] == padded_byte(data@, wn, i),
        decreases rows - r,
    {
        proof {
            assert(r * rw + rw <= data@.len()) by (nonlinear_arith)
                requires r < rows, rows == data@.len() / (rw as nat), rw > 0;
        }
        let start = r * rw;
        let mut c: usize = 0;
        while c < pw
            invariant
                rw == 4 * wn,
                wn == width,
                pw == rw + 16,
                rw > 0,
                dl == data@.len(),
                rows == data@.len() / (rw as nat),
                r < rows,
                start == r * rw,
                start + rw <= data@.len(),
                c <= pw,
                out@.len() == (r + 2) * pw + c,
                forall|i: int| 0 <= i < out@.len() ==> #[trigger] out@[i] == padded_byte(data@, wn, i),
            decreases pw - c,
        {
            let ghost i = out@.len() as int;
            proof {
                vstd::arithmetic::div_mod::lemma_fundamental_div_mod_converse(i, pw as int, (r + 2) as int, c as int);
            }
            let v = if 8 <= c && c < 8 + rw {
                data[start + (c - 8)]
            } else {
                0u8
            };
            out.push(v);
            c = c + 1;
        }
        proof {
            assert(out@.len() == (r + 3) * pw) by (nonlinear_arith)
                requires out@.len() == (r + 2) * pw + pw;
        }
        r = r + 1;
    }
    let mut k: usize = 0;
    while k < 2 * pw
        invariant
            rw == 4 * wn,
            wn == width,
            width > 0,
            pw == rw + 16,
            2 * pw <= usize::MAX,
            rows == data@.len() / (rw as nat),
            k <= 2 * pw,
            out@.len() == (rows + 2) * pw + k,
            forall|i: int| 0 <= i < out@.len() ==> #[trigger] out@[i] == padded_byte(data@, wn, i),
        decreases 2 * pw - k,
    {
        let ghost i = out@.len() as int;
        proof {
            assert(i / (pw as int) >= rows + 2) by (nonlinear_arith)
                requires i == (rows + 2) * pw + k, pw > 0, k >= 0;
        }
        out.push(0u8);
        k = k + 1;
    }
    proof {
        assert(out@.len() == (rows + 4) * pw) by (nonlinear_arith)
            requires out@.len() == (rows + 2) * pw + 2 * pw;
        assert(out@ == padded(data@, wn));
    }
    out
}

/// RGBA pixels ready to be drawn, with the size they have after resampling
/// and framing.
pub struct RgbaImage {
    pub data: Vec<u8>,
    pub width: u32,
    pub height: u32,
    pub may_have_transparency: bool,
}

/// What the pixel data of an image is resampled from: at least all its
/// pixels in its own format, with an alpha of at least one byte per pixel.
pub open spec fn image_resample_ok(image: RenderImageData, alpha: Option<LumaData>, new_width: u32, new_height: u32) -> bool {
    let w = image.spec_width();
    let h = image.spec_height();
    &&& resample_ok((w * h * 4) as nat, w, h, new_width, new_height, 4)
    &&& match image {
        RenderImageData::Rgb(d) => d.data@.len() >= w * h * 3,
        RenderImageData::Luma(d) => d.data@.len() >= w * h,
        RenderImageData::Solid(_) => true,
    }
    &&& alpha is Some ==> alpha.unwrap().data@.len() >= w * h
}

/// Whether `out` is the RGBA that an image with an optional alpha of the same
/// size becomes, resampled to `target` where one is given: each channel with
/// its alpha, or opaque without one, and premultiplied where there is an
/// alpha. Resampling is done on the gray, RGB and alpha planes where these are
/// drawn without mixing, and on the premultiplied RGBA pixels otherwise; what
/// it makes of its input is only known through `resampled`.
pub open spec fn rgba_matches(out: Seq<u8>, image: RenderImageData, alpha: Option<LumaData>, target: Option<(u32, u32)>) -> bool {
    let w = image.spec_width();
    let h = image.spec_height();
    match target {
        None => match (image, alpha) {
            (RenderImageData::Solid(s), Some(a)) => out == premultiplied(solid_alpha_rgba(s.color@, a.data@)),
            (RenderImageData::Solid(s), None) => out == rgb_rgba(solid_rgb(s.color@, (w * h) as nat)),
            (RenderImageData::Luma(l), None) => out == gray_rgba(l.data@),
            (RenderImageData::Luma(l), Some(a)) => out == premultiplied(gray_alpha_rgba(l.data@, a.data@)),
            (RenderImageData::Rgb(c), None) => out == rgb_rgba(c.data@),
            (RenderImageData::Rgb(c), Some(a)) => out == premultiplied(rgb_alpha_rgba(c.data@, a.data@)),
        },
        Some((nw, nh)) => {
            let n = nw * nh;
            match (image, alpha) {
                (RenderImageData::Solid(s), Some(a)) => exists|ra: Seq<u8>|
                    ra.len() == n && resampled(a.data@, w, h, nw, nh, 1, ra)
                        && out == premultiplied(#[trigger] solid_alpha_rgba(s.color@, ra)),
                (RenderImageData::Solid(s), None) => out.len() == 4 * n && resampled(
                    premultiplied(rgb_rgba(solid_rgb(s.color@, (w * h) as nat))),
                    w,
                    h,
                    nw,
                    nh,
                    4,
                    out,
                ),
                (RenderImageData::Luma(l), None) => exists|rl: Seq<u8>|
                    rl.len() == n && resampled(l.data@, w, h, nw, nh, 1, rl) && out == #[trigger] gray_rgba(rl),
                (RenderImageData::Luma(l), Some(a)) => exists|rl: Seq<u8>, ra: Seq<u8>|
                    rl.len() == n && ra.len() == n && resampled(l.data@, w, h, nw, nh, 1, rl)
                        && resampled(a.data@, w, h, nw, nh, 1, ra)
                        && out == premultiplied(#[trigger] gray_alpha_rgba(rl, ra)),
                (RenderImageData::Rgb(c), None) => exists|rc: Seq<u8>|
                    rc.len() == 3 * n && resampled(c.data@, w, h, nw, nh, 3, rc) && out == #[trigger] rgb_rgba(rc),
                (RenderImageData::Rgb(c), Some(a)) => out.len() == 4 * n && resampled(
                    premultiplied(rgb_alpha_rgba(c.data@, a.data@)),
                    w,
                    h,
                    nw,
                    nh,
                    4,
                    out,
                ),
            }
        },
    }
}

/// The width and height an image has after resampling to `target`.
pub open spec fn target_size(image: RenderImageData, target: Option<(u32, u32)>) -> (u32, u32) {
    match target {
        Some((nw, nh)) => (nw, nh),
        None => (image.spec_width(), image.spec_height()),
    }
}

/// Whether `r` is what `image_rgba` makes of an image, its alpha, a target
/// size and the choice to frame it.
pub open spec fn rgba_image_matches(
    r: RgbaImage,
    image: RenderImageData,
    alpha: Option<LumaData>,
    target: Option<(u32, u32)>,
    pad: bool,
) -> bool {
    let w2 = target_size(image, target).0;
    let h2 = target_size(image, target).1;
    &&& r.width == if pad { w2 + 4 } else { w2 as int }
    &&& r.height == if pad { h2 + 4 } else { h2 as int }
    &&& r.may_have_transparency == (alpha is Some || pad)
    &&& exists|pre: Seq<u8>|
        #[trigger] rgba_matches(pre, image, alpha, target) && r.data@ == if pad {
            padded(pre, w2 as nat)
        } else {
            pre
        }
}

/// The RGBA pixels an image is drawn with: each kind of image with its alpha
/// (which has the image's size), resampled to `target` where one is given, and
/// framed by two transparent pixels on every side when `pad` holds (as glyphs
/// of Type 3 fonts are, so that their edges are not smeared).
#[verifier::rlimit(60)]
pub fn image_rgba(
    scaler: &Scaler,
    image: RenderImageData,
    alpha: Option<LumaData>,
    target: Option<(u32, u32)>,
    pad: bool,
) -> (r: RgbaImage)
    requires
        alpha is Some ==> alpha.unwrap().width == image.spec_width() && alpha.unwrap().height
            == image.spec_height(),
        image is Solid ==> image.spec_width() * image.spec_height() <= usize::MAX,
        target is Some ==> image_resample_ok(image, alpha, target.unwrap().0, target.unwrap().1),
        pad ==> ({
            let w = match target {
                Some((nw, _)) => nw,
                None => image.spec_width(),
            };
            w > 0 && (4 * w + 16) * 2 <= usize::MAX && w + 4 <= u32::MAX
        }),
        pad ==> (match target {
            Some((_, nh)) => nh,
            None => image.spec_height(),
        }) + 4 <= u32::MAX,
    ensures
        rgba_image_matches(r, image, alpha, target, pad),
{
    let w = image.width();
    let h = image.height();
    let has_alpha = alpha.is_some();
    let ghost image0 = image;
    let ghost alpha0 = alpha;
    let (out_w, out_h) = match target {
        Some((nw, nh)) => (nw, nh),
        None => (w, h),
    };
    let rgba: Vec<u8> = match image {
        RenderImageData::Solid(solid) => {
            match alpha {
                Some(a) => {
                    let ad = match target {
                        None => a.data,
                        Some((nw, nh)) => {
                            proof {
                                assert(w * h * 1 == w * h) by (nonlinear_arith);
                                assert(w * h * 1 <= w * h * 4) by (nonlinear_arith);
                                assert(nw * nh * 1 <= nw * nh * 4) by (nonlinear_arith);
                            }
                            resize_image_data(scaler, a.data, w, h, nw, nh, ImagePixelFormat::Luma)
                        },
                    };
                    let mut out = solid_alpha_to_rgba(solid.color, ad.as_slice());
                    let ghost before = out@;
                    premultiply_rgba(out.as_mut_slice());
                    proof {
                        if target is Some {
                            assert(ad@.len() == target.unwrap().0 * target.unwrap().1);
                            assert(rgba_matches(out@, image0, alpha0, target));
                        }
                    }
                    out
                },
                None => {
                    let n = (w as usize) * (h as usize);
                    let rgb = solid_to_rgb(solid.color, n);
                    let mut out = rgb_to_rgba(rgb.as_slice(), None);
                    match target {
                        None => out,
                        Some((nw, nh)) => {
                            proof {
                                assert(out@.len() == 4 * (w * h)) by (nonlinear_arith)
                                    requires out@.len() == 4 * (rgb@.len() / 3), rgb@.len() == 3 * (w * h);
                                assert(4 * (w * h) == w * h * 4) by (nonlinear_arith);
                            }
                            premultiply_rgba(out.as_mut_slice());
                            let res = resize_image_data(scaler, out, w, h, nw, nh, ImagePixelFormat::PremultipliedRgba);
                            proof {
                                assert(nw * nh * 4 == 4 * (nw * nh)) by (nonlinear_arith);
                            }
                            res
                        },
                    }
                },
            }
        },
        RenderImageData::Luma(luma) => {
            match alpha {
                None => {
                    let ld = match target {
                        None => luma.data,
                        Some((nw, nh)) => {
                            proof {
                                assert(w * h * 1 == w * h) by (nonlinear_arith);
                                assert(w * h * 1 <= w * h * 4) by (nonlinear_arith);
                                assert(nw * nh * 1 <= nw * nh * 4) by (nonlinear_arith);
                            }
                            resize_image_data(scaler, luma.data, w, h, nw, nh, ImagePixelFormat::Luma)
                        },
                    };
                    let out = gray_to_rgba(ld.as_slice());
                    proof {
                        if target is Some {
                            assert(rgba_matches(out@, image0, alpha0, target));
                        }
                    }
                    out
                },
                Some(a) => {
                    let (ld, ad) = match target {
                        None => (luma.data, a.data),
                        Some((nw, nh)) => {
                            proof {
                                assert(w * h * 1 == w * h) by (nonlinear_arith);
                                assert(w * h * 1 <= w * h * 4) by (nonlinear_arith);
                                assert(nw * nh * 1 <= nw * nh * 4) by (nonlinear_arith);
                            }
                            let rl = resize_image_data(scaler, luma.data, w, h, nw, nh, ImagePixelFormat::Luma);
                            let ra = resize_image_data(scaler, a.data, w, h, nw, nh, ImagePixelFormat::Luma);
                            (rl, ra)
                        },
                    };
                    let mut out = gray_alpha_to_rgba(ld.as_slice(), ad.as_slice());
                    premultiply_rgba(out.as_mut_slice());
                    proof {
                        if target is Some {
                            assert(rgba_matches(out@, image0, alpha0, target));
                        }
                    }
                    out
                },
            }
        },
        RenderImageData::Rgb(rgb) => {
            match alpha {
                None => {
                    match target {
                        None => rgb_to_rgba(rgb.data.as_slice(), None),
                        Some((nw, nh)) => {
                            proof {
                                assert(nw * nh * 3 <= nw * nh * 4) by (nonlinear_arith);
                                assert(w * h * 3 <= w * h * 4) by (nonlinear_arith);
                            }
                            let rc = resize_image_data(scaler, rgb.data, w, h, nw, nh, ImagePixelFormat::Rgb);
                            let out = rgb_to_rgba(rc.as_slice(), None);
                            proof {
                                assert(rc@.len() == 3 * (nw * nh)) by (nonlinear_arith)
                                    requires rc@.len() == nw * nh * 3;
                                assert(rgba_matches(out@, image0, alpha0, target));
                            }
                            out
                        },
                    }
                },
                Some(a) => {
                    let mut out = rgb_to_rgba(rgb.data.as_slice(), Some(a.data.as_slice()));
                    premultiply_rgba(out.as_mut_slice());
                    match target {
                        None => out,
                        Some((nw, nh)) => {
                            proof {
                                assert(out@.len() >= w * h * 4) by (nonlinear_arith)
                                    requires
                                        out@.len() == 4 * (if rgb.data@.len() / 3 < a.data@.len() { rgb.data@.len() / 3 } else { a.data@.len() }),
                                        rgb.data@.len() >= w * h * 3,
                                        a.data@.len() >= w * h,
                                {
                                }
                            }
                            let res = resize_image_data(scaler, out, w, h, nw, nh, ImagePixelFormat::PremultipliedRgba);
                            proof {
                                assert(nw * nh * 4 == 4 * (nw * nh)) by (nonlinear_arith);
                            }
                            res
                        },
                    }
                },
            }
        },
    };
    proof {
        assert(rgba_matches(rgba@, image0, alpha0, target));
    }
    if pad {
        let framed = pad_rgba(rgba.as_slice(), out_w);
        let r = RgbaImage { data: framed, width: out_w + 4, height: out_h + 4, may_have_transparency: true };
        proof {
            assert(rgba_matches(rgba@, image0, alpha0, target) && r.data@ == padded(rgba@, out_w as nat));
            assert(rgba_image_matches(r, image0, alpha0, target, pad));
        }
        r
    } else {
        let r = RgbaImage { data: rgba, width: out_w, height: out_h, may_have_transparency: has_alpha };
        proof {
            let _unused = padded(rgba@, out_w as nat);
            assert(rgba_matches(r.data@, image0, alpha0, target));
            assert(rgba_image_matches(r, image0, alpha0, target, pad));
        }
        r
    }
}

/// The pixel data of an image that holds exactly its pixels, in its format.
pub open spec fn exact_image_data(image: RenderImageData, alpha: Option<LumaData>) -> bool {
    let n = image.spec_width() * image.spec_height();
    &&& match image {
        RenderImageData::Rgb(d) => d.data@.len() == 3 * n,
        RenderImageData::Luma(d) => d.data@.len() == n,
        RenderImageData::Solid(_) => true,
    }
    &&& alpha is Some ==> alpha.unwrap().data@.len() == n
}

/// An image whose data holds exactly its pixels is drawn with exactly four
/// bytes for each pixel of the size it is drawn at.
pub proof fn lemma_rgba_whole_pixels(
    r: RgbaImage,
    image: RenderImageData,
    alpha: Option<LumaData>,
    target: Option<(u32, u32)>,
    pad: bool,
)
    requires
        rgba_image_matches(r, image, alpha, target, pad),
        exact_image_data(image, alpha),
        pad ==> target_size(image, target).0 > 0,
    ensures
        r.data@.len() == 4 * r.width * r.height,
{
    let w2 = target_size(image, target).0;
    let h2 = target_size(image, target).1;
    let pre = choose|pre: Seq<u8>|
        #[trigger] rgba_matches(pre, image, alpha, target) && r.data@ == if pad {
            padded(pre, w2 as nat)
        } else {
            pre
        };
    let n = (w2 * h2) as nat;
    assert(3 * n / 3 == n) by (nonlinear_arith);
    assert(pre.len() == 4 * n) by {
        match target {
            None => {
                match (image, alpha) {
                    (RenderImageData::Solid(s), None) => {
                        assert(solid_rgb(s.color@, n).len() == 3 * n);
                    },
                    _ => {},
                }
            },
            Some((nw, nh)) => {
                match (image, alpha) {
                    (RenderImageData::Solid(s), Some(a)) => {
                        let ra = choose|ra: Seq<u8>| ra.len() == n && pre == premultiplied(#[trigger] solid_alpha_rgba(s.color@, ra));
                    },
                    (RenderImageData::Luma(l), None) => {
                        let rl = choose|rl: Seq<u8>| rl.len() == n && pre == #[trigger] gray_rgba(rl);
                    },
                    (RenderImageData::Luma(l), Some(a)) => {
                        let (rl, ra) = choose|rl: Seq<u8>, ra: Seq<u8>|
                            rl.len() == n && ra.len() == n && pre == premultiplied(#[trigger] gray_alpha_rgba(rl, ra));
                    },
                    (RenderImageData::Rgb(c), None) => {
                        let rc = choose|rc: Seq<u8>| rc.len() == 3 * n && pre == #[trigger] rgb_rgba(rc);
                    },
                    _ => {},
                }
            },
        }
    }
    if pad {
        let rw = 4 * (w2 as nat);
        assert(pre.len() / rw == h2) by (nonlinear_arith)
            requires pre.len() == 4 * n, n == w2 * h2, rw == 4 * w2, w2 > 0;
        assert((h2 + 4) * (rw + 16) == 4 * (w2 + 4) * (h2 + 4)) by (nonlinear_arith)
            requires rw == 4 * w2;
    } else {
        assert(4 * n == 4 * w2 * h2) by (nonlinear_arith)
            requires n == w2 * h2;
    }
}

/// The image an alpha of another size is drawn with as the second layer of
/// an image: black, with the alpha's size and interpolation, so that only
/// the alpha counts.
pub fn alpha_layer_image(alpha: &LumaData) -> (r: SolidColorImage)
    ensures
        r.color@ == seq![0u8, 0u8, 0u8],
        r.width == alpha.width,
        r.height == alpha.height,
        r.interpolate == alpha.interpolate,
{
    let r = SolidColorImage { color: [0, 0, 0], width: alpha.width, height: alpha.height, interpolate: alpha.interpolate };
    assert(r.color@ == seq![0u8, 0u8, 0u8]);
    r
}

/// The image a stencil mask painted with an RGBA color is drawn as: the
/// color's RGB over the stencil's size and interpolation, and whether it
/// needs a layer of its own (for a translucent color or a blend mode other
/// than the default one).
pub fn stencil_color_image(rgba: [u8; 4], stencil: &LumaData, default_blend: bool) -> (r: (SolidColorImage, bool))
    ensures
        r.0.color@ == rgba@.subrange(0, 3),
        r.0.width == stencil.width,
        r.0.height == stencil.height,
        r.0.interpolate == stencil.interpolate,
        r.1 == (rgba@[3] != 255 || !default_blend),
{
    let image = SolidColorImage {
        color: [rgba[0], rgba[1], rgba[2]],
        width: stencil.width,
        height: stencil.height,
        interpolate: stencil.interpolate,
    };
    assert(image.color@ == rgba@.subrange(0, 3));
    (image, rgba[3] != 255 || !default_blend)
}

/// The white image a stencil mask painted with a pattern is first drawn as,
/// to become the mask the pattern is painted through.
pub fn stencil_pattern_image(stencil: &LumaData) -> (r: RgbData)
    requires
        stencil.width * stencil.height * 3 <= usize::MAX,
    ensures
        r.data@ == Seq::new((stencil.width * stencil.height * 3) as nat, |i: int| 255u8),
        r.width == stencil.width,
        r.height == stencil.height,
        r.interpolate == stencil.interpolate,
        r.scale_factors == stencil.scale_factors,
{
    let n = (stencil.width as usize) * (stencil.height as usize) * 3;
    let mut data: Vec<u8> = Vec::new();
    let mut i: usize = 0;
    while i < n
        invariant
            i <= n,
            data@ == Seq::new(i as nat, |k: int| 255u8),
        decreases n - i,
    {
        data.push(255);
        i = i + 1;
        assert(data@ == Seq::new(i as nat, |k: int| 255u8));
    }
    RgbData { data, width: stencil.width, height: stencil.height, interpolate: stencil.interpolate, scale_factors: stencil.scale_factors }
}

/// Whether an alpha can be drawn together with an image: it has the image's
/// size and interpolation. Otherwise the image and its alpha are drawn in two
/// layers.
pub fn alpha_fits_image(image: &RenderImageData, alpha: &LumaData) -> (r: bool)
    ensures
        r == (alpha.width == image.spec_width() && alpha.height == image.spec_height() && alpha.interpolate
            == image.spec_interpolate()),
{
    alpha.width == image.width() && alpha.height == image.height() && alpha.interpolate == image.interpolate()
}

/// The image data of a decoded image, as the renderer takes it.
pub open spec fn spec_render_image(image: ImageData) -> RenderImageData {
    match image {
        ImageData::Rgb(d) => RenderImageData::Rgb(d),
        ImageData::Luma(d) => RenderImageData::Luma(d),
    }
}

/// An image decoded without interpolation and without alpha is drawn, at any
/// size and framed or not, with exactly four bytes for each of its pixels.
pub proof fn lemma_native_image_draws_whole_pixels(
    decoded: Option<(ImageData, Option<LumaData>)>,
    data: Seq<u8>,
    width: u32,
    height: u32,
    gray: bool,
    invert: bool,
    interpolate: bool,
    scale_factors: ScaleFactors,
    r: RgbaImage,
    target: Option<(u32, u32)>,
    pad: bool,
)
    requires
        native_image_matches(decoded, data, width, height, gray, None, invert, interpolate, scale_factors),
        decoded is Some,
        rgba_image_matches(r, spec_render_image(decoded.unwrap().0), None, target, pad),
        pad ==> target_size(spec_render_image(decoded.unwrap().0), target).0 > 0,
    ensures
        r.data@.len() == 4 * r.width * r.height,
{
    lemma_native_image_whole_rows(decoded, data, width, height, gray, None, invert, interpolate, scale_factors);
    let image = spec_render_image(decoded.unwrap().0);
    match decoded.unwrap().0 {
        ImageData::Luma(l) => {
            assert(l.data@.len() == width * l.height);
            assert(width * l.height == l.width * l.height);
        },
        ImageData::Rgb(c) => {
            assert(c.data@.len() == width * 3 * c.height);
            assert(width * 3 * c.height == 3 * (c.width * c.height)) by (nonlinear_arith)
                requires c.width == width;
        },
    }
    assert(exact_image_data(image, None));
    lemma_rgba_whole_pixels(r, image, None, target, pad);
}

/// How finely an image is sampled when it is drawn.
#[derive(Clone, Copy, Debug, PartialEq, Eq, Structural)]
pub enum SamplingQuality {
    Low,
    Medium,
    High,
}

/// The quality an image is sampled with: high for an image resampled inside
/// a glyph of a Type 3 font, else medium where the image asks to be
/// interpolated and low where it does not.
pub fn image_quality(interpolate: bool, resampled: bool, in_type3_glyph: bool) -> (r: SamplingQuality)
    ensures
        r == if resampled && in_type3_glyph {
            SamplingQuality::High
        } else if interpolate {
            SamplingQuality::Medium
        } else {
            SamplingQuality::Low
        },
{
    if resampled && in_type3_glyph {
        SamplingQuality::High
    } else if interpolate {
        SamplingQuality::Medium
    } else {
        SamplingQuality::Low
    }
}

} // verus!
