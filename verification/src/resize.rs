//! Resampling images of bytes with pic-scale.
use vstd::prelude::*;
use pic_scale::{ImageSize, ImageStore, ImageStoreMut, ResamplingPlan, Scaler};

verus! {

/// pic-scale's scaler, which holds the resampling filter.
#[verifier::external_type_specification]
#[verifier::external_body]
pub struct ExScaler(pic_scale::Scaler);

/// The pixel layouts an image can be resampled in.
#[derive(Clone, Copy, Debug, PartialEq, Eq, Structural)]
pub enum ImagePixelFormat {
    Luma,
    Rgb,
    PremultipliedRgba,
}

/// The bytes a pixel takes in a format.
pub open spec fn format_channels(format: ImagePixelFormat) -> nat {
    match format {
        ImagePixelFormat::Luma => 1,
        ImagePixelFormat::Rgb => 3,
        ImagePixelFormat::PremultipliedRgba => 4,
    }
}

/// What pic-scale needs of a resampling from `src_width` x `src_height` to
/// `new_width` x `new_height` pixels of `channels` bytes: no dimension is
/// zero, the source holds at least all its pixels, and neither image's size in
/// bytes exceeds `isize::MAX`.
pub open spec fn resample_ok(data_len: nat, src_width: u32, src_height: u32, new_width: u32, new_height: u32, channels: nat) -> bool {
    &&& src_width > 0 && src_height > 0 && new_width > 0 && new_height > 0
    &&& data_len >= src_width * src_height * channels
    &&& src_width * src_height * channels <= isize::MAX
    &&& new_width * new_height * channels <= isize::MAX
}

/// Whether `out` is a result pic-scale's resampling can give for the image
/// `input` of `src_width` x `src_height` pixels of `channels` bytes, brought to
/// `new_width` x `new_height` pixels. Which bytes those are is left open: they
/// depend on the scaler's filter and on the instructions the machine offers.
/// The relation ties a result to the image and the sizes it was made from.
pub uninterp spec fn resampled(input: Seq<u8>, src_width: u32, src_height: u32, new_width: u32, new_height: u32, channels: nat, out: Seq<u8>) -> bool;

/// Resample single-channel bytes with pic-scale's `Scaler::plan_planar_resampling`
/// and the plan's `resample`. The contract claims the output's length, one
/// byte per target pixel, and that it was resampled from `data` at the given
/// sizes: which bytes come out depends on the filter the scaler holds and on
/// the instructions the machine offers, and is not stated.
#[verifier::external_body]
fn resample_luma(scaler: &Scaler, data: &[u8], src_width: u32, src_height: u32, new_width: u32, new_height: u32) -> (r: Vec<u8>)
    requires
        resample_ok(data@.len(), src_width, src_height, new_width, new_height, 1),
    ensures
        r@.len() == new_width * new_height,
        resampled(data@, src_width, src_height, new_width, new_height, 1, r@),
{
    let (sw, sh, nw, nh) = (src_width as usize, src_height as usize, new_width as usize, new_height as usize);
    let src = ImageStore::<u8, 1>::from_slice(data, sw, sh).unwrap();
    let mut out = vec![0u8; nw * nh];
    let mut dst = ImageStoreMut::<u8, 1>::from_slice(&mut out, nw, nh).unwrap();
    let plan = scaler.plan_planar_resampling(ImageSize::new(sw, sh), ImageSize::new(nw, nh)).unwrap();
    plan.resample(&src, &mut dst).unwrap();
    out
}

/// Resample RGB bytes with pic-scale's `Scaler::plan_rgb_resampling` and the
/// plan's `resample`. The contract claims the output's length, three bytes per
/// target pixel, and that it was resampled from `data` at the given sizes; its
/// bytes are not stated, for the reasons given at `resample_luma`.
#[verifier::external_body]
fn resample_rgb(scaler: &Scaler, data: &[u8], src_width: u32, src_height: u32, new_width: u32, new_height: u32) -> (r: Vec<u8>)
    requires
        resample_ok(data@.len(), src_width, src_height, new_width, new_height, 3),
    ensures
        r@.len() == new_width * new_height * 3,
        resampled(data@, src_width, src_height, new_width, new_height, 3, r@),
{
    let (sw, sh, nw, nh) = (src_width as usize, src_height as usize, new_width as usize, new_height as usize);
    let src = ImageStore::<u8, 3>::from_slice(data, sw, sh).unwrap();
    let mut out = vec![0u8; nw * nh * 3];
    let mut dst = ImageStoreMut::<u8, 3>::from_slice(&mut out, nw, nh).unwrap();
    let plan = scaler.plan_rgb_resampling(ImageSize::new(sw, sh), ImageSize::new(nw, nh)).unwrap();
    plan.resample(&src, &mut dst).unwrap();
    out
}

/// Resample premultiplied RGBA bytes with pic-scale's
/// `Scaler::plan_rgba_resampling`, asked not to premultiply again, and the
/// plan's `resample`. The contract claims the output's length, four bytes per
/// target pixel, and that it was resampled from `data` at the given sizes; its
/// bytes are not stated, for the reasons given at `resample_luma`.
#[verifier::external_body]
fn resample_rgba(scaler: &Scaler, data: &[u8], src_width: u32, src_height: u32, new_width: u32, new_height: u32) -> (r: Vec<u8>)
    requires
        resample_ok(data@.len(), src_width, src_height, new_width, new_height, 4),
    ensures
        r@.len() == new_width * new_height * 4,
        resampled(data@, src_width, src_height, new_width, new_height, 4, r@),
{
    let (sw, sh, nw, nh) = (src_width as usize, src_height as usize, new_width as usize, new_height as usize);
    let src = ImageStore::<u8, 4>::from_slice(data, sw, sh).unwrap();
    let mut out = vec![0u8; nw * nh * 4];
    let mut dst = ImageStoreMut::<u8, 4>::from_slice(&mut out, nw, nh).unwrap();
    let plan = scaler.plan_rgba_resampling(ImageSize::new(sw, sh), ImageSize::new(nw, nh), false).unwrap();
    plan.resample(&src, &mut dst).unwrap();
    out
}

/// Resample an image of `src_width` x `src_height` pixels in `format` to
/// `new_width` x `new_height` pixels. The result has the size of the target
/// image, and it is what pic-scale's resampling made of `data` at these sizes.
pub fn resize_image_data(
    scaler: &Scaler,
    data: Vec<u8>,
    src_width: u32,
    src_height: u32,
    new_width: u32,
    new_height: u32,
    format: ImagePixelFormat,
) -> (r: Vec<u8>)
    requires
        resample_ok(data@.len(), src_width, src_height, new_width, new_height, format_channels(format)),
    ensures
        r@.len() == new_width * new_height * format_channels(format),
        resampled(data@, src_width, src_height, new_width, new_height, format_channels(format), r@),
{
    match format {
        ImagePixelFormat::Luma => {
            proof {
                assert(new_width * new_height * 1 == new_width * new_height) by (nonlinear_arith);
                assert(src_width * src_height * 1 == src_width * src_height) by (nonlinear_arith);
            }
            resample_luma(scaler, data.as_slice(), src_width, src_height, new_width, new_height)
        },
        ImagePixelFormat::Rgb => resample_rgb(scaler, data.as_slice(), src_width, src_height, new_width, new_height),
        ImagePixelFormat::PremultipliedRgba => resample_rgba(
            scaler,
            data.as_slice(),
            src_width,
            src_height,
            new_width,
            new_height,
        ),
    }
}

} // verus!
