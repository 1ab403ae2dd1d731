//! ICC-based color spaces, converted to sRGB with moxcms.
use vstd::prelude::*;
use moxcms::{ColorProfile, DataColorSpace, Layout, TransformOptions};
use crate::color::{is_srgb_profile, spec_is_srgb_profile};

verus! {

/// moxcms's parsed ICC profile.
#[verifier::external_type_specification]
#[verifier::external_body]
pub struct ExColorProfile(moxcms::ColorProfile);

/// How the components of a pixel are laid out for a color transform.
#[derive(Clone, Copy, Debug, PartialEq, Eq, Structural)]
pub enum IccLayout {
    Gray,
    Rgb,
    Rgba,
}

/// The layout of pixels of `n` components: gray for one, RGB for three, and
/// four channels for four; no other count is supported.
pub open spec fn spec_icc_layout(n: usize) -> Option<IccLayout> {
    if n == 1 {
        Some(IccLayout::Gray)
    } else if n == 3 {
        Some(IccLayout::Rgb)
    } else if n == 4 {
        Some(IccLayout::Rgba)
    } else {
        None
    }
}

/// The layout of pixels of `n` components.
pub fn icc_layout(n: usize) -> (r: Option<IccLayout>)
    ensures
        r == spec_icc_layout(n),
{
    if n == 1 {
        Some(IccLayout::Gray)
    } else if n == 3 {
        Some(IccLayout::Rgb)
    } else if n == 4 {
        Some(IccLayout::Rgba)
    } else {
        None
    }
}

/// The number of components of a pixel in a layout.
pub open spec fn layout_components(layout: IccLayout) -> nat {
    match layout {
        IccLayout::Gray => 1,
        IccLayout::Rgb => 3,
        IccLayout::Rgba => 4,
    }
}

/// Whether moxcms's `ColorProfile::new_from_slice` reads the bytes as an ICC
/// profile. The answer depends on the bytes alone.
pub uninterp spec fn icc_parses(bytes: Seq<u8>) -> bool;

/// Whether the profile moxcms reads from the bytes has the Lab data color
/// space (its `color_space` field).
pub uninterp spec fn icc_is_lab(bytes: Seq<u8>) -> bool;

/// Whether moxcms reads the bytes as a profile and its
/// `ColorProfile::create_transform_8bit` makes a transform from it, for
/// pixels of `components` components, to 8-bit sRGB.
pub uninterp spec fn icc_transform_ok(bytes: Seq<u8>, components: nat) -> bool;

/// Parse an ICC profile with moxcms's `ColorProfile::new_from_slice`, with
/// whether its `color_space` field is Lab. The contract claims that the result
/// is there exactly where moxcms reads the bytes, and names what the field
/// holds; which bytes moxcms accepts is not stated.
#[verifier::external_body]
fn parse_profile(bytes: &[u8]) -> (r: Option<(ColorProfile, bool)>)
    ensures
        r is Some <==> icc_parses(bytes@),
        r is Some ==> r.unwrap().1 == icc_is_lab(bytes@),
{
    match ColorProfile::new_from_slice(bytes) {
        Ok(p) => {
            let lab = matches!(p.color_space, DataColorSpace::Lab);
            Some((p, lab))
        },
        Err(_) => None,
    }
}

/// Whether moxcms's `ColorProfile::create_transform_8bit` makes a transform
/// to 8-bit sRGB from the profile moxcms reads from `bytes`, for pixels in
/// `layout`; `false` where moxcms does not read the bytes. The contract
/// names the answer; which profiles moxcms can transform is not stated.
#[verifier::external_body]
fn can_transform_u8(bytes: &[u8], layout: IccLayout) -> (r: bool)
    ensures
        r == icc_transform_ok(bytes@, layout_components(layout)),
{
    let src = match layout {
        IccLayout::Gray => Layout::Gray,
        IccLayout::Rgb => Layout::Rgb,
        IccLayout::Rgba => Layout::Rgba,
    };
    match ColorProfile::new_from_slice(bytes) {
        Ok(p) => p.create_transform_8bit(src, &ColorProfile::new_srgb(), Layout::Rgb, TransformOptions::default()).is_ok(),
        Err(_) => false,
    }
}

/// Whether moxcms's 8-bit transform to sRGB, made from the ICC profile in
/// the bytes `profile` for pixels of `components` components, can end with
/// `ok` (whether it succeeded) and `output` when run on `input`. Which
/// outcomes those are is left open: moxcms picks its code by the instructions
/// the machine offers, computes the bytes with tables and rounding that differ
/// between them, and some of that code allocates scratch buffers and fails
/// when memory runs out.
pub uninterp spec fn icc_converted(profile: Seq<u8>, components: nat, input: Seq<u8>, ok: bool, output: Seq<u8>) -> bool;

/// Convert 8-bit pixels of `profile` to sRGB with the transform moxcms's
/// `ColorProfile::create_transform_8bit` makes from its parsed profile in its
/// layout, and that transform's `transform`; `false` where either fails. The
/// contract claims that `output` keeps its length and that the outcome is one
/// moxcms's conversion can give for the bytes the profile was read from, its
/// number of components and `input`. That rests on `new`, the only
/// constructor, recording the bytes beside the profile it parsed from them.
/// Neither the bytes written nor when moxcms succeeds is stated.
#[verifier::external_body]
fn transform_u8(profile: &ICCProfile, input: &[u8], output: &mut [u8]) -> (r: bool)
    ensures
        final(output)@.len() == old(output)@.len(),
        icc_converted(
            profile.spec_source(),
            profile.spec_number_components() as nat,
            input@,
            r,
            final(output)@,
        ),
{
    let src = match profile.layout {
        IccLayout::Gray => Layout::Gray,
        IccLayout::Rgb => Layout::Rgb,
        IccLayout::Rgba => Layout::Rgba,
    };
    let options = TransformOptions::default();
    match profile.profile.create_transform_8bit(src, &ColorProfile::new_srgb(), Layout::Rgb, options) {
        Ok(t) => t.transform(input, output).is_ok(),
        Err(_) => false,
    }
}

/// An ICC profile that colors can be converted from.
pub struct ICCProfile {
    profile: ColorProfile,
    layout: IccLayout,
    number_components: usize,
    is_srgb: bool,
    is_lab: bool,
    source: Ghost<Seq<u8>>,
}

impl ICCProfile {
    pub closed spec fn spec_number_components(&self) -> usize {
        self.number_components
    }

    pub closed spec fn spec_is_srgb(&self) -> bool {
        self.is_srgb
    }

    pub closed spec fn spec_is_lab(&self) -> bool {
        self.is_lab
    }

    /// The bytes the profile was read from.
    pub closed spec fn spec_source(&self) -> Seq<u8> {
        self.source@
    }

    pub closed spec fn wf(&self) -> bool {
        spec_icc_layout(self.number_components) == Some(self.layout)
    }

    /// Read an ICC profile for colors of `number_components` components.
    /// `None` for a number of components other than 1, 3 or 4, and where
    /// moxcms cannot parse the profile or make an 8-bit transform from it to
    /// sRGB.
    pub fn new(profile: &[u8], number_components: usize) -> (r: Option<ICCProfile>)
        ensures
            r is Some <==> spec_icc_layout(number_components) is Some && icc_parses(profile@)
                && icc_transform_ok(profile@, number_components as nat),
            r is Some ==> {
                &&& r.unwrap().wf()
                &&& r.unwrap().spec_number_components() == number_components
                &&& r.unwrap().spec_is_srgb() == spec_is_srgb_profile(profile@)
                &&& r.unwrap().spec_is_lab() == icc_is_lab(profile@)
                &&& r.unwrap().spec_source() == profile@
            },
    {
        let (src_profile, is_lab) = parse_profile(profile)?;
        let is_srgb = is_srgb_profile(profile);
        let layout = icc_layout(number_components)?;
        if !can_transform_u8(profile, layout) {
            return None;
        }
        Some(ICCProfile { profile: src_profile, layout, number_components, is_srgb, is_lab, source: Ghost(profile@) })
    }

    /// The number of components of the colors of the profile.
    pub fn number_components(&self) -> (r: usize)
        ensures
            r == self.spec_number_components(),
    {
        self.number_components
    }

    /// Whether the profile names sRGB as its device model.
    pub fn is_srgb(&self) -> (r: bool)
        ensures
            r == self.spec_is_srgb(),
    {
        self.is_srgb
    }

    /// Whether the profile's data color space is Lab.
    pub fn is_lab(&self) -> (r: bool)
        ensures
            r == self.spec_is_lab(),
    {
        self.is_lab
    }

    /// Convert 8-bit colors of the profile to 8-bit sRGB. An sRGB profile's
    /// bytes are copied as they are; any other goes through moxcms, and is
    /// `None` where moxcms fails. What moxcms writes, and whether it fails, is
    /// an outcome of its conversion of `input` with the profile's bytes.
    pub fn convert_u8(&self, input: &[u8], output: &mut [u8]) -> (r: Option<()>)
        requires
            self.spec_is_srgb() ==> input@.len() == old(output)@.len(),
        ensures
            final(output)@.len() == old(output)@.len(),
            self.spec_is_srgb() ==> r is Some && final(output)@ == input@,
            !self.spec_is_srgb() ==> icc_converted(
                self.spec_source(),
                self.spec_number_components() as nat,
                input@,
                r is Some,
                final(output)@,
            ),
    {
        if self.is_srgb {
            let mut i: usize = 0;
            while i < input.len()
                invariant
                    input@.len() == output@.len(),
                    i <= input@.len(),
                    forall|j: int| 0 <= j < i ==> #[trigger] output@[j] == input@[j],
                decreases input.len() - i,
            {
                output[i] = input[i];
                i = i + 1;
            }
            assert(output@ == input@);
            Some(())
        } else if transform_u8(self, input, output) {
            Some(())
        } else {
            None
        }
    }
}

} // verus!
