//! Color space families and the conversions of 8-bit components that need
//! no color management.
use vstd::prelude::*;
use crate::object::{Object, ObjectView, view_objects, lemma_view_objects};

verus! {

/// The families of PDF color spaces.
#[derive(Clone, Copy, Debug, PartialEq, Eq, Structural)]
pub enum ColorFamily {
    DeviceGray,
    DeviceRgb,
    DeviceCmyk,
    Pattern,
    Indexed,
    IccBased,
    CalGray,
    CalRgb,
    Lab,
    Separation,
    DeviceN,
}

/// The name `DeviceRGB`.
pub open spec fn name_device_rgb() -> Seq<u8> {
    seq![68u8, 101, 118, 105, 99, 101, 82, 71, 66]
}

/// The name `RGB`.
pub open spec fn name_rgb() -> Seq<u8> {
    seq![82u8, 71, 66]
}

/// The name `DeviceGray`.
pub open spec fn name_device_gray() -> Seq<u8> {
    seq![68u8, 101, 118, 105, 99, 101, 71, 114, 97, 121]
}

/// The name `G`.
pub open spec fn name_g() -> Seq<u8> {
    seq![71u8]
}

/// The name `DeviceCMYK`.
pub open spec fn name_device_cmyk() -> Seq<u8> {
    seq![68u8, 101, 118, 105, 99, 101, 67, 77, 89, 75]
}

/// The name `CMYK`.
pub open spec fn name_cmyk() -> Seq<u8> {
    seq![67u8, 77, 89, 75]
}

/// The name `CalCMYK`.
pub open spec fn name_cal_cmyk() -> Seq<u8> {
    seq![67u8, 97, 108, 67, 77, 89, 75]
}

/// The name `Pattern`.
pub open spec fn name_pattern() -> Seq<u8> {
    seq![80u8, 97, 116, 116, 101, 114, 110]
}

/// The name `ICCBased`.
pub open spec fn name_icc_based() -> Seq<u8> {
    seq![73u8, 67, 67, 66, 97, 115, 101, 100]
}

/// The name `CalGray`.
pub open spec fn name_cal_gray() -> Seq<u8> {
    seq![67u8, 97, 108, 71, 114, 97, 121]
}

/// The name `CalRGB`.
pub open spec fn name_cal_rgb() -> Seq<u8> {
    seq![67u8, 97, 108, 82, 71, 66]
}

/// The name `Lab`.
pub open spec fn name_lab() -> Seq<u8> {
    seq![76u8, 97, 98]
}

/// The name `Indexed`.
pub open spec fn name_indexed() -> Seq<u8> {
    seq![73u8, 110, 100, 101, 120, 101, 100]
}

/// The name `I`.
pub open spec fn name_i() -> Seq<u8> {
    seq![73u8]
}

/// The name `Separation`.
pub open spec fn name_separation() -> Seq<u8> {
    seq![83u8, 101, 112, 97, 114, 97, 116, 105, 111, 110]
}

/// The name `DeviceN`.
pub open spec fn name_device_n() -> Seq<u8> {
    seq![68u8, 101, 118, 105, 99, 101, 78]
}

/// Whether `name` holds the same bytes as `word`.
fn bytes_eq(name: &[u8], word: &[u8]) -> (r: bool)
    ensures
        r == (name@ == word@),
{
    if name.len() != word.len() {
        return false;
    }
    let mut i: usize = 0;
    while i < word.len()
        invariant
            name@.len() == word@.len(),
            i <= word@.len(),
            forall|j: int| 0 <= j < i ==> name@[j] == word@[j],
        decreases word.len() - i,
    {
        if name[i] != word[i] {
            return false;
        }
        i = i + 1;
    }
    assert(name@ == word@);
    true
}

/// The family a color space given by a bare name has.
pub open spec fn family_of_name(name: Seq<u8>) -> Option<ColorFamily> {
    if name == name_device_rgb() || name == name_rgb() {
        Some(ColorFamily::DeviceRgb)
    } else if name == name_device_gray() || name == name_g() {
        Some(ColorFamily::DeviceGray)
    } else if name == name_device_cmyk() || name == name_cmyk() || name == name_cal_cmyk() {
        Some(ColorFamily::DeviceCmyk)
    } else if name == name_pattern() {
        Some(ColorFamily::Pattern)
    } else {
        None
    }
}

/// The family a color space given by an array has, by the name the array
/// starts with. CalCMYK is taken as DeviceCMYK.
pub open spec fn family_of_array_head(name: Seq<u8>) -> Option<ColorFamily> {
    if name == name_icc_based() {
        Some(ColorFamily::IccBased)
    } else if name == name_cal_cmyk() {
        Some(ColorFamily::DeviceCmyk)
    } else if name == name_cal_gray() {
        Some(ColorFamily::CalGray)
    } else if name == name_cal_rgb() {
        Some(ColorFamily::CalRgb)
    } else if name == name_device_rgb() || name == name_rgb() {
        Some(ColorFamily::DeviceRgb)
    } else if name == name_device_gray() || name == name_g() {
        Some(ColorFamily::DeviceGray)
    } else if name == name_device_cmyk() || name == name_cmyk() {
        Some(ColorFamily::DeviceCmyk)
    } else if name == name_lab() {
        Some(ColorFamily::Lab)
    } else if name == name_indexed() || name == name_i() {
        Some(ColorFamily::Indexed)
    } else if name == name_separation() {
        Some(ColorFamily::Separation)
    } else if name == name_device_n() {
        Some(ColorFamily::DeviceN)
    } else if name == name_pattern() {
        Some(ColorFamily::Pattern)
    } else {
        None
    }
}

/// A color space named alone means the same as an array that starts with
/// that name.
pub proof fn lemma_name_and_array_agree(name: Seq<u8>)
    requires
        family_of_name(name) is Some,
    ensures
        family_of_array_head(name) == family_of_name(name),
{
}

/// The family of a color space given by a bare name: the device spaces under
/// their long and short names, CalCMYK as DeviceCMYK, and Pattern; `None`
/// for any other name.
pub fn family_from_name(name: &[u8]) -> (r: Option<ColorFamily>)
    ensures
        r == family_of_name(name@),
{
    let device_rgb: [u8; 9] = [68, 101, 118, 105, 99, 101, 82, 71, 66];
    assert(device_rgb@ == name_device_rgb());
    let rgb: [u8; 3] = [82, 71, 66];
    assert(rgb@ == name_rgb());
    let device_gray: [u8; 10] = [68, 101, 118, 105, 99, 101, 71, 114, 97, 121];
    assert(device_gray@ == name_device_gray());
    let g: [u8; 1] = [71];
    assert(g@ == name_g());
    let device_cmyk: [u8; 10] = [68, 101, 118, 105, 99, 101, 67, 77, 89, 75];
    assert(device_cmyk@ == name_device_cmyk());
    let cmyk: [u8; 4] = [67, 77, 89, 75];
    assert(cmyk@ == name_cmyk());
    let cal_cmyk: [u8; 7] = [67, 97, 108, 67, 77, 89, 75];
    assert(cal_cmyk@ == name_cal_cmyk());
    let pattern: [u8; 7] = [80, 97, 116, 116, 101, 114, 110];
    assert(pattern@ == name_pattern());
    if bytes_eq(name, &device_rgb) || bytes_eq(name, &rgb) {
        Some(ColorFamily::DeviceRgb)
    } else if bytes_eq(name, &device_gray) || bytes_eq(name, &g) {
        Some(ColorFamily::DeviceGray)
    } else if bytes_eq(name, &device_cmyk) || bytes_eq(name, &cmyk) || bytes_eq(name, &cal_cmyk) {
        Some(ColorFamily::DeviceCmyk)
    } else if bytes_eq(name, &pattern) {
        Some(ColorFamily::Pattern)
    } else {
        None
    }
}

/// The family of a color space given by an array, from the name the array
/// starts with; `None` for a name that is no color space family.
pub fn family_from_array_head(name: &[u8]) -> (r: Option<ColorFamily>)
    ensures
        r == family_of_array_head(name@),
{
    let device_rgb: [u8; 9] = [68, 101, 118, 105, 99, 101, 82, 71, 66];
    assert(device_rgb@ == name_device_rgb());
    let rgb: [u8; 3] = [82, 71, 66];
    assert(rgb@ == name_rgb());
    let device_gray: [u8; 10] = [68, 101, 118, 105, 99, 101, 71, 114, 97, 121];
    assert(device_gray@ == name_device_gray());
    let g: [u8; 1] = [71];
    assert(g@ == name_g());
    let device_cmyk: [u8; 10] = [68, 101, 118, 105, 99, 101, 67, 77, 89, 75];
    assert(device_cmyk@ == name_device_cmyk());
    let cmyk: [u8; 4] = [67, 77, 89, 75];
    assert(cmyk@ == name_cmyk());
    let cal_cmyk: [u8; 7] = [67, 97, 108, 67, 77, 89, 75];
    assert(cal_cmyk@ == name_cal_cmyk());
    let pattern: [u8; 7] = [80, 97, 116, 116, 101, 114, 110];
    assert(pattern@ == name_pattern());
    let icc_based: [u8; 8] = [73, 67, 67, 66, 97, 115, 101, 100];
    assert(icc_based@ == name_icc_based());
    let cal_gray: [u8; 7] = [67, 97, 108, 71, 114, 97, 121];
    assert(cal_gray@ == name_cal_gray());
    let cal_rgb: [u8; 6] = [67, 97, 108, 82, 71, 66];
    assert(cal_rgb@ == name_cal_rgb());
    let lab: [u8; 3] = [76, 97, 98];
    assert(lab@ == name_lab());
    let indexed: [u8; 7] = [73, 110, 100, 101, 120, 101, 100];
    assert(indexed@ == name_indexed());
    let i: [u8; 1] = [73];
    assert(i@ == name_i());
    let separation: [u8; 10] = [83, 101, 112, 97, 114, 97, 116, 105, 111, 110];
    assert(separation@ == name_separation());
    let device_n: [u8; 7] = [68, 101, 118, 105, 99, 101, 78];
    assert(device_n@ == name_device_n());
    if bytes_eq(name, &icc_based) {
        Some(ColorFamily::IccBased)
    } else if bytes_eq(name, &cal_cmyk) {
        Some(ColorFamily::DeviceCmyk)
    } else if bytes_eq(name, &cal_gray) {
        Some(ColorFamily::CalGray)
    } else if bytes_eq(name, &cal_rgb) {
        Some(ColorFamily::CalRgb)
    } else if bytes_eq(name, &device_rgb) || bytes_eq(name, &rgb) {
        Some(ColorFamily::DeviceRgb)
    } else if bytes_eq(name, &device_gray) || bytes_eq(name, &g) {
        Some(ColorFamily::DeviceGray)
    } else if bytes_eq(name, &device_cmyk) || bytes_eq(name, &cmyk) {
        Some(ColorFamily::DeviceCmyk)
    } else if bytes_eq(name, &lab) {
        Some(ColorFamily::Lab)
    } else if bytes_eq(name, &indexed) || bytes_eq(name, &i) {
        Some(ColorFamily::Indexed)
    } else if bytes_eq(name, &separation) {
        Some(ColorFamily::Separation)
    } else if bytes_eq(name, &device_n) {
        Some(ColorFamily::DeviceN)
    } else if bytes_eq(name, &pattern) {
        Some(ColorFamily::Pattern)
    } else {
        None
    }
}

/// The family an ICC-based color space ends up with: DeviceRGB for a usable
/// sRGB profile, the profile itself for any other usable one, else the
/// alternate space, else the device space with the profile's number of
/// components.
pub open spec fn spec_icc_family(profile: Option<bool>, alternate: Option<ColorFamily>, n: Option<u8>) -> Option<ColorFamily> {
    match profile {
        Some(is_srgb) => if is_srgb { Some(ColorFamily::DeviceRgb) } else { Some(ColorFamily::IccBased) },
        None => match alternate {
            Some(f) => Some(f),
            None => match n {
                Some(1u8) => Some(ColorFamily::DeviceGray),
                Some(3u8) => Some(ColorFamily::DeviceRgb),
                Some(4u8) => Some(ColorFamily::DeviceCmyk),
                _ => None,
            },
        },
    }
}

/// Resolve an ICC-based color space. `profile` says whether the profile
/// could be used and, if so, whether it is sRGB; `alternate` is the family of
/// the alternate space, where there is one that could be read; `n` is the
/// number of components the stream declares.
pub fn icc_family(profile: Option<bool>, alternate: Option<ColorFamily>, n: Option<u8>) -> (r: Option<ColorFamily>)
    ensures
        r == spec_icc_family(profile, alternate, n),
{
    match profile {
        Some(is_srgb) => if is_srgb {
            Some(ColorFamily::DeviceRgb)
        } else {
            Some(ColorFamily::IccBased)
        },
        None => match alternate {
            Some(f) => Some(f),
            None => match n {
                Some(1u8) => Some(ColorFamily::DeviceGray),
                Some(3u8) => Some(ColorFamily::DeviceRgb),
                Some(4u8) => Some(ColorFamily::DeviceCmyk),
                _ => None,
            },
        },
    }
}

/// The number of components of the families that fix it; `None` for the
/// families whose count depends on their parameters (ICC-based, Pattern,
/// DeviceN).
pub open spec fn spec_fixed_components(family: ColorFamily) -> Option<u8> {
    match family {
        ColorFamily::DeviceCmyk => Some(4u8),
        ColorFamily::DeviceGray => Some(1u8),
        ColorFamily::DeviceRgb => Some(3u8),
        ColorFamily::CalGray => Some(1u8),
        ColorFamily::CalRgb => Some(3u8),
        ColorFamily::Lab => Some(3u8),
        ColorFamily::Indexed => Some(1u8),
        ColorFamily::Separation => Some(1u8),
        _ => None,
    }
}

/// The number of components a color space of a family has, where the family
/// fixes it.
pub fn fixed_components(family: ColorFamily) -> (r: Option<u8>)
    ensures
        r == spec_fixed_components(family),
{
    match family {
        ColorFamily::DeviceCmyk => Some(4u8),
        ColorFamily::DeviceGray => Some(1u8),
        ColorFamily::DeviceRgb => Some(3u8),
        ColorFamily::CalGray => Some(1u8),
        ColorFamily::CalRgb => Some(3u8),
        ColorFamily::Lab => Some(3u8),
        ColorFamily::Indexed => Some(1u8),
        ColorFamily::Separation => Some(1u8),
        _ => None,
    }
}

/// Convert gray bytes to RGB: each gray byte fills the three bytes of one
/// output pixel, for as many pixels as both have; the rest of `output` is
/// left as it was.
pub fn convert_gray_u8(input: &[u8], output: &mut [u8])
    ensures
        final(output)@.len() == old(output)@.len(),
        forall|i: int|
            0 <= i < old(output)@.len() ==> #[trigger] final(output)@[i] == if i / 3 < input@.len() && i
                < old(output)@.len() / 3 * 3 {
                input@[i / 3]
            } else {
                old(output)@[i]
            },
{
    let ol = output.len();
    let n = if input.len() < ol / 3 { input.len() } else { ol / 3 };
    let mut p: usize = 0;
    while p < n
        invariant
            ol == old(output)@.len(),
            n == if input@.len() < old(output)@.len() / 3 { input@.len() } else { old(output)@.len() / 3 },
            p <= n,
            output@.len() == old(output)@.len(),
            forall|i: int| 0 <= i < 3 * p ==> #[trigger] output@[i] == input@[i / 3],
            forall|i: int| 3 * p <= i < output@.len() ==> #[trigger] output@[i] == old(output)@[i],
        decreases n - p,
    {
        let g = input[p];
        output[3 * p] = g;
        output[3 * p + 1] = g;
        output[3 * p + 2] = g;
        p = p + 1;
    }
}

/// Copy RGB bytes to the output, as many as both have; the rest of `output`
/// is left as it was.
pub fn convert_rgb_u8(input: &[u8], output: &mut [u8])
    ensures
        final(output)@.len() == old(output)@.len(),
        forall|i: int|
            0 <= i < old(output)@.len() ==> #[trigger] final(output)@[i] == if i < input@.len() {
                input@[i]
            } else {
                old(output)@[i]
            },
{
    let n = if input.len() < output.len() { input.len() } else { output.len() };
    let mut i: usize = 0;
    while i < n
        invariant
            n == if input@.len() < old(output)@.len() { input@.len() } else { old(output)@.len() },
            i <= n,
            output@.len() == old(output)@.len(),
            forall|j: int| 0 <= j < i ==> #[trigger] output@[j] == input@[j],
            forall|j: int| i <= j < output@.len() ==> #[trigger] output@[j] == old(output)@[j],
        decreases n - i,
    {
        output[i] = input[i];
        i = i + 1;
    }
}

/// The bytes `sRGB`.
pub open spec fn srgb_marker() -> Seq<u8> {
    seq![115u8, 82, 71, 66]
}

/// Whether an ICC profile names sRGB as its device model: bytes 52 to 55 of
/// the profile spell `sRGB`.
pub open spec fn spec_is_srgb_profile(profile: Seq<u8>) -> bool {
    profile.len() >= 56 && profile.subrange(52, 56) == srgb_marker()
}

/// Whether an ICC profile names sRGB as its device model.
pub fn is_srgb_profile(profile: &[u8]) -> (r: bool)
    ensures
        r == spec_is_srgb_profile(profile@),
{
    if profile.len() < 56 {
        return false;
    }
    let r = profile[52] == 115 && profile[53] == 82 && profile[54] == 71 && profile[55] == 66;
    proof {
        if r {
            assert(profile@.subrange(52, 56) == srgb_marker());
        } else {
            assert(profile@.subrange(52, 56) != srgb_marker()) by {
                if profile@.subrange(52, 56) == srgb_marker() {
                    assert(profile@.subrange(52, 56)[0] == profile@[52]);
                    assert(profile@.subrange(52, 56)[1] == profile@[53]);
                    assert(profile@.subrange(52, 56)[2] == profile@[54]);
                    assert(profile@.subrange(52, 56)[3] == profile@[55]);
                }
            }
        }
    }
    r
}

/// The palette of an indexed color space: `hival + 1` colors of the base
/// space, `num_components` bytes each.
pub struct IndexedPalette {
    entries: Vec<u8>,
    hival: u8,
    num_components: usize,
}

/// The highest index of a palette that declares `hival`: at most 255.
pub open spec fn palette_hival(hival: u32) -> u8 {
    if hival < 255 { hival as u8 } else { 255u8 }
}

impl IndexedPalette {
    pub closed spec fn spec_entries(&self) -> Seq<u8> {
        self.entries@
    }

    pub closed spec fn spec_hival(&self) -> u8 {
        self.hival
    }

    pub closed spec fn spec_num_components(&self) -> usize {
        self.num_components
    }

    pub closed spec fn wf(&self) -> bool {
        self.entries@.len() == (self.hival + 1) * self.num_components && self.num_components <= 255
    }

    /// The palette of `hival + 1` colors (at most 256) of `num_components`
    /// bytes in `data`; `None` where `data` holds fewer bytes. Bytes after the
    /// palette are ignored.
    pub fn new(data: &[u8], hival: u32, num_components: u8) -> (r: Option<IndexedPalette>)
        ensures
            ({
                let h = palette_hival(hival);
                let size = (h + 1) * num_components;
                &&& (r is Some <==> data@.len() >= size)
                &&& r is Some ==> {
                    &&& r.unwrap().wf()
                    &&& r.unwrap().spec_entries() == data@.subrange(0, size)
                    &&& r.unwrap().spec_hival() == h
                    &&& r.unwrap().spec_num_components() == num_components
                }
            }),
    {
        let h: u8 = if hival < 255 { hival as u8 } else { 255 };
        let nc = num_components as usize;
        proof {
            assert((h + 1) * nc <= 256 * 255) by (nonlinear_arith)
                requires h <= 255, nc <= 255;
        }
        let size = (h as usize + 1) * nc;
        if data.len() < size {
            return None;
        }
        let mut entries: Vec<u8> = Vec::new();
        let mut i: usize = 0;
        while i < size
            invariant
                size <= data@.len(),
                i <= size,
                entries@ == data@.subrange(0, i as int),
            decreases size - i,
        {
            entries.push(data[i]);
            i = i + 1;
            assert(entries@ == data@.subrange(0, i as int));
        }
        Some(IndexedPalette { entries, hival: h, num_components: nc })
    }

    /// The components of the palette colors the indices select, an index
    /// above the highest one selecting the last color.
    pub fn components(&self, indices: &[u8]) -> (r: Vec<u8>)
        requires
            self.wf(),
        ensures
            r@.len() == indices@.len() * self.spec_num_components(),
            forall|k: int|
                0 <= k < r@.len() ==> {
                    let nc = self.spec_num_components() as int;
                    let idx = indices@[k / nc];
                    let e = if idx <= self.spec_hival() { idx as int } else { self.spec_hival() as int };
                    #[trigger] r@[k] == self.spec_entries()[e * nc + k % nc]
                },
    {
        let nc = self.num_components;
        let mut out: Vec<u8> = Vec::new();
        let mut p: usize = 0;
        while p < indices.len()
            invariant
                self.wf(),
                nc == self.num_components,
                p <= indices@.len(),
                out@.len() == p * nc,
                forall|k: int|
                    0 <= k < out@.len() ==> {
                        let idx = indices@[k / (nc as int)];
                        let e = if idx <= self.hival { idx as int } else { self.hival as int };
                        #[trigger] out@[k] == self.entries@[e * nc + k % (nc as int)]
                    },
            decreases indices.len() - p,
        {
            let idx = indices[p];
            let e = if idx <= self.hival { idx } else { self.hival };
            let mut c: usize = 0;
            while c < nc
                invariant
                    self.wf(),
                    nc == self.num_components,
                    p < indices@.len(),
                    idx == indices@[p as int],
                    e == if idx <= self.hival { idx } else { self.hival },
                    c <= nc,
                    out@.len() == p * nc + c,
                    forall|k: int|
                        0 <= k < out@.len() ==> {
                            let idx = indices@[k / (nc as int)];
                            let e = if idx <= self.hival { idx as int } else { self.hival as int };
                            #[trigger] out@[k] == self.entries@[e * nc + k % (nc as int)]
                        },
                decreases nc - c,
            {
                proof {
                    assert(e * nc + c < (self.hival + 1) * nc) by (nonlinear_arith)
                        requires e <= self.hival, c < nc;
                    assert((self.hival + 1) * nc <= 256 * 255) by (nonlinear_arith)
                        requires self.hival <= 255, nc <= 255;
                    vstd::arithmetic::div_mod::lemma_fundamental_div_mod_converse(
                        (p * nc + c) as int,
                        nc as int,
                        p as int,
                        c as int,
                    );
                }
                out.push(self.entries[(e as usize) * nc + c]);
                c = c + 1;
            }
            proof {
                assert(out@.len() == (p + 1) * nc) by (nonlinear_arith)
                    requires out@.len() == p * nc + nc;
            }
            p = p + 1;
        }
        out
    }
}

/// The color space an object selects: its family and, for a pattern space,
/// the family of the space its colors are given in.
#[derive(Clone, Copy, Debug, PartialEq, Eq, Structural)]
pub struct ColorSpaceChoice {
    pub family: ColorFamily,
    pub pattern_base: Option<ColorFamily>,
}

/// The family an object names as a color space, without looking further: a
/// name by itself, or the name an array starts with.
pub open spec fn family_of_object(o: ObjectView) -> Option<ColorFamily> {
    match o {
        ObjectView::Name(n) => family_of_name(n),
        ObjectView::Array(items) => if items.len() > 0 && items[0] is Name {
            family_of_array_head(items[0]->Name_0)
        } else {
            None
        },
        _ => None,
    }
}

/// The base of a pattern space given by an array: after `/Pattern`, a name
/// is passed over and the object that follows gives the base; where there is
/// none, or it names no color space, the base is DeviceRGB.
pub open spec fn pattern_base_of(items: Seq<ObjectView>) -> ColorFamily {
    let k = if items.len() > 1 && items[1] is Name { 2int } else { 1int };
    if k < items.len() {
        match family_of_object(items[k]) {
            Some(f) => f,
            None => ColorFamily::DeviceRgb,
        }
    } else {
        ColorFamily::DeviceRgb
    }
}

/// The color space an object selects: a name selects the family it names,
/// a pattern over DeviceRGB for `Pattern`; an array selects the family its
/// first element, a name, stands for, with the base of a pattern read after
/// it; any other object selects none.
pub open spec fn spec_color_space_choice(o: ObjectView) -> Option<ColorSpaceChoice> {
    match o {
        ObjectView::Name(n) => match family_of_name(n) {
            Some(f) => Some(ColorSpaceChoice {
                family: f,
                pattern_base: if f == ColorFamily::Pattern { Some(ColorFamily::DeviceRgb) } else { None },
            }),
            None => None,
        },
        ObjectView::Array(items) => if items.len() > 0 && items[0] is Name {
            match family_of_array_head(items[0]->Name_0) {
                Some(f) => Some(ColorSpaceChoice {
                    family: f,
                    pattern_base: if f == ColorFamily::Pattern { Some(pattern_base_of(items)) } else { None },
                }),
                None => None,
            }
        } else {
            None
        },
        _ => None,
    }
}

/// The family an object names as a color space, without looking further.
fn object_family(o: &Object) -> (r: Option<ColorFamily>)
    ensures
        r == family_of_object(o.view()),
{
    match o {
        Object::Name(n) => family_from_name(n.0.as_slice()),
        Object::Array(a) => {
            proof {
                lemma_view_objects(a.0@);
            }
            if a.0.len() > 0 {
                match &a.0[0] {
                    Object::Name(n) => family_from_array_head(n.0.as_slice()),
                    _ => None,
                }
            } else {
                None
            }
        },
        _ => None,
    }
}

/// The color space an object selects (see `spec_color_space_choice`). The
/// parameters a family reads after its name are read elsewhere.
pub fn color_space_choice(o: &Object) -> (r: Option<ColorSpaceChoice>)
    ensures
        r == spec_color_space_choice(o.view()),
{
    match o {
        Object::Name(n) => match family_from_name(n.0.as_slice()) {
            Some(f) => Some(ColorSpaceChoice {
                family: f,
                pattern_base: if f == ColorFamily::Pattern { Some(ColorFamily::DeviceRgb) } else { None },
            }),
            None => None,
        },
        Object::Array(a) => {
            proof {
                lemma_view_objects(a.0@);
            }
            let items = &a.0;
            if items.len() == 0 {
                return None;
            }
            let head = match &items[0] {
                Object::Name(n) => n,
                _ => {
                    return None;
                },
            };
            let f = match family_from_array_head(head.0.as_slice()) {
                Some(f) => f,
                None => {
                    return None;
                },
            };
            if f != ColorFamily::Pattern {
                return Some(ColorSpaceChoice { family: f, pattern_base: None });
            }
            let k: usize = if items.len() > 1 && (match &items[1] {
                Object::Name(_) => true,
                _ => false,
            }) {
                2
            } else {
                1
            };
            let base = if k < items.len() {
                match object_family(&items[k]) {
                    Some(b) => b,
                    None => ColorFamily::DeviceRgb,
                }
            } else {
                ColorFamily::DeviceRgb
            };
            Some(ColorSpaceChoice { family: f, pattern_base: Some(base) })
        },
        _ => None,
    }
}

/// Whether a family is one of the three device spaces.
pub open spec fn is_device_family(f: ColorFamily) -> bool {
    f == ColorFamily::DeviceGray || f == ColorFamily::DeviceRgb || f == ColorFamily::DeviceCmyk
}

/// An ICC-based space whose profile cannot be used and that has no alternate
/// falls back to the device space with as many components as the stream
/// declares; there is one for 1, 3 and 4 components, and none otherwise.
pub proof fn lemma_icc_fallback_keeps_components(n: u8)
    ensures
        spec_icc_family(None, None, Some(n)) is Some <==> n == 1 || n == 3 || n == 4,
        spec_icc_family(None, None, Some(n)) is Some ==> {
            let f = spec_icc_family(None, None, Some(n)).unwrap();
            is_device_family(f) && spec_fixed_components(f) == Some(n)
        },
{
}

} // verus!
