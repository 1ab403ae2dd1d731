//! Reading the entries of image dictionaries, with the abbreviations
//! inline images use.
use vstd::prelude::*;
use crate::object::{Dict, Object, ObjectView, view_entries, lemma_view_entries};
use crate::number::Number;
use crate::image::ImageKind;

verus! {

/// The key `IM`.
pub open spec fn key_im() -> Seq<u8> {
    seq![73u8, 77]
}

/// The key `ImageMask`.
pub open spec fn key_image_mask() -> Seq<u8> {
    seq![73u8, 109, 97, 103, 101, 77, 97, 115, 107]
}

/// The key `I`.
pub open spec fn key_i() -> Seq<u8> {
    seq![73u8]
}

/// The key `Interpolate`.
pub open spec fn key_interpolate() -> Seq<u8> {
    seq![73u8, 110, 116, 101, 114, 112, 111, 108, 97, 116, 101]
}

/// The key `W`.
pub open spec fn key_w() -> Seq<u8> {
    seq![87u8]
}

/// The key `Width`.
pub open spec fn key_width() -> Seq<u8> {
    seq![87u8, 105, 100, 116, 104]
}

/// The key `H`.
pub open spec fn key_h() -> Seq<u8> {
    seq![72u8]
}

/// The key `Height`.
pub open spec fn key_height() -> Seq<u8> {
    seq![72u8, 101, 105, 103, 104, 116]
}

/// The key `CS`.
pub open spec fn key_cs() -> Seq<u8> {
    seq![67u8, 83]
}

/// The key `ColorSpace`.
pub open spec fn key_color_space() -> Seq<u8> {
    seq![67u8, 111, 108, 111, 114, 83, 112, 97, 99, 101]
}

/// The key `BPC`.
pub open spec fn key_bpc() -> Seq<u8> {
    seq![66u8, 80, 67]
}

/// The key `BitsPerComponent`.
pub open spec fn key_bits_per_component() -> Seq<u8> {
    seq![66u8, 105, 116, 115, 80, 101, 114, 67, 111, 109, 112, 111, 110, 101, 110, 116]
}

/// The value of the first entry with `key` from entry `i` on.
pub open spec fn lookup_from(entries: Seq<(Seq<u8>, ObjectView)>, key: Seq<u8>, i: int) -> Option<ObjectView>
    decreases entries.len() - i,
{
    if i < 0 || i >= entries.len() {
        None
    } else if entries[i].0 == key {
        Some(entries[i].1)
    } else {
        lookup_from(entries, key, i + 1)
    }
}

/// The value of the first entry with `key`.
pub open spec fn lookup(entries: Seq<(Seq<u8>, ObjectView)>, key: Seq<u8>) -> Option<ObjectView> {
    lookup_from(entries, key, 0)
}

/// The first of two optional values that is there.
pub open spec fn or_else<T>(a: Option<T>, b: Option<T>) -> Option<T> {
    match a {
        Some(x) => Some(x),
        None => b,
    }
}

/// A value read as a boolean.
pub open spec fn as_bool(v: Option<ObjectView>) -> Option<bool> {
    match v {
        Some(ObjectView::Boolean(b)) => Some(b),
        _ => None,
    }
}

/// A value read as an integer in `0..=max`.
pub open spec fn as_uint(v: Option<ObjectView>, max: int) -> Option<int> {
    match v {
        Some(ObjectView::Number(n)) => if n.is_integer() && 0 <= n.int_value() <= max {
            Some(n.int_value())
        } else {
            None
        },
        _ => None,
    }
}

impl Dict {
    /// The value of the first entry with `key`.
    pub fn get(&self, key: &[u8]) -> (r: Option<&Object>)
        ensures
            match lookup(self.view(), key@) {
                None => r is None,
                Some(v) => r is Some && r.unwrap().view() == v,
            },
    {
        proof {
            lemma_view_entries(self.0@);
        }
        let mut i: usize = 0;
        while i < self.0.len()
            invariant
                i <= self.0@.len(),
                self.view() == view_entries(self.0@),
                self.view().len() == self.0@.len(),
                forall|j: int| 0 <= j < self.0@.len() ==> #[trigger] self.view()[j] == (self.0@[j].0.0@, self.0@[j].1.view()),
                lookup(self.view(), key@) == lookup_from(self.view(), key@, i as int),
            decreases self.0.len() - i,
        {
            let entry = &self.0[i];
            if bytes_equal(entry.0.0.as_slice(), key) {
                return Some(&entry.1);
            }
            i = i + 1;
        }
        None
    }

    /// The boolean value of the first entry with `key`, if it is one.
    pub fn get_bool(&self, key: &[u8]) -> (r: Option<bool>)
        ensures
            r == as_bool(lookup(self.view(), key@)),
    {
        match self.get(key) {
            Some(Object::Boolean(b)) => Some(*b),
            _ => None,
        }
    }

    /// The value of the first entry with `key`, if it is an integer in
    /// `0..=u32::MAX`.
    pub fn get_u32(&self, key: &[u8]) -> (r: Option<u32>)
        ensures
            match as_uint(lookup(self.view(), key@), u32::MAX as int) {
                Some(v) => r == Some(v as u32),
                None => r is None,
            },
    {
        match self.get(key) {
            Some(Object::Number(n)) => {
                let (is_int, v, _) = n.to_parts();
                if is_int && 0 <= v && v <= 0xffff_ffff {
                    Some(v as u32)
                } else {
                    None
                }
            },
            _ => None,
        }
    }

    /// The value of the first entry with `key`, if it is an integer in
    /// `0..=255`.
    pub fn get_u8(&self, key: &[u8]) -> (r: Option<u8>)
        ensures
            match as_uint(lookup(self.view(), key@), 255) {
                Some(v) => r == Some(v as u8),
                None => r is None,
            },
    {
        match self.get(key) {
            Some(Object::Number(n)) => {
                let (is_int, v, _) = n.to_parts();
                if is_int && 0 <= v && v <= 255 {
                    Some(v as u8)
                } else {
                    None
                }
            },
            _ => None,
        }
    }
}

/// Whether two byte strings are equal.
fn bytes_equal(a: &[u8], b: &[u8]) -> (r: bool)
    ensures
        r == (a@ == b@),
{
    if a.len() != b.len() {
        return false;
    }
    let mut i: usize = 0;
    while i < a.len()
        invariant
            a@.len() == b@.len(),
            i <= a@.len(),
            forall|j: int| 0 <= j < i ==> a@[j] == b@[j],
        decreases a.len() - i,
    {
        if a[i] != b[i] {
            return false;
        }
        i = i + 1;
    }
    assert(a@ == b@);
    true
}

/// What an image dictionary says of the image: its size, whether it asks to
/// be interpolated, and what it is used as.
#[derive(Clone, Copy, Debug, PartialEq, Eq, Structural)]
pub struct ImageProps {
    pub width: u32,
    pub height: u32,
    pub interpolate: bool,
    pub kind: ImageKind,
}

/// Whether the dictionary marks the image as a stencil mask.
pub open spec fn spec_is_stencil(d: Seq<(Seq<u8>, ObjectView)>) -> bool {
    or_else(as_bool(lookup(d, key_im())), as_bool(lookup(d, key_image_mask()))) == Some(true)
}

/// The image properties a dictionary gives an image used as `kind`: a
/// stencil mask where `IM` or `ImageMask` says so, interpolated where `I` or
/// `Interpolate` says so, and the size from `W` or `Width` and `H` or
/// `Height`; the short key wins where both are there. `None` without a width
/// or height that is a positive integer.
pub open spec fn spec_image_props(d: Seq<(Seq<u8>, ObjectView)>, kind: ImageKind) -> Option<ImageProps> {
    let w = or_else(as_uint(lookup(d, key_w()), u32::MAX as int), as_uint(lookup(d, key_width()), u32::MAX as int));
    let h = or_else(as_uint(lookup(d, key_h()), u32::MAX as int), as_uint(lookup(d, key_height()), u32::MAX as int));
    let interpolate = or_else(as_bool(lookup(d, key_i())), as_bool(lookup(d, key_interpolate()))) == Some(true);
    if w is Some && h is Some && w.unwrap() != 0 && h.unwrap() != 0 {
        Some(ImageProps {
            width: w.unwrap() as u32,
            height: h.unwrap() as u32,
            interpolate,
            kind: if spec_is_stencil(d) { ImageKind::StencilMask } else { kind },
        })
    } else {
        None
    }
}

/// Read the properties of an image used as `kind` from its dictionary.
pub fn image_props(dict: &Dict, kind: ImageKind) -> (r: Option<ImageProps>)
    ensures
        r == spec_image_props(dict.view(), kind),
{

    let im: [u8; 2] = [73, 77];
    assert(im@ == key_im());
    let image_mask: [u8; 9] = [73, 109, 97, 103, 101, 77, 97, 115, 107];
    assert(image_mask@ == key_image_mask());
    let i: [u8; 1] = [73];
    assert(i@ == key_i());
    let interpolate: [u8; 11] = [73, 110, 116, 101, 114, 112, 111, 108, 97, 116, 101];
    assert(interpolate@ == key_interpolate());
    let w: [u8; 1] = [87];
    assert(w@ == key_w());
    let width: [u8; 5] = [87, 105, 100, 116, 104];
    assert(width@ == key_width());
    let h: [u8; 1] = [72];
    assert(h@ == key_h());
    let height: [u8; 6] = [72, 101, 105, 103, 104, 116];
    assert(height@ == key_height());

    let stencil = match dict.get_bool(&im) {
        Some(b) => b,
        None => match dict.get_bool(&image_mask) {
            Some(b) => b,
            None => false,
        },
    };
    let kind = if stencil { ImageKind::StencilMask } else { kind };
    let interpolate = match dict.get_bool(&i) {
        Some(b) => b,
        None => match dict.get_bool(&interpolate) {
            Some(b) => b,
            None => false,
        },
    };
    let w = match dict.get_u32(&w) {
        Some(v) => v,
        None => dict.get_u32(&width)?,
    };
    let h = match dict.get_u32(&h) {
        Some(v) => v,
        None => dict.get_u32(&height)?,
    };
    if w == 0 || h == 0 {
        return None;
    }
    Some(ImageProps { width: w, height: h, interpolate, kind })
}

/// The color space entry of an image dictionary: `CS`, else `ColorSpace`.
pub fn color_space_entry(dict: &Dict) -> (r: Option<&Object>)
    ensures
        match or_else(lookup(dict.view(), key_cs()), lookup(dict.view(), key_color_space())) {
            None => r is None,
            Some(v) => r is Some && r.unwrap().view() == v,
        },
{

    let cs: [u8; 2] = [67, 83];
    assert(cs@ == key_cs());
    let color_space: [u8; 10] = [67, 111, 108, 111, 114, 83, 112, 97, 99, 101];
    assert(color_space@ == key_color_space());

    match dict.get(&cs) {
        Some(o) => Some(o),
        None => dict.get(&color_space),
    }
}

/// The bits per component an image dictionary declares: `BPC`, else
/// `BitsPerComponent`, where it is an integer in `0..=255`.
pub fn declared_bits_per_component(dict: &Dict) -> (r: Option<u8>)
    ensures
        match or_else(as_uint(lookup(dict.view(), key_bpc()), 255), as_uint(lookup(dict.view(), key_bits_per_component()), 255)) {
            Some(v) => r == Some(v as u8),
            None => r is None,
        },
{

    let bpc: [u8; 3] = [66, 80, 67];
    assert(bpc@ == key_bpc());
    let bits_per_component: [u8; 16] = [66, 105, 116, 115, 80, 101, 114, 67, 111, 109, 112, 111, 110, 101, 110, 116];
    assert(bits_per_component@ == key_bits_per_component());

    match dict.get_u8(&bpc) {
        Some(v) => Some(v),
        None => dict.get_u8(&bits_per_component),
    }
}

/// The bits per component an image is decoded with: what its data says,
/// else what its dictionary declares, else one for a stencil mask and eight
/// for any other image.
pub fn resolve_bits_per_component(from_data: Option<u8>, from_dict: Option<u8>, stencil: bool) -> (r: u8)
    ensures
        r == match from_data {
            Some(b) => b,
            None => match from_dict {
                Some(b) => b,
                None => if stencil { 1u8 } else { 8u8 },
            },
        },
{
    match from_data {
        Some(b) => b,
        None => match from_dict {
            Some(b) => b,
            None => if stencil { 1 } else { 8 },
        },
    }
}

/// The key `SMaskInData`.
pub open spec fn key_smask_in_data() -> Seq<u8> {
    seq![83u8, 77, 97, 115, 107, 73, 110, 68, 97, 116, 97]
}

/// The key `SMask`.
pub open spec fn key_smask() -> Seq<u8> {
    seq![83u8, 77, 97, 115, 107]
}

/// The key `Mask`.
pub open spec fn key_mask() -> Seq<u8> {
    seq![77u8, 97, 115, 107]
}

impl Dict {
    /// Whether an entry has `key`.
    pub fn contains_key(&self, key: &[u8]) -> (r: bool)
        ensures
            r == lookup(self.view(), key@) is Some,
    {
        self.get(key).is_some()
    }
}

/// Whether an image dictionary gives the image an alpha of its own: a soft
/// mask in its data, a soft mask, or a mask.
pub fn has_mask(dict: &Dict) -> (r: bool)
    ensures
        r == (lookup(dict.view(), key_smask_in_data()) is Some || lookup(dict.view(), key_smask()) is Some
            || lookup(dict.view(), key_mask()) is Some),
{
    let smask_in_data: [u8; 11] = [83, 77, 97, 115, 107, 73, 110, 68, 97, 116, 97];
    assert(smask_in_data@ == key_smask_in_data());
    let smask: [u8; 5] = [83, 77, 97, 115, 107];
    assert(smask@ == key_smask());
    let mask: [u8; 4] = [77, 97, 115, 107];
    assert(mask@ == key_mask());
    dict.contains_key(&smask_in_data) || dict.contains_key(&smask) || dict.contains_key(&mask)
}

} // verus!
