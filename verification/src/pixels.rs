use vstd::prelude::*;

verus! {

/// Integer approximation of `value / 255` used for premultiplication.
pub open spec fn spec_div_255(value: int) -> int {
    (value + 255) / 256
}

/// Divide by 255 with the rounding used for alpha premultiplication.
pub fn div_255(value: u16) -> (r: u16)
    requires
        value <= u16::MAX - 255,
    ensures
        r == spec_div_255(value as int),
{
    assert(((value + 255) as u16) >> 8u16 == ((value + 255) as u16) / 256) by (bit_vector);
    (value + 255) >> 8
}

/// Premultiplied RGBA: in each whole pixel of four bytes, the three color
/// bytes scaled by the alpha byte; the alpha bytes, and bytes after the last
/// whole pixel, as they were.
pub open spec fn premultiplied(data: Seq<u8>) -> Seq<u8> {
    Seq::new(
        data.len(),
        |i: int|
            if i < data.len() / 4 * 4 && i % 4 != 3 {
                spec_div_255(data[i] * data[i - i % 4 + 3]) as u8
            } else {
                data[i]
            },
    )
}

/// Multiply the color bytes of each whole RGBA pixel by its alpha byte.
pub fn premultiply_rgba(data: &mut [u8])
    ensures
        final(data)@ == premultiplied(old(data)@),
{
    let len = data.len();
    let n = len / 4;
    let mut p: usize = 0;
    while p < n
        invariant
            len == data@.len(),
            len == old(data)@.len(),
            n == len / 4,
            p <= n,
            forall|i: int| 0 <= i < 4 * p ==> #[trigger] data@[i] == premultiplied(old(data)@)[i],
            forall|i: int| 4 * p <= i < len ==> #[trigger] data@[i] == old(data)@[i],
        decreases n - p,
    {
        let base = 4 * p;
        let alpha = data[base + 3] as u16;
        proof {
            assert(alpha <= 255);
        }
        let r = data[base] as u16;
        let g = data[base + 1] as u16;
        let b = data[base + 2] as u16;
        proof {
            assert(r * alpha <= 255 * 255) by (nonlinear_arith)
                requires r <= 255, alpha <= 255;
            assert(g * alpha <= 255 * 255) by (nonlinear_arith)
                requires g <= 255, alpha <= 255;
            assert(b * alpha <= 255 * 255) by (nonlinear_arith)
                requires b <= 255, alpha <= 255;
        }
        let r2 = div_255(r * alpha);
        let g2 = div_255(g * alpha);
        let b2 = div_255(b * alpha);
        data[base] = r2 as u8;
        data[base + 1] = g2 as u8;
        data[base + 2] = b2 as u8;
        proof {
            let ghost pre = premultiplied(old(data)@);
            assert forall|i: int| 0 <= i < 4 * (p + 1) implies #[trigger] data@[i] == pre[i] by {
                if i >= 4 * p {
                    assert(i < len / 4 * 4);
                    assert(i - i % 4 == 4 * p);
                }
            }
        }
        p = p + 1;
    }
    proof {
        assert forall|i: int| 0 <= i < len implies #[trigger] data@[i] == premultiplied(old(data)@)[i] by {
            if i >= 4 * n {
                assert(!(i < len / 4 * 4));
            }
        }
        assert(data@ == premultiplied(old(data)@));
    }
}

/// Premultiplying keeps an opaque pixel as it is, makes a transparent pixel
/// black, and never lets a color byte exceed its alpha.
pub proof fn lemma_premultiplied_within_alpha(data: Seq<u8>, i: int)
    requires
        0 <= i < data.len() / 4 * 4,
        i % 4 != 3,
    ensures
        premultiplied(data)[i] <= data[i - i % 4 + 3],
        data[i - i % 4 + 3] == 255 ==> premultiplied(data)[i] == data[i],
        data[i - i % 4 + 3] == 0 ==> premultiplied(data)[i] == 0,
        premultiplied(data)[i - i % 4 + 3] == data[i - i % 4 + 3],
{
    let c = data[i] as int;
    let a = data[i - i % 4 + 3] as int;
    assert(0 <= c * a <= c * 255) by (nonlinear_arith)
        requires 0 <= c <= 255, 0 <= a <= 255;
    assert((c * a + 255) / 256 <= a) by (nonlinear_arith)
        requires 0 <= c <= 255, 0 <= a <= 255;
    assert(a == 255 ==> (c * a + 255) / 256 == c) by (nonlinear_arith)
        requires 0 <= c <= 255;
}

} // verus!
