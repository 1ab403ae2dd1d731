//! Transfer functions, applied as tables of 256 samples.
use vstd::prelude::*;
use vstd::arithmetic::div_mod::lemma_fundamental_div_mod_converse;

verus! {

/// A transfer function, kept as its 256 samples: the output for each input
/// byte.
#[derive(Clone, Copy, Debug)]
pub struct TransferFunction {
    samples: [u8; 256],
}

impl TransferFunction {
    /// The output for each input byte.
    pub closed spec fn samples(&self) -> Seq<u8> {
        self.samples@
    }

    /// A transfer function with the given samples.
    pub fn new(samples: [u8; 256]) -> (r: TransferFunction)
        ensures
            r.samples() == samples@,
    {
        TransferFunction { samples }
    }

    /// A clone of a transfer function has its samples, so it maps every byte
    /// as the original does.
    pub proof fn lemma_clone_maps_alike(self, c: TransferFunction)
        requires
            cloned::<TransferFunction>(self, c),
        ensures
            c.samples() == self.samples(),
    {
    }

    /// Apply the transfer function to a buffer of values.
    pub fn apply_to(&self, values: &mut [u8])
        ensures
            final(values)@.len() == old(values)@.len(),
            forall|i: int|
                0 <= i < old(values)@.len() ==> #[trigger] final(values)@[i] == self.samples()[old(
                    values,
                )@[i] as int],
    {
        self.apply_to_stride(values, 1);
    }

    /// Apply the transfer function to every `stride`-th value, from the first.
    pub fn apply_to_stride(&self, values: &mut [u8], stride: usize)
        requires
            stride > 0,
        ensures
            final(values)@.len() == old(values)@.len(),
            forall|i: int|
                0 <= i < old(values)@.len() ==> #[trigger] final(values)@[i] == if i % (stride as int)
                    == 0 {
                    self.samples()[old(values)@[i] as int]
                } else {
                    old(values)@[i]
                },
    {
        proof {
            assert(self.samples@.len() == 256);
        }
        let mut i: usize = 0;
        let ghost mut k: int = 0;
        while i < values.len()
            invariant
                stride > 0,
                i == k * stride || i == values.len(),
                0 <= k,
                values@.len() == old(values)@.len(),
                self.samples@.len() == 256,
                forall|j: int|
                    0 <= j < i && j < values@.len() ==> #[trigger] values@[j] == if j % (stride as int) == 0 {
                        self.samples@[old(values)@[j] as int]
                    } else {
                        old(values)@[j]
                    },
                forall|j: int| i <= j < values@.len() ==> #[trigger] values@[j] == old(values)@[j],
            decreases values.len() - i,
        {
            let v = values[i];
            values[i] = self.samples[v as usize];
            let ghost ii = i as int;
            let ghost k0 = k;
            proof {
                lemma_fundamental_div_mod_converse(ii, stride as int, k, 0);
            }
            if values.len() - i <= stride {
                i = values.len();
            } else {
                i = i + stride;
                proof {
                    k = k + 1;
                    assert(i == k * stride) by (nonlinear_arith)
                        requires
                            i == ii + stride,
                            ii == (k - 1) * stride,
                    {
                    }
                }
            }
            proof {
                assert forall|j: int| 0 <= j < i && j < values@.len() implies #[trigger] values@[j] == if j
                    % (stride as int) == 0 {
                    self.samples@[old(values)@[j] as int]
                } else {
                    old(values)@[j]
                } by {
                    if j > ii {
                        lemma_fundamental_div_mod_converse(j, stride as int, k0, j - ii);
                    }
                }
            }
        }
    }
}

} // verus!
