//! The sample table of a sampled (Type 0) function.
use vstd::prelude::*;
use crate::bits::{bits_value, lemma_bits_value_bound, lemma_bits_value_split, lemma_byte_bits, pow2, BitReader};

verus! {

/// The sample sizes a sampled function may have.
pub open spec fn valid_bits_per_sample(bits: u8) -> bool {
    bits == 1 || bits == 2 || bits == 4 || bits == 8 || bits == 16 || bits == 24 || bits == 32
}

/// Whether `bits` is a sample size a sampled function may have.
pub fn is_valid_bits_per_sample(bits: u8) -> (r: bool)
    ensures
        r == valid_bits_per_sample(bits),
{
    bits == 1 || bits == 2 || bits == 4 || bits == 8 || bits == 16 || bits == 24 || bits == 32
}

/// Every whole sample of `bits` bits in `data`, most significant bit first.
pub open spec fn samples_of(data: Seq<u8>, bits: nat) -> Seq<u32> {
    Seq::new(8 * data.len() / bits, |k: int| bits_value(data, k * bits, bits) as u32)
}

/// Read every whole sample of `bits` bits from `data`.
pub fn read_samples(data: &[u8], bits: u8) -> (r: Vec<u32>)
    requires
        1 <= bits <= 32,
    ensures
        r@ == samples_of(data@, bits as nat),
{
    let mut reader = BitReader::new(data);
    let mut out: Vec<u32> = Vec::new();
    let ghost total = 8 * data@.len();
    let ghost b = bits as nat;
    proof {
        assert(out@.len() == 0);
        assert(out@.len() * b == 0) by (nonlinear_arith)
            requires out@.len() == 0;
    }
    loop
        invariant
            1 <= bits <= 32,
            b == bits,
            total == 8 * data@.len(),
            reader.wf(),
            reader.bytes() == data@,
            reader.pos() == out@.len() * b,
            out@.len() * b <= total,
            forall|k: int| 0 <= k < out@.len() ==> #[trigger] out@[k] == bits_value(data@, k * b, b) as u32,
        ensures
            reader.pos() + b > total,
            out@.len() * b <= total,
            forall|k: int| 0 <= k < out@.len() ==> #[trigger] out@[k] == bits_value(data@, k * b, b) as u32,
        decreases total - out@.len() * b,
    {
        let ghost p = reader.pos();
        match reader.read(bits) {
            Some(v) => {
                proof {
                    assert((out@.len() + 1) * b == out@.len() * b + b) by (nonlinear_arith);
                }
                out.push(v);
            },
            None => {
                break;
            },
        }
    }
    proof {
        let n = out@.len();
        assert(n == total / b) by (nonlinear_arith)
            requires n * b <= total, n * b + b > total, b >= 1;
        assert(out@ == samples_of(data@, b));
    }
    out
}

/// The product of the first `n` sizes.
pub open spec fn size_product(sizes: Seq<u32>, n: nat) -> nat
    decreases n,
{
    if n == 0 {
        1
    } else {
        size_product(sizes, (n - 1) as nat) * (sizes[n - 1] as nat)
    }
}

/// The sample table of a sampled function and the stride of each input
/// dimension in it.
pub struct SampleTable {
    pub strides: Vec<usize>,
    pub table: Vec<u32>,
}

/// Whether some stride of a table with `outputs` values per sample and the
/// given sizes overflows `usize`.
pub open spec fn strides_overflow(sizes: Seq<u32>, outputs: nat) -> bool {
    exists|i: nat| 0 < i <= sizes.len() && #[trigger] size_product(sizes, i) * outputs > usize::MAX
}

/// The strides of the input dimensions of a table with `outputs` values per
/// sample, and the number of values it holds; `None` when one of them does not
/// fit in `usize`.
pub fn sample_strides(sizes: &[u32], outputs: usize) -> (r: Option<(Vec<usize>, usize)>)
    ensures
        r is None <==> strides_overflow(sizes@, outputs as nat),
        r is Some ==> {
            let (strides, total) = r.unwrap();
            &&& strides@.len() == sizes@.len()
            &&& forall|i: int| 0 <= i < sizes@.len() ==> #[trigger] strides@[i] == size_product(sizes@, i as nat) * outputs
            &&& total == size_product(sizes@, sizes@.len()) * outputs
        },
{
    let mut strides: Vec<usize> = Vec::new();
    let mut stride: usize = outputs;
    let mut i: usize = 0;
    proof {
        assert(size_product(sizes@, 0) == 1);
    }
    while i < sizes.len()
        invariant
            i <= sizes@.len(),
            strides@.len() == i,
            stride == size_product(sizes@, i as nat) * outputs,
            forall|j: int| 0 <= j < i ==> #[trigger] strides@[j] == size_product(sizes@, j as nat) * outputs,
            forall|j: nat| 0 < j <= i ==> #[trigger] size_product(sizes@, j) * outputs <= usize::MAX,
        decreases sizes.len() - i,
    {
        strides.push(stride);
        let size = sizes[i] as usize;
        proof {
            assert(size_product(sizes@, (i + 1) as nat) * outputs == stride * size) by (nonlinear_arith)
                requires
                    size_product(sizes@, (i + 1) as nat) == size_product(sizes@, i as nat) * size,
                    stride == size_product(sizes@, i as nat) * outputs,
            {
            }
        }
        match stride.checked_mul(size) {
            Some(s) => {
                stride = s;
            },
            None => {
                proof {
                    assert(size_product(sizes@, (i + 1) as nat) * outputs > usize::MAX);
                }
                return None;
            },
        }
        i = i + 1;
    }
    proof {
        if strides_overflow(sizes@, outputs as nat) {
            let j = choose|j: nat| 0 < j <= sizes@.len() && #[trigger] size_product(sizes@, j) * outputs > usize::MAX;
            assert(size_product(sizes@, j) * outputs <= usize::MAX);
        }
    }
    Some((strides, stride))
}

/// Build the sample table of a sampled function from its stream data: the
/// samples of `bits_per_sample` bits, cut to the number its `sizes` and
/// `outputs` values per sample call for. `None` when the sample size is not
/// one a sampled function may have, when there are no outputs, or when the
/// table's size overflows `usize`.
pub fn sample_table(data: &[u8], bits_per_sample: u8, sizes: &[u32], outputs: usize) -> (r: Option<SampleTable>)
    ensures
        r is None <==> !valid_bits_per_sample(bits_per_sample) || outputs == 0 || strides_overflow(
            sizes@,
            outputs as nat,
        ),
        r is Some ==> {
            let t = r.unwrap();
            let samples = samples_of(data@, bits_per_sample as nat);
            let total = size_product(sizes@, sizes@.len()) * outputs;
            &&& t.strides@.len() == sizes@.len()
            &&& forall|i: int| 0 <= i < sizes@.len() ==> #[trigger] t.strides@[i] == size_product(sizes@, i as nat) * outputs
            &&& t.table@ == if samples.len() <= total { samples } else { samples.subrange(0, total as int) }
        },
{
    if !is_valid_bits_per_sample(bits_per_sample) {
        return None;
    }
    if outputs == 0 {
        return None;
    }
    let mut table = read_samples(data, bits_per_sample);
    let (strides, total) = sample_strides(sizes, outputs)?;
    table.truncate(total);
    Some(SampleTable { strides, table })
}

/// The sample sizes a sampled function takes are those of at most 32 bits
/// that either fit a whole number of times into a byte or are a whole number
/// of bytes: 1, 2, 4 and 8, and 16, 24 and 32.
pub proof fn lemma_valid_sample_sizes(bits: u8)
    ensures
        valid_bits_per_sample(bits) <==> 1 <= bits <= 32 && (8u8 % bits == 0 || bits % 8u8 == 0),
{
    if 1 <= bits <= 32 {
        assert((8u8 % bits == 0 || bits % 8u8 == 0) <==> (bits == 1 || bits == 2 || bits == 4 || bits == 8
            || bits == 16 || bits == 24 || bits == 32)) by (bit_vector)
            requires
                1 <= bits <= 32,
        ;
    }
}


/// Samples of 8 bits are the bytes themselves, and samples of 16 bits are
/// pairs of bytes, the first one the more significant.
pub proof fn lemma_byte_sized_samples(data: Seq<u8>)
    ensures
        samples_of(data, 8).len() == data.len(),
        forall|k: int| 0 <= k < data.len() ==> #[trigger] samples_of(data, 8)[k] == data[k],
        samples_of(data, 16).len() == data.len() / 2,
        forall|k: int|
            0 <= k < data.len() / 2 ==> #[trigger] samples_of(data, 16)[k] == data[2 * k] * 256 + data[2 * k
                + 1],
{
    assert(8 * data.len() / 8 == data.len()) by (nonlinear_arith);
    assert(8 * data.len() / 16 == data.len() / 2) by (nonlinear_arith);
    assert forall|k: int| 0 <= k < data.len() implies #[trigger] samples_of(data, 8)[k] == data[k] by {
        lemma_byte_bits(data, k);
        assert(k * 8 == 8 * k);
    }
    assert forall|k: int| 0 <= k < data.len() / 2 implies #[trigger] samples_of(data, 16)[k] == data[2 * k] * 256
        + data[2 * k + 1] by {
        assert(2 * k + 1 < data.len()) by (nonlinear_arith)
            requires
                0 <= k < data.len() / 2,
        {
        }
        lemma_bits_value_split(data, k * 16, 8, 8);
        lemma_byte_bits(data, 2 * k);
        lemma_byte_bits(data, 2 * k + 1);
        assert(k * 16 == 8 * (2 * k) && k * 16 + 8 == 8 * (2 * k + 1));
        reveal_with_fuel(pow2, 9);
        assert(pow2(8) == 256);
        lemma_bits_value_bound(data, k * 16, 16);
        reveal_with_fuel(pow2, 17);
    }
}

} // verus!
