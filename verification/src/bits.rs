//! Reading numbers of a few bits each from bytes, most significant bit first.
use vstd::prelude::*;

verus! {

/// Bit `i` of `data`, counting from the most significant bit of the first
/// byte.
pub open spec fn bit_at(data: Seq<u8>, i: int) -> nat {
    ((data[i / 8] >> ((7 - i % 8) as u8)) & 1u8) as nat
}

/// The number that the `n` bits of `data` from bit `pos` on spell.
pub open spec fn bits_value(data: Seq<u8>, pos: int, n: nat) -> nat
    decreases n,
{
    if n == 0 {
        0
    } else {
        2 * bits_value(data, pos, (n - 1) as nat) + bit_at(data, pos + n - 1)
    }
}

pub open spec fn pow2(n: nat) -> nat
    decreases n,
{
    if n == 0 {
        1
    } else {
        2 * pow2((n - 1) as nat)
    }
}

pub proof fn lemma_bit_at_le_1(data: Seq<u8>, i: int)
    ensures
        bit_at(data, i) <= 1,
{
    let b = data[i / 8];
    let sh = (7 - i % 8) as u8;
    assert((b >> sh) & 1u8 <= 1u8) by (bit_vector);
}

pub proof fn lemma_bits_value_bound(data: Seq<u8>, pos: int, n: nat)
    ensures
        bits_value(data, pos, n) < pow2(n),
    decreases n,
{
    if n > 0 {
        lemma_bits_value_bound(data, pos, (n - 1) as nat);
        lemma_bit_at_le_1(data, pos + n - 1);
    }
}

/// A reader of bits from a byte slice.
pub struct BitReader<'a> {
    data: &'a [u8],
    byte: usize,
    bit: u8,
}

impl<'a> BitReader<'a> {
    pub closed spec fn bytes(&self) -> Seq<u8> {
        self.data@
    }

    /// The position of the next bit.
    pub closed spec fn pos(&self) -> int {
        self.byte * 8 + self.bit
    }

    pub closed spec fn wf(&self) -> bool {
        self.bit < 8 && (self.byte < self.data@.len() || (self.byte == self.data@.len() && self.bit == 0))
    }

    /// A reader at the first bit of `data`.
    pub fn new(data: &'a [u8]) -> (r: BitReader<'a>)
        ensures
            r.bytes() == data@,
            r.pos() == 0,
            r.wf(),
    {
        BitReader { data, byte: 0, bit: 0 }
    }

    /// Read the next `n` bits as a number, or `None`, without moving, when
    /// fewer than `n` bits are left.
    pub fn read(&mut self, n: u8) -> (r: Option<u32>)
        requires
            old(self).wf(),
            n <= 32,
        ensures
            final(self).wf(),
            final(self).bytes() == old(self).bytes(),
            old(self).pos() + n <= 8 * old(self).bytes().len() ==> r == Some(bits_value(old(self).bytes(), old(self).pos(), n as nat) as u32)
                && final(self).pos() == old(self).pos() + n,
            old(self).pos() + n > 8 * old(self).bytes().len() ==> r is None && final(self).pos() == old(self).pos(),
    {
        let len = self.data.len();
        let needed = ((self.bit as usize) + (n as usize) + 7) / 8;
        if needed > len - self.byte {
            proof {
                assert((self.bit + n + 7) / 8 > len - self.byte);
            }
            return None;
        }
        let ghost p0 = self.pos();
        let mut value: u64 = 0;
        let mut k: u8 = 0;
        while k < n
            invariant
                self.data@ == old(self).data@,
                len == self.data@.len(),
                k <= n <= 32,
                self.bit < 8,
                self.byte * 8 + self.bit == p0 + k,
                p0 + n <= 8 * len,
                value == bits_value(self.data@, p0, k as nat),
                value < pow2(k as nat),
            decreases n - k,
        {
            let b = self.data[self.byte];
            let bit = (b >> (7 - self.bit)) & 1;
            proof {
                let i = p0 + k;
                assert(i / 8 == self.byte && i % 8 == self.bit) by (nonlinear_arith)
                    requires
                        i == self.byte * 8 + self.bit,
                        self.bit < 8,
                {
                }
                assert(bit == (self.data@[i / 8] >> ((7 - i % 8) as u8)) & 1u8);
                lemma_bit_at_le_1(self.data@, i);
                lemma_pow2_32(k as nat);
            }
            value = value * 2 + bit as u64;
            if self.bit == 7 {
                self.bit = 0;
                self.byte = self.byte + 1;
            } else {
                self.bit = self.bit + 1;
            }
            k = k + 1;
        }
        proof {
            lemma_pow2_32(n as nat);
        }
        Some(value as u32)
    }

    /// Move to the start of the next byte, unless already at one.
    pub fn align(&mut self)
        requires
            old(self).wf(),
        ensures
            final(self).wf(),
            final(self).bytes() == old(self).bytes(),
            final(self).pos() == (if old(self).pos() % 8 == 0 {
                old(self).pos()
            } else {
                old(self).pos() - old(self).pos() % 8 + 8
            }),
    {
        let len = self.data.len();
        if self.bit != 0 {
            assert(self.byte < len);
            self.bit = 0;
            self.byte = self.byte + 1;
        }
    }
}

/// The bits a row of `row_samples` samples takes, rounded up to whole bytes.
pub open spec fn row_stride_bits(row_samples: nat, bpc: nat) -> nat {
    ((row_samples * bpc + 7) / 8 * 8) as nat
}

/// Sample `i` of packed data whose rows of `row_samples` samples of `bpc`
/// bits each start at whole bytes; zero where the data has run out.
pub open spec fn packed_sample(data: Seq<u8>, i: int, row_samples: nat, bpc: nat) -> u16 {
    let r = i / (row_samples as int);
    let j = i % (row_samples as int);
    let pos = r * row_stride_bits(row_samples, bpc) + j * bpc;
    if pos + bpc <= 8 * data.len() {
        bits_value(data, pos, bpc) as u16
    } else {
        0
    }
}

/// The samples of an image of `height` rows of `width` pixels with
/// `num_components` components of `bpc` bits each: packed rows for fewer than
/// 16 bits other than 8, every byte for 8 bits, big-endian pairs for 16 bits,
/// and nothing for other depths.
pub open spec fn spec_unpack_samples(data: Seq<u8>, width: nat, height: nat, num_components: nat, bpc: nat) -> Option<Seq<u16>> {
    if (1 <= bpc <= 7) || (9 <= bpc <= 15) {
        Some(Seq::new(height * width * num_components, |i: int| packed_sample(data, i, width * num_components, bpc)))
    } else if bpc == 8 {
        Some(Seq::new(data.len(), |i: int| data[i] as u16))
    } else if bpc == 16 {
        Some(Seq::new(data.len() / 2, |i: int| (data[2 * i] * 256 + data[2 * i + 1]) as u16))
    } else {
        None
    }
}

proof fn lemma_round_up(x: int, a: int)
    requires
        x >= 0,
        a >= 0,
        a % 8 == 0,
        x <= a,
    ensures
        (if x % 8 == 0 { x } else { x - x % 8 + 8 }) <= a,
{
}

proof fn lemma_round_up_sum(base: int, x: int)
    requires
        base >= 0,
        base % 8 == 0,
        x >= 0,
    ensures
        (if (base + x) % 8 == 0 { base + x } else { base + x - (base + x) % 8 + 8 }) == base + (x + 7) / 8 * 8,
{
    assert((base + x) % 8 == x % 8) by (nonlinear_arith)
        requires base % 8 == 0, base >= 0, x >= 0;
    assert(x == x / 8 * 8 + x % 8) by (nonlinear_arith)
        requires x >= 0;
    assert((x + 7) / 8 * 8 == if x % 8 == 0 { x } else { x - x % 8 + 8 }) by (nonlinear_arith)
        requires x >= 0, x == x / 8 * 8 + x % 8;
}

/// Unpack the samples of an image.
#[verifier::rlimit(40)]
pub fn unpack_samples(data: &[u8], width: u32, height: u32, num_components: usize, bpc: u8) -> (r: Option<Vec<u16>>)
    requires
        width * num_components * height <= usize::MAX,
        width * num_components <= usize::MAX,
    ensures
        match spec_unpack_samples(data@, width as nat, height as nat, num_components as nat, bpc as nat) {
            Some(v) => r is Some && r.unwrap()@ == v,
            None => r is None,
        },
{
    if bpc == 8 {
        let mut out: Vec<u16> = Vec::new();
        let mut i: usize = 0;
        while i < data.len()
            invariant
                i <= data.len(),
                out@.len() == i,
                forall|j: int| 0 <= j < i ==> #[trigger] out@[j] == data@[j] as u16,
            decreases data.len() - i,
        {
            out.push(data[i] as u16);
            i = i + 1;
        }
        proof {
            assert(out@ == Seq::new(data@.len(), |i: int| data@[i] as u16));
        }
        return Some(out);
    }
    if bpc == 16 {
        let mut out: Vec<u16> = Vec::new();
        let mut i: usize = 0;
        let n = data.len() / 2;
        while i < n
            invariant
                n == data.len() / 2,
                i <= n,
                out@.len() == i,
                forall|j: int| 0 <= j < i ==> #[trigger] out@[j] == (data@[2 * j] * 256 + data@[2 * j + 1]) as u16,
            decreases n - i,
        {
            out.push((data[2 * i] as u16) * 256 + data[2 * i + 1] as u16);
            i = i + 1;
        }
        proof {
            assert(out@ == Seq::new(data@.len() / 2, |i: int| (data@[2 * i] * 256 + data@[2 * i + 1]) as u16));
        }
        return Some(out);
    }
    if bpc == 0 || bpc > 16 {
        return None;
    }
    let row_samples = (width as usize) * num_components;
    let ghost rs = row_samples as nat;
    let ghost stride = row_stride_bits(rs, bpc as nat) as int;
    let ghost total = 8 * data@.len();
    proof {
        assert(stride % 8 == 0) by (nonlinear_arith)
            requires stride == (rs * bpc + 7) / 8 * 8;
        assert(stride >= rs * bpc) by (nonlinear_arith)
            requires stride == (rs * bpc + 7) / 8 * 8;
    }
    let mut reader = BitReader::new(data);
    let mut out: Vec<u16> = Vec::new();
    let mut r: u32 = 0;
    let ghost mut row_start: int = 0;
    while r < height
        invariant
            1 <= bpc <= 15,
            bpc != 8,
            row_samples == rs,
            rs * height <= usize::MAX,
            stride == row_stride_bits(rs, bpc as nat),
            stride % 8 == 0,
            stride >= rs * bpc,
            total == 8 * data@.len(),
            reader.wf(),
            reader.bytes() == data@,
            r <= height,
            row_start == r * stride,
            row_start % 8 == 0,
            out@.len() == r * rs,
            reader.pos() == row_start || (reader.pos() <= row_start && reader.pos() + bpc > total),
            forall|k: int| 0 <= k < out@.len() ==> #[trigger] out@[k] == packed_sample(data@, k, rs, bpc as nat),
        decreases height - r,
    {
        let mut j: usize = 0;
        let ghost mut np: int = row_start;
        while j < row_samples
            invariant
                1 <= bpc <= 15,
                row_samples == rs,
                rs * height <= usize::MAX,
                r < height,
                stride == row_stride_bits(rs, bpc as nat),
                total == 8 * data@.len(),
                reader.wf(),
                reader.bytes() == data@,
                row_start == r * stride,
                row_start % 8 == 0,
                j <= rs,
                np == row_start + j * bpc,
                out@.len() == r * rs + j,
                reader.pos() == np || (reader.pos() <= np && reader.pos() + bpc > total),
                forall|k: int| 0 <= k < out@.len() ==> #[trigger] out@[k] == packed_sample(data@, k, rs, bpc as nat),
            decreases rs - j,
        {
            let ghost k = out@.len() as int;
            proof {
                assert(r * rs + j < rs * height) by (nonlinear_arith)
                    requires j < rs, r < height;
                vstd::arithmetic::div_mod::lemma_fundamental_div_mod_converse(k, rs as int, r as int, j as int);
                lemma_bits_value_bound(data@, np, bpc as nat);
                lemma_pow2_mono(bpc as nat, 16);
                reveal_with_fuel(pow2, 17);
            }
            let v = match reader.read(bpc) {
                Some(x) => x,
                None => 0,
            };
            out.push(v as u16);
            proof {
                assert(np + bpc == row_start + (j + 1) * bpc) by (nonlinear_arith)
                    requires np == row_start + j * bpc;
                np = np + bpc;
            }
            j = j + 1;
        }
        proof {
            assert(np <= row_start + stride);
            lemma_round_up_sum(row_start, (rs * bpc) as int);
            assert(np == row_start + rs * bpc);
            let p = reader.pos();
            if p != np {
                lemma_round_up(p, row_start + stride);
            }
        }
        reader.align();
        proof {
            row_start = row_start + stride;
            assert(row_start == (r + 1) * stride) by (nonlinear_arith)
                requires row_start == r * stride + stride;
            assert(out@.len() == (r + 1) * rs) by (nonlinear_arith)
                requires out@.len() == r * rs + rs;
        }
        r = r + 1;
    }
    proof {
        assert(out@.len() == height * rs) by (nonlinear_arith)
            requires out@.len() == r * rs, r == height;
        assert(height * rs == height * width * num_components) by (nonlinear_arith)
            requires rs == width * num_components;
        assert(out@ == Seq::new((height * width * num_components) as nat, |i: int| packed_sample(data@, i, rs, bpc as nat)));
    }
    Some(out)
}

proof fn lemma_pow2_32(k: nat)
    requires
        k <= 32,
    ensures
        pow2(k) <= 4294967296,
    decreases k,
{
    if k < 32 {
        lemma_pow2_mono(k, 32);
    }
    reveal_with_fuel(pow2, 33);
}

proof fn lemma_pow2_mono(a: nat, b: nat)
    requires
        a <= b,
    ensures
        pow2(a) <= pow2(b),
    decreases b,
{
    if a < b {
        lemma_pow2_mono(a, (b - 1) as nat);
    }
}

/// Reading `n` bits and then `m` bits gives the same bits as reading `n + m`
/// bits at once: the first number shifted left by `m`, plus the second.
pub proof fn lemma_bits_value_split(data: Seq<u8>, pos: int, n: nat, m: nat)
    ensures
        bits_value(data, pos, n + m) == bits_value(data, pos, n) * pow2(m) + bits_value(data, pos + n, m),
    decreases m,
{
    if m > 0 {
        lemma_bits_value_split(data, pos, n, (m - 1) as nat);
        let a = bits_value(data, pos, n);
        let p1 = pow2((m - 1) as nat);
        let b1 = bits_value(data, pos + n, (m - 1) as nat);
        assert(bits_value(data, pos, n + m) == 2 * bits_value(data, pos, (n + m - 1) as nat) + bit_at(data, pos + n + m - 1));
        assert(pow2(m) == 2 * p1);
        assert(bits_value(data, pos + n, m) == 2 * b1 + bit_at(data, pos + n + m - 1));
        assert(2 * (a * p1 + b1) == a * (2 * p1) + 2 * b1) by (nonlinear_arith);
    } else {
        assert(pow2(0) == 1);
        assert(n + m == n);
    }
}

/// Every sample unpacked from an image fits its depth: it is below
/// `2^bpc`.
pub proof fn lemma_samples_fit_depth(data: Seq<u8>, width: nat, height: nat, num_components: nat, bpc: nat, i: int)
    requires
        spec_unpack_samples(data, width, height, num_components, bpc) is Some,
        0 <= i < spec_unpack_samples(data, width, height, num_components, bpc).unwrap().len(),
    ensures
        spec_unpack_samples(data, width, height, num_components, bpc).unwrap()[i] < pow2(bpc),
{
    let s = spec_unpack_samples(data, width, height, num_components, bpc).unwrap();
    if bpc == 8 {
        reveal_with_fuel(pow2, 9);
    } else if bpc == 16 {
        reveal_with_fuel(pow2, 17);
        assert(data[2 * i] * 256 + data[2 * i + 1] <= 65535);
    } else {
        let rs = width * num_components;
        let r = i / (rs as int);
        let j = i % (rs as int);
        let pos = r * row_stride_bits(rs, bpc) + j * bpc;
        lemma_bits_value_bound(data, pos, bpc);
        lemma_pow2_mono(bpc, 15);
        reveal_with_fuel(pow2, 16);
    }
}


/// Bit `k` of byte `j`, from the most significant, is bit `8 * j + k` of the
/// data.
proof fn lemma_bit_of_byte(data: Seq<u8>, j: int, k: int)
    requires
        0 <= j < data.len(),
        0 <= k < 8,
    ensures
        bit_at(data, 8 * j + k) == ((data[j] >> ((7 - k) as u8)) & 1u8) as nat,
{
    assert((8 * j + k) / 8 == j && (8 * j + k) % 8 == k) by (nonlinear_arith)
        requires
            0 <= k < 8,
    {
    }
}

/// The eight bits of a byte spell the byte.
pub proof fn lemma_byte_bits(data: Seq<u8>, j: int)
    requires
        0 <= j < data.len(),
    ensures
        bits_value(data, 8 * j, 8) == data[j] as nat,
{
    let b = data[j];
    lemma_bit_of_byte(data, j, 0);
    lemma_bit_of_byte(data, j, 1);
    lemma_bit_of_byte(data, j, 2);
    lemma_bit_of_byte(data, j, 3);
    lemma_bit_of_byte(data, j, 4);
    lemma_bit_of_byte(data, j, 5);
    lemma_bit_of_byte(data, j, 6);
    lemma_bit_of_byte(data, j, 7);
    reveal_with_fuel(bits_value, 9);
    assert(b as nat == 128 * ((b >> 7u8) & 1u8) as nat + 64 * ((b >> 6u8) & 1u8) as nat + 32 * ((b >> 5u8)
        & 1u8) as nat + 16 * ((b >> 4u8) & 1u8) as nat + 8 * ((b >> 3u8) & 1u8) as nat + 4 * ((b >> 2u8)
        & 1u8) as nat + 2 * ((b >> 1u8) & 1u8) as nat + ((b >> 0u8) & 1u8) as nat) by (bit_vector);
}

} // verus!
