//! A table of the results for all 256 byte values, computed on first use.
use vstd::prelude::*;

verus! {

/// The byte values in order, the input a lookup table is computed from.
pub open spec fn all_bytes() -> Seq<u8> {
    Seq::new(256, |i: int| i as u8)
}

/// The RGB triples a buffer of 768 bytes holds, three bytes each.
pub open spec fn byte_triples(flat: Seq<u8>) -> Seq<[u8; 3]> {
    Seq::new(256, |j: int| [flat[3 * j], flat[3 * j + 1], flat[3 * j + 2]])
}

/// A lookup table for the 256 byte values, computed by the first call that
/// asks for it and kept from then on (also when the computation failed).
pub struct U8Lookup<T> {
    table: Option<Option<Vec<T>>>,
}

impl<T> U8Lookup<T> {
    /// Whether the table has been computed.
    pub closed spec fn is_init(&self) -> bool {
        self.table is Some
    }

    /// The computed table, where the computation succeeded.
    pub closed spec fn computed(&self) -> Option<Seq<T>> {
        match self.table {
            Some(Some(v)) => Some(v@),
            _ => None,
        }
    }

    /// A lookup table that has not been computed yet.
    pub fn new() -> (r: U8Lookup<T>)
        ensures
            !r.is_init(),
    {
        U8Lookup { table: None }
    }

    /// The table, computed by `init` from the 256 byte values where it has not
    /// been computed before; `None` where the computation failed.
    pub fn get_or_init_with<F: FnOnce(&[u8; 256]) -> Option<Vec<T>>>(&mut self, init: F) -> (r: Option<&[T]>)
        requires
            !old(self).is_init() ==> forall|input: &[u8; 256]| input@ == all_bytes() ==> call_requires(init, (input,)),
        ensures
            final(self).is_init(),
            old(self).is_init() ==> final(self).computed() == old(self).computed(),
            !old(self).is_init() ==> exists|input: &[u8; 256], out: Option<Vec<T>>|
                input@ == all_bytes() && call_ensures(init, (input,), out) && final(self).computed() == match out {
                    Some(v) => Some(v@),
                    None => None::<Seq<T>>,
                },
            match final(self).computed() {
                Some(t) => r is Some && r.unwrap()@ == t,
                None => r is None,
            },
    {
        if self.table.is_none() {
            let mut input = [0u8; 256];
            let mut i: usize = 0;
            while i < 256
                invariant
                    i <= 256,
                    input@.len() == 256,
                    forall|j: int| 0 <= j < i ==> #[trigger] input@[j] == j as u8,
                decreases 256 - i,
            {
                input[i] = i as u8;
                i = i + 1;
            }
            assert(input@ == all_bytes());
            let out = init(&input);
            self.table = Some(out);
        }
        match &self.table {
            Some(Some(v)) => Some(v.as_slice()),
            _ => None,
        }
    }
}

impl<T> Default for U8Lookup<T> {
    /// A lookup table that has not been computed yet.
    fn default() -> (r: U8Lookup<T>)
        ensures
            !r.is_init(),
    {
        U8Lookup { table: None }
    }
}

impl U8Lookup<[u8; 3]> {
    /// The table of RGB triples that `convert` writes for the 256 byte
    /// values, computed where it has not been before; `None` where the
    /// conversion failed.
    pub fn get_or_init<F: FnOnce(&[u8], &mut [u8]) -> Option<()>>(&mut self, convert: F) -> (r: Option<&[[u8; 3]]>)
        requires
            !old(self).is_init() ==> forall|input: &[u8], output: &mut [u8]| call_requires(convert, (input, output)),
        ensures
            final(self).is_init(),
            old(self).is_init() ==> final(self).computed() == old(self).computed(),
            !old(self).is_init() ==> exists|input: &[u8], output: &mut [u8], res: Option<()>|
                input@ == all_bytes() && output@ == Seq::new(768, |i: int| 0u8)
                    && call_ensures(convert, (input, output), res)
                    && final(self).computed() == if res is Some && final(output)@.len() == 768 {
                        Some(byte_triples(final(output)@))
                    } else {
                        None::<Seq<[u8; 3]>>
                    },
            match final(self).computed() {
                Some(t) => r is Some && r.unwrap()@ == t,
                None => r is None,
            },
    {
        if self.table.is_none() {
            let mut input = [0u8; 256];
            let mut i: usize = 0;
            while i < 256
                invariant
                    i <= 256,
                    input@.len() == 256,
                    forall|j: int| 0 <= j < i ==> #[trigger] input@[j] == j as u8,
                decreases 256 - i,
            {
                input[i] = i as u8;
                i = i + 1;
            }
            assert(input@ == all_bytes());
            let mut flat: Vec<u8> = vec![0u8; 768];
            let ghost flat0 = flat@;
            let m = flat.as_mut_slice();
            proof {
                assert(m@ == flat0);
            }
            let res = convert(input.as_slice(), m);
            // A slice keeps its length; testing it here lets the proof rely on it.
            let out = match res {
                Some(_) if flat.len() == 768 => {
                    let mut table: Vec<[u8; 3]> = Vec::new();
                    let mut k: usize = 0;
                    while k < 256
                        invariant
                            k <= 256,
                            flat@.len() == 768,
                            table@.len() == k,
                            forall|j: int| 0 <= j < k ==> #[trigger] table@[j] == [flat@[3 * j], flat@[3 * j + 1], flat@[3 * j + 2]],
                        decreases 256 - k,
                    {
                        table.push([flat[3 * k], flat[3 * k + 1], flat[3 * k + 2]]);
                        k = k + 1;
                    }
                    Some(table)
                },
                _ => None,
            };
            self.table = Some(out);
        }
        match &self.table {
            Some(Some(v)) => Some(v.as_slice()),
            _ => None,
        }
    }
}

} // verus!
