use vstd::prelude::*;

use crate::reader::{Deserializable, Error, Reader};
use crate::stream::{Serializable, Stream};

verus! {

/// An opaque identifier of exactly `N` bytes, written on the wire as its
/// bytes verbatim, with no length prefix.
#[derive(Debug)]
pub struct FixedHash<const N: usize> {
    bytes: Vec<u8>,
}

/// A 20-byte identifier.
pub type H160 = FixedHash<20>;

/// A 32-byte identifier.
pub type H256 = FixedHash<32>;

/// A 33-byte identifier.
pub type H264 = FixedHash<33>;

/// A 64-byte identifier.
pub type H512 = FixedHash<64>;

/// A 65-byte identifier.
pub type H520 = FixedHash<65>;

impl<const N: usize> View for FixedHash<N> {
    type V = Seq<u8>;

    closed spec fn view(&self) -> Seq<u8> {
        self.bytes@
    }
}

/// A sequence of `n` zero bytes.
pub open spec fn zeros(n: nat) -> Seq<u8> {
    Seq::new(n, |i: int| 0u8)
}

impl<const N: usize> FixedHash<N> {
    #[verifier::type_invariant]
    spec fn inv(&self) -> bool {
        self.bytes@.len() == N
    }

    /// The identifier with the bytes of `s`, or `None` unless `s` holds
    /// exactly `N` bytes.
    pub fn from_slice(s: &[u8]) -> (r: Option<FixedHash<N>>)
        ensures
            match r {
                Some(h) => s@.len() == N && h@ == s@,
                None => s@.len() != N,
            },
    {
        if s.len() != N {
            return None;
        }
        Some(FixedHash { bytes: vstd::slice::slice_to_vec(s) })
    }

    /// The identifier's bytes.
    pub fn as_slice(&self) -> (r: &[u8])
        ensures
            r@ == self@,
            r@.len() == N,
    {
        proof {
            use_type_invariant(self);
        }
        self.bytes.as_slice()
    }
}

impl<const N: usize> Default for FixedHash<N> {
    /// The identifier of `N` zero bytes.
    fn default() -> (r: FixedHash<N>)
        ensures
            r@ == zeros(N as nat),
    {
        let mut bytes: Vec<u8> = Vec::new();
        let mut i: usize = 0;
        while i < N
            invariant
                i <= N,
                bytes@ == zeros(i as nat),
            decreases N - i,
        {
            bytes.push(0u8);
            i = i + 1;
            proof {
                assert(bytes@ =~= zeros(i as nat));
            }
        }
        FixedHash { bytes }
    }
}

impl<const N: usize> Clone for FixedHash<N> {
    fn clone(&self) -> (r: FixedHash<N>)
        ensures
            r@ == self@,
    {
        proof {
            use_type_invariant(self);
        }
        FixedHash { bytes: vstd::slice::slice_to_vec(self.bytes.as_slice()) }
    }
}

impl<const N: usize> PartialEq for FixedHash<N> {
    fn eq(&self, other: &FixedHash<N>) -> (r: bool) {
        proof {
            broadcast use vstd::std_specs::vec::lemma_vec_obeys_eq_spec;
        }
        let r = self.bytes == other.bytes;
        proof {
            if r {
                assert(self@ =~= other@);
            }
        }
        r
    }
}

impl<const N: usize> vstd::std_specs::cmp::PartialEqSpecImpl for FixedHash<N> {
    open spec fn obeys_eq_spec() -> bool {
        true
    }

    open spec fn eq_spec(&self, other: &FixedHash<N>) -> bool {
        self@ == other@
    }
}

impl<const N: usize> Eq for FixedHash<N> {}

impl<const N: usize> Serializable for FixedHash<N> {
    open spec fn spec_encode(v: Seq<u8>) -> Seq<u8> {
        v
    }

    fn serialize(&self, stream: &mut Stream) {
        stream.append_slice(self.bytes.as_slice());
    }
}

impl<const N: usize> Deserializable for FixedHash<N> {
    open spec fn spec_decode(s: Seq<u8>) -> Option<(Seq<u8>, nat)> {
        if s.len() >= N {
            Some((s.take(N as int), N as nat))
        } else {
            None
        }
    }

    fn deserialize(reader: &mut Reader) -> (r: Result<FixedHash<N>, Error>) {
        let s = match reader.read_slice(N) {
            Ok(s) => s,
            Err(e) => return Err(e),
        };
        Ok(FixedHash { bytes: vstd::slice::slice_to_vec(s) })
    }
}

/// Reading back what was written for an identifier of width `N` gives the
/// same bytes and consumes exactly `N` bytes, whatever follows them.
pub proof fn lemma_fixed_round_trip<const N: usize>(x: Seq<u8>, rest: Seq<u8>)
    requires
        x.len() == N,
    ensures
        FixedHash::<N>::spec_decode(FixedHash::<N>::spec_encode(x) + rest) == Some((x, N as nat)),
{
    assert((x + rest).take(N as int) =~= x);
}

/// An identifier of width `N` is written as exactly `N` bytes.
pub proof fn lemma_fixed_encode_len<const N: usize>(x: Seq<u8>)
    requires
        x.len() == N,
    ensures
        FixedHash::<N>::spec_encode(x).len() == N,
{
}

/// Reading an identifier of width `N` from fewer than `N` bytes fails.
pub proof fn lemma_fixed_truncated<const N: usize>(s: Seq<u8>)
    requires
        s.len() < N,
    ensures
        FixedHash::<N>::spec_decode(s) is None,
{
}

} // verus!
