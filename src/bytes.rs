use vstd::prelude::*;

use crate::compact_integer::{
    lemma_compact_round_trip, spec_compact_decode, spec_compact_encode, CompactInteger,
};
use crate::reader::{Deserializable, Error, Reader};
use crate::stream::{Serializable, Stream};

verus! {

/// An owned byte buffer of any length, written on the wire as its length in
/// compact form followed by the bytes themselves.
#[derive(Debug)]
pub struct Bytes {
    bytes: Vec<u8>,
}

impl View for Bytes {
    type V = Seq<u8>;

    closed spec fn view(&self) -> Seq<u8> {
        self.bytes@
    }
}

/// The wire form of a buffer holding `b`.
pub open spec fn spec_bytes_encode(b: Seq<u8>) -> Seq<u8> {
    spec_compact_encode(b.len() as u64) + b
}

/// The buffer at the front of `s` and the number of bytes it occupies, or
/// `None` when the length prefix or the body is cut short.
pub open spec fn spec_bytes_decode(s: Seq<u8>) -> Option<(Seq<u8>, nat)> {
    match spec_compact_decode(s) {
        Some((len, k)) => if k + len <= s.len() {
            Some((s.subrange(k as int, (k + len) as int), (k + len) as nat))
        } else {
            None
        },
        None => None,
    }
}

impl Bytes {
    /// An empty buffer.
    pub fn new() -> (r: Bytes)
        ensures
            r@ == Seq::<u8>::empty(),
    {
        Bytes { bytes: Vec::new() }
    }

    /// A buffer that takes ownership of `bytes`.
    pub fn from_vec(bytes: Vec<u8>) -> (r: Bytes)
        ensures
            r@ == bytes@,
    {
        Bytes { bytes }
    }

    /// A buffer holding a copy of `s`.
    pub fn from_slice(s: &[u8]) -> (r: Bytes)
        ensures
            r@ == s@,
    {
        Bytes { bytes: vstd::slice::slice_to_vec(s) }
    }

    /// Number of bytes held.
    pub fn len(&self) -> (n: usize)
        ensures
            n == self@.len(),
    {
        self.bytes.len()
    }

    /// Whether the buffer is empty.
    pub fn is_empty(&self) -> (b: bool)
        ensures
            b == (self@.len() == 0),
    {
        self.bytes.len() == 0
    }

    /// The bytes held.
    pub fn as_slice(&self) -> (r: &[u8])
        ensures
            r@ == self@,
    {
        self.bytes.as_slice()
    }

    /// The bytes held, by value.
    pub fn into_vec(self) -> (r: Vec<u8>)
        ensures
            r@ == self@,
    {
        self.bytes
    }
}

impl Clone for Bytes {
    fn clone(&self) -> (r: Bytes)
        ensures
            r@ == self@,
    {
        Bytes { bytes: vstd::slice::slice_to_vec(self.bytes.as_slice()) }
    }
}

impl PartialEq for Bytes {
    fn eq(&self, other: &Bytes) -> (r: bool) {
        proof {
            broadcast use vstd::std_specs::vec::lemma_vec_obeys_eq_spec;
        }
        let r = self.bytes == other.bytes;
        proof {
            if r {
                assert(self@ =~= other@);
            }
        }
        r
    }
}

impl vstd::std_specs::cmp::PartialEqSpecImpl for Bytes {
    open spec fn obeys_eq_spec() -> bool {
        true
    }

    open spec fn eq_spec(&self, other: &Bytes) -> bool {
        self@ == other@
    }
}

impl Eq for Bytes {}

impl Serializable for Bytes {
    open spec fn spec_encode(v: Seq<u8>) -> Seq<u8> {
        spec_bytes_encode(v)
    }

    fn serialize(&self, stream: &mut Stream) {
        let len = CompactInteger(self.bytes.len() as u64);
        len.serialize(stream);
        stream.append_slice(self.bytes.as_slice());
        proof {
            assert(stream@ =~= old(stream)@ + spec_bytes_encode(self@));
        }
    }
}

impl Deserializable for Bytes {
    open spec fn spec_decode(s: Seq<u8>) -> Option<(Seq<u8>, nat)> {
        spec_bytes_decode(s)
    }

    fn deserialize(reader: &mut Reader) -> (r: Result<Bytes, Error>) {
        let ghost rem = reader.remaining();
        let len = match CompactInteger::deserialize(reader) {
            Ok(len) => len.0,
            Err(e) => return Err(e),
        };
        let ghost k = (reader.position() - old(reader).position()) as nat;
        assert(reader.remaining() =~= rem.skip(k as int));
        if len > reader.remaining_len() as u64 {
            return Err(Error::UnexpectedEnd);
        }
        let s = match reader.read_slice(len as usize) {
            Ok(s) => s,
            Err(e) => return Err(e),
        };
        assert(s@ =~= rem.subrange(k as int, k + len));
        Ok(Bytes { bytes: vstd::slice::slice_to_vec(s) })
    }
}

/// Reading back what was written for a buffer gives the same bytes and
/// consumes exactly the length prefix and the body, whatever follows them.
pub proof fn lemma_bytes_round_trip(b: Seq<u8>, rest: Seq<u8>)
    requires
        b.len() <= u64::MAX,
    ensures
        spec_bytes_decode(spec_bytes_encode(b) + rest) == Some((b, spec_bytes_encode(b).len())),
{
    let p = spec_compact_encode(b.len() as u64);
    let s = spec_bytes_encode(b) + rest;
    assert(s =~= p + (b + rest));
    lemma_compact_round_trip(b.len() as u64, b + rest);
    assert(s.subrange(p.len() as int, (p.len() + b.len()) as int) =~= b);
}

/// A buffer of `b.len()` bytes is written as its compact length prefix
/// followed by exactly `b.len()` bytes.
pub proof fn lemma_bytes_encode_len(b: Seq<u8>)
    ensures
        spec_bytes_encode(b).len() == spec_compact_encode(b.len() as u64).len() + b.len(),
{
}

/// Reading a buffer whose declared length runs past the end of the input
/// fails.
pub proof fn lemma_bytes_truncated_body(s: Seq<u8>)
    requires
        spec_compact_decode(s) is Some,
        spec_compact_decode(s).unwrap().1 + spec_compact_decode(s).unwrap().0 > s.len(),
    ensures
        spec_bytes_decode(s) is None,
{
}

} // verus!
