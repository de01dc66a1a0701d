use vstd::bytes::*;
use vstd::prelude::*;

use crate::reader::{Deserializable, Error, Reader};
use crate::stream::{Serializable, Stream};

verus! {

/// A non-negative integer in the variable-width form used for length prefixes.
///
/// Values below `0xfd` take one byte. Larger values take a marker byte
/// (`0xfd`, `0xfe` or `0xff`) followed by the value as a little-endian `u16`,
/// `u32` or `u64`. The writer always picks the shortest form; the reader
/// also accepts a longer form than needed.
#[derive(Debug, Clone, Copy, PartialEq, Eq, Structural)]
pub struct CompactInteger(pub u64);

impl View for CompactInteger {
    type V = u64;

    open spec fn view(&self) -> u64 {
        self.0
    }
}

/// The shortest encoding of `n`.
pub open spec fn spec_compact_encode(n: u64) -> Seq<u8> {
    if n < 0xfd {
        seq![n as u8]
    } else if n <= 0xffff {
        seq![0xfdu8] + spec_u16_to_le_bytes(n as u16)
    } else if n <= 0xffff_ffff {
        seq![0xfeu8] + spec_u32_to_le_bytes(n as u32)
    } else {
        seq![0xffu8] + spec_u64_to_le_bytes(n)
    }
}

/// The integer at the front of `s` and the number of bytes it occupies, or
/// `None` when `s` ends before the encoding does.
pub open spec fn spec_compact_decode(s: Seq<u8>) -> Option<(u64, nat)> {
    if s.len() == 0 {
        None
    } else if s[0] < 0xfd {
        Some((s[0] as u64, 1))
    } else if s[0] == 0xfd {
        if s.len() >= 3 {
            Some((spec_u16_from_le_bytes(s.subrange(1, 3)) as u64, 3))
        } else {
            None
        }
    } else if s[0] == 0xfe {
        if s.len() >= 5 {
            Some((spec_u32_from_le_bytes(s.subrange(1, 5)) as u64, 5))
        } else {
            None
        }
    } else {
        if s.len() >= 9 {
            Some((spec_u64_from_le_bytes(s.subrange(1, 9)), 9))
        } else {
            None
        }
    }
}

impl Serializable for CompactInteger {
    open spec fn spec_encode(v: u64) -> Seq<u8> {
        spec_compact_encode(v)
    }

    fn serialize(&self, stream: &mut Stream) {
        let n = self.0;
        if n < 0xfd {
            stream.append_slice(&[n as u8]);
        } else if n <= 0xffff {
            stream.append_slice(&[0xfdu8]);
            let b = u16_to_le_bytes(n as u16);
            stream.append_slice(b.as_slice());
        } else if n <= 0xffff_ffff {
            stream.append_slice(&[0xfeu8]);
            let b = u32_to_le_bytes(n as u32);
            stream.append_slice(b.as_slice());
        } else {
            stream.append_slice(&[0xffu8]);
            let b = u64_to_le_bytes(n);
            stream.append_slice(b.as_slice());
        }
        proof {
            assert(stream@ =~= old(stream)@ + spec_compact_encode(n));
        }
    }
}

impl Deserializable for CompactInteger {
    open spec fn spec_decode(s: Seq<u8>) -> Option<(u64, nat)> {
        spec_compact_decode(s)
    }

    fn deserialize(reader: &mut Reader) -> (r: Result<CompactInteger, Error>) {
        let ghost rem = reader.remaining();
        let tag = match reader.read_slice(1) {
            Ok(s) => s[0],
            Err(e) => return Err(e),
        };
        assert(tag == rem[0]);
        if tag < 0xfd {
            return Ok(CompactInteger(tag as u64));
        }
        let width: usize = if tag == 0xfd {
            2
        } else if tag == 0xfe {
            4
        } else {
            8
        };
        let body = match reader.read_slice(width) {
            Ok(s) => s,
            Err(e) => return Err(e),
        };
        assert(body@ =~= rem.subrange(1, 1 + width));
        let n: u64 = if tag == 0xfd {
            u16_from_le_bytes(body) as u64
        } else if tag == 0xfe {
            u32_from_le_bytes(body) as u64
        } else {
            u64_from_le_bytes(body)
        };
        Ok(CompactInteger(n))
    }
}

/// Decoding the shortest encoding of `n`, followed by any bytes, gives back
/// `n` and consumes exactly that encoding.
pub proof fn lemma_compact_round_trip(n: u64, rest: Seq<u8>)
    ensures
        spec_compact_decode(spec_compact_encode(n) + rest) == Some(
            (n, spec_compact_encode(n).len()),
        ),
{
    lemma_auto_spec_u16_to_from_le_bytes();
    lemma_auto_spec_u32_to_from_le_bytes();
    lemma_auto_spec_u64_to_from_le_bytes();
    let e = spec_compact_encode(n);
    let s = e + rest;
    if n < 0xfd {
        assert(s[0] == n as u8);
    } else if n <= 0xffff {
        assert(s.subrange(1, 3) =~= spec_u16_to_le_bytes(n as u16));
    } else if n <= 0xffff_ffff {
        assert(s.subrange(1, 5) =~= spec_u32_to_le_bytes(n as u32));
    } else {
        assert(s.subrange(1, 9) =~= spec_u64_to_le_bytes(n));
    }
}

/// The shortest encoding takes 1, 3, 5 or 9 bytes by the size of `n`.
pub proof fn lemma_compact_encode_len(n: u64)
    ensures
        spec_compact_encode(n).len() == if n < 0xfd {
            1nat
        } else if n <= 0xffff {
            3nat
        } else if n <= 0xffff_ffff {
            5nat
        } else {
            9nat
        },
{
    lemma_auto_spec_u16_to_from_le_bytes();
    lemma_auto_spec_u32_to_from_le_bytes();
    lemma_auto_spec_u64_to_from_le_bytes();
}

} // verus!
