use vstd::prelude::*;

verus! {

/// Failure while decoding from a [`Reader`].
#[derive(Debug, Clone, Copy, PartialEq, Eq, Structural)]
pub enum Error {
    /// Fewer bytes remain than the encoding requires.
    UnexpectedEnd,
}

/// A cursor over an immutable byte buffer, consumed front to back.
pub struct Reader<'a> {
    buffer: &'a [u8],
    pos: usize,
}

impl<'a> Reader<'a> {
    /// The whole underlying buffer.
    pub closed spec fn buffer(&self) -> Seq<u8> {
        self.buffer@
    }

    /// Number of bytes already consumed.
    pub closed spec fn position(&self) -> nat {
        self.pos as nat
    }

    /// The cursor never moves past the end of the buffer.
    pub open spec fn wf(&self) -> bool {
        self.position() <= self.buffer().len()
    }

    /// The bytes that have not been consumed yet.
    pub open spec fn remaining(&self) -> Seq<u8> {
        self.buffer().skip(self.position() as int)
    }

    /// A reader positioned at the first byte of `buffer`.
    pub fn new(buffer: &'a [u8]) -> (r: Reader<'a>)
        ensures
            r.wf(),
            r.buffer() == buffer@,
            r.position() == 0,
    {
        Reader { buffer, pos: 0 }
    }

    /// Number of bytes that have not been consumed yet.
    pub fn remaining_len(&self) -> (n: usize)
        requires
            self.wf(),
        ensures
            n == self.remaining().len(),
    {
        self.buffer.len() - self.pos
    }

    /// Whether every byte has been consumed.
    pub fn is_finished(&self) -> (b: bool)
        requires
            self.wf(),
        ensures
            b == (self.remaining().len() == 0),
    {
        self.pos == self.buffer.len()
    }

    /// Takes the next `len` bytes and advances past them, or fails with
    /// `UnexpectedEnd` when fewer than `len` bytes remain.
    pub fn read_slice(&mut self, len: usize) -> (r: Result<&'a [u8], Error>)
        requires
            old(self).wf(),
        ensures
            final(self).wf(),
            final(self).buffer() == old(self).buffer(),
            match r {
                Ok(s) => {
                    &&& len <= old(self).remaining().len()
                    &&& s@ == old(self).remaining().take(len as int)
                    &&& final(self).position() == old(self).position() + len
                },
                Err(e) => {
                    &&& len > old(self).remaining().len()
                    &&& e == Error::UnexpectedEnd
                    &&& final(self).position() == old(self).position()
                },
            },
    {
        if len > self.buffer.len() - self.pos {
            return Err(Error::UnexpectedEnd);
        }
        let start = self.pos;
        let end = start + len;
        let s = vstd::slice::slice_subrange(self.buffer, start, end);
        self.pos = end;
        proof {
            assert(s@ =~= old(self).remaining().take(len as int));
        }
        Ok(s)
    }
}

/// A value that can be decoded from the front of a byte stream.
///
/// `spec_decode` describes the wire format: on input `s` it gives the decoded
/// value's view and how many bytes of `s` it occupies, or `None` when `s` does
/// not begin with a complete encoding.
pub trait Deserializable: View + Sized {
    spec fn spec_decode(s: Seq<u8>) -> Option<(Self::V, nat)>;

    /// Reads one value and advances the reader exactly past it. On failure the
    /// reader's position is not meaningful.
    fn deserialize(reader: &mut Reader) -> (r: Result<Self, Error>)
        requires
            old(reader).wf(),
        ensures
            final(reader).wf(),
            final(reader).buffer() == old(reader).buffer(),
            match r {
                Ok(v) => {
                    &&& final(reader).position() >= old(reader).position()
                    &&& Self::spec_decode(old(reader).remaining()) == Some(
                        (v@, (final(reader).position() - old(reader).position()) as nat),
                    )
                },
                Err(e) => {
                    &&& e == Error::UnexpectedEnd
                    &&& Self::spec_decode(old(reader).remaining()) is None
                },
            },
    ;
}

impl<'a> Reader<'a> {
    /// Reads one value of type `T`.
    pub fn read<T: Deserializable>(&mut self) -> (r: Result<T, Error>)
        requires
            old(self).wf(),
        ensures
            final(self).wf(),
            final(self).buffer() == old(self).buffer(),
            match r {
                Ok(v) => {
                    &&& final(self).position() >= old(self).position()
                    &&& T::spec_decode(old(self).remaining()) == Some(
                        (v@, (final(self).position() - old(self).position()) as nat),
                    )
                },
                Err(e) => {
                    &&& e == Error::UnexpectedEnd
                    &&& T::spec_decode(old(self).remaining()) is None
                },
            },
    {
        T::deserialize(self)
    }
}

/// Decodes one value of type `T` from the front of `buffer`. Bytes after the
/// value are left unread and are not an error.
pub fn deserialize<T: Deserializable>(buffer: &[u8]) -> (r: Result<T, Error>)
    ensures
        match r {
            Ok(v) => exists|n: nat| T::spec_decode(buffer@) == Some((v@, n)),
            Err(e) => e == Error::UnexpectedEnd && T::spec_decode(buffer@) is None,
        },
{
    let mut reader = Reader::new(buffer);
    proof {
        assert(reader.remaining() =~= buffer@);
    }
    reader.read()
}

} // verus!
