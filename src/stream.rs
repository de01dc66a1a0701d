use vstd::prelude::*;

verus! {

/// An append-only, growable byte sink.
pub struct Stream {
    buffer: Vec<u8>,
}

impl View for Stream {
    type V = Seq<u8>;

    closed spec fn view(&self) -> Seq<u8> {
        self.buffer@
    }
}

/// A value with a canonical byte encoding.
///
/// `spec_encode` gives the bytes that `serialize` appends for a value with
/// the given view.
pub trait Serializable: View {
    spec fn spec_encode(v: Self::V) -> Seq<u8>;

    /// Appends the encoding of `self` to `stream`.
    fn serialize(&self, stream: &mut Stream)
        ensures
            final(stream)@ == old(stream)@ + Self::spec_encode(self@),
    ;
}

impl Stream {
    /// An empty stream.
    pub fn new() -> (s: Stream)
        ensures
            s@ == Seq::<u8>::empty(),
    {
        Stream { buffer: Vec::new() }
    }

    /// Appends `bytes` verbatim.
    pub fn append_slice(&mut self, bytes: &[u8])
        ensures
            final(self)@ == old(self)@ + bytes@,
    {
        let mut i: usize = 0;
        while i < bytes.len()
            invariant
                i <= bytes@.len(),
                self@ == old(self)@ + bytes@.take(i as int),
            decreases bytes@.len() - i,
        {
            self.buffer.push(bytes[i]);
            proof {
                assert(bytes@.take(i + 1) =~= bytes@.take(i as int).push(bytes@[i as int]));
            }
            i = i + 1;
        }
        proof {
            assert(bytes@.take(bytes@.len() as int) =~= bytes@);
        }
    }

    /// Appends the encoding of `value`.
    pub fn append<T: Serializable>(&mut self, value: &T)
        ensures
            final(self)@ == old(self)@ + T::spec_encode(value@),
    {
        value.serialize(self);
    }

    /// Number of bytes written so far.
    pub fn len(&self) -> (n: usize)
        ensures
            n == self@.len(),
    {
        self.buffer.len()
    }

    /// The bytes written so far.
    pub fn out(self) -> (v: Vec<u8>)
        ensures
            v@ == self@,
    {
        self.buffer
    }
}

/// Encodes `value` into a fresh byte vector.
pub fn serialize<T: Serializable>(value: &T) -> (r: Vec<u8>)
    ensures
        r@ == T::spec_encode(value@),
{
    let mut stream = Stream::new();
    stream.append(value);
    proof {
        assert(Seq::<u8>::empty() + T::spec_encode(value@) =~= T::spec_encode(value@));
    }
    stream.out()
}

} // verus!
