use serialization::{deserialize, serialize, Bytes, CompactInteger, Error, Reader, Stream};

fn from_hex(s: &str) -> Vec<u8> {
    (0..s.len())
        .step_by(2)
        .map(|i| u8::from_str_radix(&s[i..i + 2], 16).unwrap())
        .collect()
}

fn patterned(len: usize) -> Vec<u8> {
    (0..len).map(|i| (i * 7 + 3) as u8).collect()
}

#[test]
fn test_bytes_deserialize() {
    let raw = vec![0x02, 0x01, 0x45];
    let expected: Bytes = Bytes::from_vec(from_hex("0145"));
    assert_eq!(expected, deserialize(&raw).unwrap());
}

#[test]
fn test_bytes_serialize() {
    let expected = vec![0x02, 0x01, 0x45];
    let bytes: Bytes = Bytes::from_vec(from_hex("0145"));
    assert_eq!(expected, serialize(&bytes));
}

#[test]
fn one_byte_buffer_gets_one_byte_prefix() {
    let bytes = Bytes::from_vec(vec![0x45]);
    assert_eq!(serialize(&bytes), vec![0x01, 0x45]);
}

#[test]
fn empty_buffer_round_trip() {
    let bytes = Bytes::new();
    let wire = serialize(&bytes);
    assert_eq!(wire, vec![0x00]);
    let back: Bytes = deserialize(&wire).unwrap();
    assert!(back.is_empty());
    assert_eq!(back, bytes);
}

#[test]
fn boundary_lengths_round_trip() {
    let cases: [(usize, usize); 6] = [(0, 1), (1, 1), (252, 1), (253, 3), (65535, 3), (65536, 5)];
    for (len, prefix) in cases {
        let bytes = Bytes::from_vec(patterned(len));
        let wire = serialize(&bytes);
        assert_eq!(wire.len(), prefix + len);
        let back: Bytes = deserialize(&wire).unwrap();
        assert_eq!(back.len(), len);
        assert_eq!(back, bytes);
    }
}

#[test]
fn buffer_prefix_bytes_at_boundaries() {
    assert_eq!(&serialize(&Bytes::from_vec(patterned(252)))[..1], &[0xfc]);
    assert_eq!(&serialize(&Bytes::from_vec(patterned(253)))[..3], &[0xfd, 0xfd, 0x00]);
    assert_eq!(&serialize(&Bytes::from_vec(patterned(65535)))[..3], &[0xfd, 0xff, 0xff]);
    assert_eq!(
        &serialize(&Bytes::from_vec(patterned(65536)))[..5],
        &[0xfe, 0x00, 0x00, 0x01, 0x00]
    );
}

#[test]
fn buffer_body_cut_short_fails() {
    let r: Result<Bytes, Error> = deserialize(&[0x03, 0x01, 0x02]);
    assert_eq!(r, Err(Error::UnexpectedEnd));
}

#[test]
fn buffer_prefix_cut_short_fails() {
    let r: Result<Bytes, Error> = deserialize(&[0xfd, 0x01]);
    assert_eq!(r, Err(Error::UnexpectedEnd));
    let r: Result<Bytes, Error> = deserialize(&[]);
    assert_eq!(r, Err(Error::UnexpectedEnd));
}

#[test]
fn buffer_length_past_input_fails_without_allocating() {
    let r: Result<Bytes, Error> = deserialize(&[0xff, 0xff, 0xff, 0xff, 0xff, 0xff, 0xff, 0xff, 0xff, 0x00]);
    assert_eq!(r, Err(Error::UnexpectedEnd));
}

#[test]
fn trailing_bytes_are_left_unread() {
    let back: Bytes = deserialize(&[0x01, 0x45, 0x99, 0x98]).unwrap();
    assert_eq!(back.as_slice(), &[0x45]);
}

#[test]
fn reader_reads_values_in_sequence() {
    let mut stream = Stream::new();
    stream.append(&Bytes::from_vec(vec![1, 2, 3]));
    stream.append(&Bytes::from_vec(vec![]));
    stream.append(&Bytes::from_vec(vec![9]));
    assert_eq!(stream.len(), 4 + 1 + 2);
    let wire = stream.out();
    let mut reader = Reader::new(&wire);
    let a: Bytes = reader.read().unwrap();
    let b: Bytes = reader.read().unwrap();
    let c: Bytes = reader.read().unwrap();
    assert_eq!(a.into_vec(), vec![1, 2, 3]);
    assert!(b.is_empty());
    assert_eq!(c.as_slice(), &[9]);
    assert!(reader.is_finished());
    let d: Result<Bytes, Error> = reader.read();
    assert_eq!(d, Err(Error::UnexpectedEnd));
}

#[test]
fn compact_integer_shortest_forms() {
    assert_eq!(serialize(&CompactInteger(0)), vec![0x00]);
    assert_eq!(serialize(&CompactInteger(0xfc)), vec![0xfc]);
    assert_eq!(serialize(&CompactInteger(0xfd)), vec![0xfd, 0xfd, 0x00]);
    assert_eq!(serialize(&CompactInteger(0xffff)), vec![0xfd, 0xff, 0xff]);
    assert_eq!(serialize(&CompactInteger(0x1_0000)), vec![0xfe, 0x00, 0x00, 0x01, 0x00]);
    assert_eq!(serialize(&CompactInteger(0xffff_ffff)), vec![0xfe, 0xff, 0xff, 0xff, 0xff]);
    assert_eq!(
        serialize(&CompactInteger(0x1_0000_0000)),
        vec![0xff, 0x00, 0x00, 0x00, 0x00, 0x01, 0x00, 0x00, 0x00]
    );
    assert_eq!(
        serialize(&CompactInteger(0x0807_0605_0403_0201)),
        vec![0xff, 0x01, 0x02, 0x03, 0x04, 0x05, 0x06, 0x07, 0x08]
    );
}

#[test]
fn compact_integer_round_trip() {
    for n in [0u64, 1, 0xfc, 0xfd, 0xfe, 0xffff, 0x1_0000, 0xffff_ffff, 0x1_0000_0000, u64::MAX] {
        let wire = serialize(&CompactInteger(n));
        assert_eq!(deserialize::<CompactInteger>(&wire), Ok(CompactInteger(n)));
    }
}

#[test]
fn compact_integer_longer_form_is_accepted() {
    assert_eq!(deserialize::<CompactInteger>(&[0xfd, 0x05, 0x00]), Ok(CompactInteger(5)));
    assert_eq!(
        deserialize::<CompactInteger>(&[0xff, 0x2a, 0, 0, 0, 0, 0, 0, 0]),
        Ok(CompactInteger(42))
    );
}

#[test]
fn compact_integer_cut_short_fails() {
    assert_eq!(deserialize::<CompactInteger>(&[]), Err(Error::UnexpectedEnd));
    assert_eq!(deserialize::<CompactInteger>(&[0xfe, 1, 2, 3]), Err(Error::UnexpectedEnd));
    assert_eq!(deserialize::<CompactInteger>(&[0xff, 1, 2, 3, 4, 5, 6, 7]), Err(Error::UnexpectedEnd));
}
