use bytes::Bytes;
use iroh_common::bytes_reader::BytesReader;

#[test]
fn reads_in_chunks_of_the_given_capacity() {
    let mut r = BytesReader::new(Bytes::from_static(b"hello world"));
    assert_eq!(r.read_chunk(4), Bytes::from_static(b"hell"));
    assert_eq!(r.read_chunk(4), Bytes::from_static(b"o wo"));
    assert_eq!(r.read_chunk(4), Bytes::from_static(b"rld"));
    assert_eq!(r.read_chunk(4), Bytes::new());
}

#[test]
fn exhausted_reader_hands_out_nothing() {
    let mut r = BytesReader::new(Bytes::from(vec![1u8, 2, 3]));
    assert_eq!(r.read_chunk(10), Bytes::from(vec![1u8, 2, 3]));
    assert_eq!(r.read_chunk(10), Bytes::new());
    assert_eq!(r.read_chunk(10), Bytes::new());
}

#[test]
fn zero_capacity_reads_nothing_and_does_not_move() {
    let mut r = BytesReader::new(Bytes::from_static(b"abc"));
    assert_eq!(r.read_chunk(0), Bytes::new());
    assert_eq!(r.read_chunk(2), Bytes::from_static(b"ab"));
}

#[test]
fn empty_buffer_reads_nothing() {
    let mut r = BytesReader::new(Bytes::new());
    assert_eq!(r.read_chunk(8), Bytes::new());
}

#[test]
fn two_reads_give_what_one_larger_read_gives() {
    let data = b"0123456789";
    let mut a = BytesReader::new(Bytes::from_static(data));
    let mut first = a.read_chunk(3).to_vec();
    first.extend_from_slice(&a.read_chunk(4));
    let mut b = BytesReader::new(Bytes::from_static(data));
    assert_eq!(first, b.read_chunk(7).to_vec());
    assert_eq!(a.read_chunk(100), b.read_chunk(100));
}

#[test]
fn reading_everything_gives_back_the_buffer() {
    let data: Vec<u8> = (0u8..=200).collect();
    let mut r = BytesReader::new(Bytes::from(data.clone()));
    let mut out = Vec::new();
    loop {
        let chunk = r.read_chunk(7);
        if chunk.is_empty() {
            break;
        }
        out.extend_from_slice(&chunk);
    }
    assert_eq!(out, data);
}
