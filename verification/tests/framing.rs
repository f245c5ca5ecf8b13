use sockonsole::framing::decode_frame;
use sockonsole::framing::encode_batch;
use sockonsole::framing::push_chunk;
use sockonsole::framing::read_until_sequence;
use sockonsole::framing::sentinel_bytes;

const SENTINEL: &[u8] = b"\nEND_RESPONSE\n";

#[test]
fn sentinel_is_the_wire_marker() {
    assert_eq!(sentinel_bytes(), SENTINEL.to_vec());
}

#[test]
fn encode_appends_sentinel() {
    let framed = encode_batch(b"hi");
    assert_eq!(framed, b"hi\nEND_RESPONSE\n".to_vec());
}

#[test]
fn encode_empty_batch_is_bare_sentinel() {
    // The empty-batch policy: a frame is emitted even when nothing arrived.
    let framed = encode_batch(b"");
    assert_eq!(framed, SENTINEL.to_vec());
}

#[test]
fn round_trip_returns_original_bytes() {
    let batch: Vec<u8> = vec![0u8, 255u8, 104u8, 10u8, 0u8, 69u8, 78u8, 68u8];
    let framed = encode_batch(batch.as_slice());
    let decoded = decode_frame(framed.as_slice());
    assert_eq!(decoded, batch);
}

#[test]
fn round_trip_empty_batch() {
    let framed = encode_batch(b"");
    assert_eq!(decode_frame(framed.as_slice()), Vec::<u8>::new());
}

#[test]
fn decode_without_sentinel_yields_whole_buffer() {
    // End of stream before any sentinel: the whole buffer comes back.
    let decoded = decode_frame(b"partial output, no marker");
    assert_eq!(decoded, b"partial output, no marker".to_vec());
}

#[test]
fn read_until_stops_at_sentinel_across_chunks() {
    // The sentinel split across two reads is still found.
    let chunks: Vec<Vec<u8>> = vec![b"hi\nEND_".to_vec(), b"RESPONSE\n".to_vec()];
    let buf = read_until_sequence(&chunks, SENTINEL);
    assert_eq!(buf, b"hi\nEND_RESPONSE\n".to_vec());
    assert_eq!(decode_frame(buf.as_slice()), b"hi".to_vec());
}

#[test]
fn read_until_stops_before_later_chunks() {
    let chunks: Vec<Vec<u8>> = vec![
        b"one\nEND_RESPONSE\n".to_vec(),
        b"two\nEND_RESPONSE\n".to_vec(),
    ];
    let buf = read_until_sequence(&chunks, SENTINEL);
    assert_eq!(buf, b"one\nEND_RESPONSE\n".to_vec());
}

#[test]
fn read_until_eof_without_sentinel_yields_everything() {
    let chunks: Vec<Vec<u8>> = vec![b"no ".to_vec(), b"marker".to_vec()];
    let buf = read_until_sequence(&chunks, SENTINEL);
    assert_eq!(buf, b"no marker".to_vec());
}

#[test]
fn read_until_no_chunks_yields_empty() {
    let chunks: Vec<Vec<u8>> = Vec::new();
    assert_eq!(read_until_sequence(&chunks, SENTINEL), Vec::<u8>::new());
}

#[test]
fn batch_containing_sentinel_desynchronizes() {
    // Known protocol weakness: a batch that itself contains the sentinel
    // makes a streaming reader stop at that occurrence, and the rest of the
    // frame leaks into the next read.
    let batch = b"before\nEND_RESPONSE\nafter".to_vec();
    let framed = encode_batch(batch.as_slice());
    let (head, tail) = framed.split_at(20);
    let chunks: Vec<Vec<u8>> = vec![head.to_vec(), tail.to_vec()];
    let buf = read_until_sequence(&chunks, SENTINEL);
    assert_eq!(buf, head.to_vec());
    let decoded = decode_frame(buf.as_slice());
    assert_eq!(decoded, b"before".to_vec());
    assert_ne!(decoded, batch);
}

#[test]
fn push_chunk_reports_when_sentinel_complete() {
    let mut buf: Vec<u8> = Vec::new();
    assert!(!push_chunk(&mut buf, b"hi\nEND_", SENTINEL));
    assert_eq!(buf, b"hi\nEND_".to_vec());
    assert!(push_chunk(&mut buf, b"RESPONSE\n", SENTINEL));
    assert_eq!(buf, b"hi\nEND_RESPONSE\n".to_vec());
}
