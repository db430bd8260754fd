use flasherd::chunk::LineChunker;

#[test]
fn lines_are_emitted_at_newlines() {
    let mut c = LineChunker::new();
    let out = c.push(&b"hello\nworld\n".to_vec());
    assert_eq!(out, vec![b"hello\n".to_vec(), b"world\n".to_vec()]);
    assert_eq!(c.finish(), None);
}

#[test]
fn partial_segment_is_kept_until_end_of_stream() {
    let mut c = LineChunker::new();
    let out = c.push(&b"hel".to_vec());
    assert!(out.is_empty());
    let out = c.push(&b"lo\nwor".to_vec());
    assert_eq!(out, vec![b"hello\n".to_vec()]);
    assert_eq!(c.finish(), Some(b"wor".to_vec()));
}

#[test]
fn concatenated_chunks_reproduce_the_stream() {
    let stream = b"alpha\n\nbeta\r\ngamma".to_vec();
    let mut c = LineChunker::new();
    let mut rebuilt: Vec<u8> = Vec::new();
    for piece in stream.chunks(4) {
        for line in c.push(&piece.to_vec()) {
            rebuilt.extend_from_slice(&line);
        }
    }
    if let Some(rest) = c.finish() {
        rebuilt.extend_from_slice(&rest);
    }
    assert_eq!(rebuilt, stream);
}

#[test]
fn empty_stream_emits_nothing() {
    let mut c = LineChunker::new();
    assert!(c.push(&Vec::new()).is_empty());
    assert_eq!(c.finish(), None);
}

#[test]
fn lone_newline_is_one_chunk() {
    let mut c = LineChunker::new();
    let out = c.push(&b"\n".to_vec());
    assert_eq!(out, vec![b"\n".to_vec()]);
    assert_eq!(c.finish(), None);
}
