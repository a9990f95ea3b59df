use immeta::common::riff::{ChunkId, RiffListChunk, RiffReader};

fn n(v: u32) -> [u8; 4] {
    v.to_le_bytes()
}

fn build(parts: &[&[u8]]) -> Vec<u8> {
    let mut data = Vec::new();
    for p in parts {
        data.extend_from_slice(p);
    }
    data
}

fn check_next_chunk(cl: &mut RiffListChunk, id: ChunkId, len: u32, data: &[u8]) {
    let chunk = cl.next();
    let mut chunk = chunk.unwrap().unwrap();

    assert_eq!(chunk.chunk_id(), id);
    assert_eq!(chunk.len(), len);
    let contents = chunk.contents();
    assert_eq!(&*contents, data);
    assert!(!chunk.can_have_subchunks());
}

#[test]
fn test_invalid_header() {
    let data = b"XXXX\x04abcd".to_vec();

    let r = RiffReader::new(data);

    let root = r.root();
    assert!(root.is_err());
}

#[test]
fn test_flat_chunks() {
    let data = build(&[
        b"RIFF", &n(37), b"abcd",
        b"A   ", &n(4), b"1234",
        b"B   ", &n(5), b"56789",
    ]);

    let r = RiffReader::new(data);

    let root = r.root().unwrap();

    assert_eq!(root.chunk_id(), ChunkId(*b"RIFF"));
    assert_eq!(root.len(), 37);
    assert!(root.can_have_subchunks());

    let root = root.into_list();
    assert!(root.is_ok());
    let mut root = root.ok().unwrap().unwrap();

    assert_eq!(root.chunk_type(), ChunkId(*b"abcd"));

    check_next_chunk(&mut root, ChunkId(*b"A   "), 4, b"1234");
    check_next_chunk(&mut root, ChunkId(*b"B   "), 5, b"56789");

    assert!(root.next().is_none());
}

#[test]
fn test_nested_chunks() {
    let data = build(&[
        b"RIFF", &n(77), b"abcd",
        b"A   ", &n(1), b"z",
        b"LIST", &n(56), b"wxyz",
            b" B  ", &n(3), b"123",
            b"LIST", &n(22), b"hi  ",
                b"  C ", &n(0),
                b"   D", &n(2), b"op",
            b"E   ", &n(3), b"fuz",
    ]);

    let r = RiffReader::new(data);

    let root = r.root().unwrap();

    assert_eq!(root.chunk_id(), ChunkId(*b"RIFF"));
    assert_eq!(root.len(), 77);
    assert!(root.can_have_subchunks());

    let root = root.into_list();
    assert!(root.is_ok());
    let mut root = root.ok().unwrap().unwrap();

    assert_eq!(root.chunk_type(), ChunkId(*b"abcd"));

    check_next_chunk(&mut root, ChunkId(*b"A   "), 1, b"z");

    {
        let chunk = root.next().unwrap().unwrap();
        assert_eq!(chunk.chunk_id(), ChunkId(*b"LIST"));
        assert_eq!(chunk.len(), 56);
        assert!(chunk.can_have_subchunks());

        let chunk = chunk.into_list();
        assert!(chunk.is_ok());
        let mut chunk = chunk.ok().unwrap().unwrap();

        check_next_chunk(&mut chunk, ChunkId(*b" B  "), 3, b"123");

        {
            let sublist = chunk.next().unwrap().unwrap();
            assert_eq!(sublist.chunk_id(), ChunkId(*b"LIST"));
            assert_eq!(sublist.len(), 22);
            assert!(sublist.can_have_subchunks());

            let sublist = sublist.into_list();
            assert!(sublist.is_ok());
            let mut sublist = sublist.ok().unwrap().unwrap();

            check_next_chunk(&mut sublist, ChunkId(*b"  C "), 0, b"");
            check_next_chunk(&mut sublist, ChunkId(*b"   D"), 2, b"op");
        }

        check_next_chunk(&mut chunk, ChunkId(*b"E   "), 3, b"fuz");

        assert!(chunk.next().is_none());
    }

    assert!(root.next().is_none());
}

#[test]
fn test_skip_chunk_data() {
    let data = build(&[
        b"RIFF", &n(77), b"abcd",
        b"A   ", &n(10), b"abcdefghij",
        b" B  ", &n(12), b"123456789012",
        b"  C ", &n(8), b"ABCDEFGH",
    ]);

    let r = RiffReader::new(data);

    let root = r.root().unwrap();
    let mut root = root.into_list().ok().unwrap().unwrap();

    {
        let mut chunk = root.next().unwrap().unwrap();
        assert_eq!(chunk.chunk_id(), ChunkId(*b"A   "));
        assert_eq!(chunk.len(), 10);
        assert_eq!(&chunk.contents()[..5], b"abcde");
    }

    {
        let chunk = root.next().unwrap().unwrap();
        assert_eq!(chunk.chunk_id(), ChunkId(*b" B  "));
        assert_eq!(chunk.len(), 12);
    }

    {
        let mut chunk = root.next().unwrap().unwrap();
        assert_eq!(chunk.chunk_id(), ChunkId(*b"  C "));
        assert_eq!(chunk.len(), 8);
        assert_eq!(chunk.contents(), b"ABCDEFGH".to_vec());
    }

    assert!(root.next().is_none());
}

#[test]
fn test_tainted_chunk_cannot_become_list() {
    // A LIST chunk whose content was read may no longer be entered.
    let data = build(&[b"RIFF", &n(16), b"abcd", b"LIST", &n(4), b"wxyz"]);

    let r = RiffReader::new(data);
    let root = r.root().unwrap();
    let mut list = root.into_list().ok().unwrap().unwrap();

    let mut chunk = list.next().unwrap().unwrap();
    assert_eq!(chunk.chunk_id(), ChunkId(*b"LIST"));
    assert!(chunk.can_have_subchunks());
    let _ = chunk.contents();
    assert!(!chunk.can_have_subchunks());
    let back = chunk.into_list();
    assert!(back.is_err());
    let chunk = back.err().unwrap();
    assert_eq!(chunk.chunk_id(), ChunkId(*b"LIST"));
}

#[test]
fn test_chunk_id_as_str() {
    let id = ChunkId(*b"RIFF");
    assert_eq!(id.as_str(), Some("RIFF"));
    assert_eq!(id.as_bytes(), b"RIFF");
    let bad = ChunkId([0xff, 0xfe, 0x80, 0x81]);
    assert_eq!(bad.as_str(), None);
}

#[test]
fn test_truncated_sibling_header() {
    // Five stray bytes where the next sibling header should be.
    let data = build(&[b"RIFF", &n(17), b"abcd", b"A   ", &n(1), b"z", b"BCDEF"]);

    let r = RiffReader::new(data);
    let root = r.root().unwrap();
    let mut list = root.into_list().ok().unwrap().unwrap();

    check_next_chunk(&mut list, ChunkId(*b"A   "), 1, b"z");
    let bad = list.next();
    assert!(bad.unwrap().is_err());
}
