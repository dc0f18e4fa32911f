use quicfs::body::{BodyWriter, FileBody, CHUNK_SIZE, WRITE_CHUNK_SIZE};

fn sample(len: usize) -> Vec<u8> {
    (0..len).map(|i| (i * 31 % 251) as u8).collect()
}

fn pieces(body: &FileBody) -> Vec<Vec<u8>> {
    let mut sent = Vec::new();
    let mut position = body.start();
    while let Some(chunk) = body.next_chunk(position) {
        sent.push(chunk.to_vec());
        position += chunk.len();
    }
    assert_eq!(position, body.end());
    sent
}

fn writes(offset: u64, chunks: &[&[u8]]) -> Vec<(u64, Vec<u8>)> {
    writes_by(BodyWriter::new(offset), chunks)
}

fn writes_by(mut writer: BodyWriter, chunks: &[&[u8]]) -> Vec<(u64, Vec<u8>)> {
    let mut out = Vec::new();
    for chunk in chunks {
        assert!(writer.has_room(chunk.len()));
        writer.receive(chunk);
        while let Some(write) = writer.next_write() {
            out.push((write.offset, write.data));
        }
    }
    assert!(writer.position_fits());
    if let Some(write) = writer.finish() {
        out.push((write.offset, write.data));
    }
    out
}

#[test]
fn sent_pieces_make_the_body() {
    for len in [0, 1, CHUNK_SIZE - 1, CHUNK_SIZE, CHUNK_SIZE + 1, 3 * CHUNK_SIZE + 5] {
        let data = sample(len);
        let body = FileBody::new(data.clone(), 0, len);
        assert_eq!(body.len(), len);
        let sent = pieces(&body);
        assert_eq!(sent.concat(), data);
        assert_eq!(sent.len(), (len + CHUNK_SIZE - 1) / CHUNK_SIZE);
        for (i, piece) in sent.iter().enumerate() {
            assert!(!piece.is_empty());
            assert!(i + 1 == sent.len() || piece.len() == CHUNK_SIZE);
        }
    }
}

#[test]
fn part_of_a_file_is_sent() {
    let body = FileBody::new(sample(100), 10, 30);
    assert_eq!(body.len(), 20);
    assert_eq!(pieces(&body), vec![sample(100)[10..30].to_vec()]);
    assert_eq!(body.get_chunk(12, 3), &sample(100)[12..15]);
}

#[test]
fn writes_make_the_body_however_it_comes() {
    let data = sample(2 * WRITE_CHUNK_SIZE + 77);
    for cut in [1, 1000, WRITE_CHUNK_SIZE, WRITE_CHUNK_SIZE + 1, data.len()] {
        let chunks: Vec<&[u8]> = data.chunks(cut).collect();
        let out = writes(500, &chunks);
        assert_eq!(out.len(), 3);
        assert_eq!(out[0].0, 500);
        assert_eq!(out[1].0, 500 + WRITE_CHUNK_SIZE as u64);
        assert_eq!(out[2].0, 500 + 2 * WRITE_CHUNK_SIZE as u64);
        assert_eq!(out[2].1.len(), 77);
        assert_eq!(out.into_iter().flat_map(|write| write.1).collect::<Vec<u8>>(), data);
    }
}

#[test]
fn empty_body_has_no_write() {
    assert_eq!(writes(5, &[]), vec![]);
    assert_eq!(writes(0, &[b"", b""]), vec![]);
    assert_eq!(writes(0, &[&sample(WRITE_CHUNK_SIZE)]).len(), 1);
    assert_eq!(writes(5, &[b"ab", b"", b"c"]), vec![(5, b"abc".to_vec())]);
}

#[test]
fn empty_body_of_a_new_file_is_an_empty_write() {
    let writes = |offset, chunks: &[&[u8]]| writes_by(BodyWriter::creating(offset), chunks);
    assert_eq!(writes(5, &[]), vec![(5, vec![])]);
    assert_eq!(writes(0, &[b"", b""]), vec![(0, vec![])]);
    assert_eq!(writes(u64::MAX, &[]), vec![(u64::MAX, vec![])]);
    assert_eq!(writes(0, &[&sample(WRITE_CHUNK_SIZE)]).len(), 1);
    assert_eq!(writes(5, &[b"ab", b"", b"c"]), vec![(5, b"abc".to_vec())]);
}

#[test]
fn received_bytes_are_counted() {
    let mut writer = BodyWriter::new(u64::MAX);
    assert_eq!(writer.received(), 0);
    writer.receive(b"abc");
    assert_eq!(writer.received(), 3);
    assert!(writer.position_fits());
    assert_eq!(writer.finish().unwrap().offset, u64::MAX);
}

#[test]
fn place_beyond_all_files_is_told() {
    let mut writer = BodyWriter::new(u64::MAX);
    writer.receive(&sample(WRITE_CHUNK_SIZE + 1));
    assert!(writer.position_fits());
    assert!(writer.next_write().is_some());
    assert!(!writer.position_fits());
}
