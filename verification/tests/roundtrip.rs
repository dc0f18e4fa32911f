use quicfs::body::{BodyWriter, FileBody};
use quicfs::http::{
    handle_request, plan_range, start_read, start_write, written_reply, RangePlan, Route,
    WriteStart,
};
use quicfs::request::{create_file, read_file, write_file, Request};

const URL: &str = "https://localhost:4433";

fn headers(request: &Request) -> http::HeaderMap {
    let mut map = http::HeaderMap::new();
    for (name, value) in &request.headers {
        map.append(
            http::HeaderName::from_bytes(name.as_bytes()).unwrap(),
            http::HeaderValue::from_str(value).unwrap(),
        );
    }
    map
}

fn serve_write(disk: &mut Option<Vec<u8>>, request: &Request, body: &[u8], piece: usize) -> u16 {
    assert_eq!(handle_request(&request.method, &request.path), Route::WriteFile);
    let (offset, expected, creates) = match start_write(&request.path, &headers(request)) {
        WriteStart::Write { offset, expected, creates, .. } => (offset, expected, creates),
        start => panic!("{start:?}"),
    };
    let mut put = |at: u64, data: &[u8]| {
        let end = at as usize + data.len();
        let file = disk.get_or_insert_with(Vec::new);
        if data.is_empty() {
            return;
        }
        if file.len() < end {
            file.resize(end, 0);
        }
        file[at as usize..end].copy_from_slice(data);
    };
    let mut writer =
        if creates { BodyWriter::creating(offset) } else { BodyWriter::new(offset) };
    for chunk in body.chunks(piece) {
        writer.receive(chunk);
        while let Some(write) = writer.next_write() {
            put(write.offset, &write.data);
        }
    }
    let received = writer.received();
    if let Some(write) = writer.finish() {
        put(write.offset, &write.data);
    }
    written_reply(expected, received).status
}

fn serve_read(file: &[u8], request: &Request) -> Vec<u8> {
    assert_eq!(handle_request(&request.method, &request.path), Route::ReadFile);
    let range = start_read(&request.path, &headers(request)).range;
    let (start, end) = match plan_range(range, Ok(file.len() as u64)) {
        RangePlan::Part { start, end, length } => {
            assert_eq!(length, end - start + 1);
            (start as usize, end as usize + 1)
        }
        plan => panic!("{plan:?}"),
    };
    let body = FileBody::new(file.to_vec(), start, end);
    let mut out = Vec::new();
    let mut position = body.start();
    while let Some(chunk) = body.next_chunk(position) {
        out.extend_from_slice(chunk);
        position += chunk.len();
    }
    out
}

#[test]
fn read_gives_back_write() {
    let contents: Vec<u8> = (0..200_000u32).map(|i| (i % 253) as u8).collect();
    for piece in [1000, 65536, 200_000] {
        let mut disk = Some(b"before".to_vec());
        let request = write_file(URL, "/a", 10, contents.len()).unwrap();
        assert_eq!(serve_write(&mut disk, &request, &contents, piece), 200);
        let file = disk.unwrap();
        assert_eq!(file.len(), 200_010);
        assert_eq!(&file[..10], b"before\0\0\0\0");
        let request = read_file(URL, "/a", 10, 200_000).unwrap();
        assert_eq!(serve_read(&file, &request), contents);
        let request = read_file(URL, "/a", 100_000, 1_000_000).unwrap();
        assert_eq!(serve_read(&file, &request), &contents[99_990..]);
    }
}

#[test]
fn short_body_is_refused_after_it_was_written() {
    let mut disk = None;
    let request = write_file(URL, "/a", 0, 10).unwrap();
    assert_eq!(serve_write(&mut disk, &request, b"abc", 10), 400);
    assert_eq!(disk.unwrap(), b"abc");
}

#[test]
fn creation_makes_an_empty_file() {
    let request = create_file(URL, "new.txt").unwrap();
    let mut disk = None;
    assert_eq!(serve_write(&mut disk, &request, b"", 10), 200);
    assert_eq!(disk, Some(vec![]));
    let mut disk = Some(b"known".to_vec());
    assert_eq!(serve_write(&mut disk, &request, b"", 10), 200);
    assert_eq!(disk, Some(b"known".to_vec()));
}

#[test]
fn write_without_a_range_starts_at_the_front() {
    let mut request = write_file(URL, "/a.txt", 0, 3).unwrap();
    request.headers.truncate(1);
    let mut disk = Some(b"0123456789".to_vec());
    assert_eq!(serve_write(&mut disk, &request, b"abc", 10), 200);
    assert_eq!(disk.unwrap(), b"abc3456789");
}

#[test]
fn refused_write_makes_no_file() {
    let request = write_file(URL, "/new", 0, 5).unwrap();
    let mut disk = None;
    assert_eq!(serve_write(&mut disk, &request, b"", 10), 400);
    assert_eq!(disk, None);
}
