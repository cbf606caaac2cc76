use std::io::{Read, Seek, SeekFrom, Write};
use std::sync::Arc;

use body_image::body::{BodyError, BodyImage, BodyPlan, BodyReader, BodySink, ExplodedImage, IoError, WriteBack};
use body_image::buf::Buffers;
use body_image::dialog::Dialog;
use body_image::read_from::{plan_body, ReadFrom, ReadStep};
use body_image::read_pos::ReadSlice;
use body_image::tune::{Tunables, Tuner};
use bytes::Bytes;
use tempfile::NamedTempFile;

type Handle = Arc<NamedTempFile>;
type Image = BodyImage<Handle, Bytes>;

/// A new file in the directory for temporary files.
fn new_file(tune: &Tunables) -> Option<Handle> {
    match tune.temp_dir() {
        Some(dir) => NamedTempFile::new_in(dir).ok().map(Arc::new),
        None => NamedTempFile::new().ok().map(Arc::new),
    }
}

fn append(file: &Handle, data: &[u8]) {
    let mut f = &**file;
    f.seek(SeekFrom::End(0)).unwrap();
    f.write_all(data).unwrap();
    f.flush().unwrap();
}

fn read_at(file: &Handle, offset: u64, len: usize) -> Vec<u8> {
    let mut f = &**file;
    f.seek(SeekFrom::Start(offset)).unwrap();
    let mut buf = vec![0u8; len];
    let n = f.read(&mut buf).unwrap();
    buf.truncate(n);
    buf
}

fn write_all(body: &mut BodySink<Handle>, data: &str) {
    if body.write_all(data.as_bytes()) {
        append(body.file().unwrap(), data.as_bytes());
        body.appended(data.as_bytes());
    }
}

fn write_buffers(file: &Handle, back: &WriteBack) {
    for i in 0..back.buffers().count() {
        append(file, back.buffers().part(i));
    }
}

/// Move a sink to a file. Returns whether that was possible.
fn write_back(body: &mut BodySink<Handle>, tune: &Tunables) -> bool {
    if let Some(back) = body.write_back() {
        match new_file(tune) {
            Some(file) => {
                write_buffers(&file, &back);
                body.written_back(back, file);
            }
            None => return false,
        }
    }
    true
}

fn with_fs(tune: &Tunables) -> BodySink<Handle> {
    BodySink::with_fs(new_file(tune).unwrap())
}

fn mem_map(body: &mut Image) {
    let map = body.mem_map().map(|r| Bytes::from(read_at(r.file, r.offset, r.len as usize)));
    if let Some(map) = map {
        body.mapped(map);
    }
}

fn read_slice(mut rs: ReadSlice<Handle>, out: &mut Vec<u8>) {
    loop {
        let range = rs.next_read(3);
        if range.len == 0 {
            break;
        }
        let data = read_at(&rs.file, range.offset, range.len);
        out.extend_from_slice(&data);
        rs.advance(data.len());
    }
}

fn read_to_end(body: &Image) -> Vec<u8> {
    let mut out = Vec::new();
    let mut reader = body.reader();
    if reader.read_to_end(&mut out).is_none() {
        match reader {
            BodyReader::FileSlice(rs) => read_slice(rs, &mut out),
            BodyReader::Mapped(m) => out.extend_from_slice(m),
            _ => panic!("in RAM?!"),
        }
    }
    out
}

fn read_to_string(body: &Image) -> String {
    String::from_utf8(read_to_end(body)).unwrap()
}

/// Read a body from an input.
fn read_from(mut src: &[u8], len_estimate: u64, tune: &Tunables) -> Result<Image, BodyError> {
    let mut rf: ReadFrom<Handle> = Image::read_from(len_estimate, tune);
    loop {
        rf = match rf.step(tune) {
            ReadStep::Read(n) => {
                let mut buf = vec![0u8; n];
                let n = src.read(&mut buf).unwrap();
                if n == 0 {
                    return Ok(rf.finish());
                }
                buf.truncate(n);
                rf.filled(Bytes::from(buf), tune)?
            }
            ReadStep::Open(bufs) => {
                let file = new_file(tune).unwrap();
                for i in 0..bufs.count() {
                    append(&file, bufs.part(i));
                }
                rf.opened(file)
            }
            ReadStep::Append(b) => {
                append(rf.file().unwrap(), b);
                rf.appended()
            }
        };
    }
}

fn hello_in_ram() -> BodySink<Handle> {
    let mut body = BodySink::with_ram_buffers(2);
    write_all(&mut body, "hello");
    write_all(&mut body, " ");
    write_all(&mut body, "world");
    body
}

fn is_send<T: Send>() -> bool { true }
fn is_sync<T: Sync>() -> bool { true }

#[test]
fn lib_test_send_sync() {
    assert!(is_send::<Image>());
    assert!(is_sync::<Image>());

    assert!(is_send::<Tunables>());
    assert!(is_sync::<Tunables>());

    assert!(is_send::<Dialog<Image>>());
    assert!(is_sync::<Dialog<Image>>());

    assert!(is_send::<BodyReader<'_, Handle, Bytes>>());
    assert!(is_sync::<BodyReader<'_, Handle, Bytes>>());
}

#[test]
fn test_sync_not_mmap() {
    assert!(is_sync::<Image>());
    assert!(is_sync::<Dialog<Image>>());
}

#[test]
fn test_empty_read() {
    let body = Image::empty();
    let obuf = read_to_end(&body);
    assert!(obuf.is_empty());
}

#[test]
fn test_body_empty_read() {
    let body = Image::empty();
    let obuf = read_to_end(&body);
    assert!(obuf.is_empty());
}

#[test]
fn test_contiguous_read() {
    let mut body = BodySink::with_ram_buffers(2);
    write_all(&mut body, "hello world");
    let body: Image = body.prepare();
    let obuf = read_to_string(&body);
    assert_eq!("hello world", &obuf[..]);
}

#[test]
fn test_body_contiguous_read() {
    let mut body = BodySink::with_ram_buffers(2);
    write_all(&mut body, "hello world");
    let body: Image = body.prepare();
    let obuf = read_to_string(&body);
    assert_eq!("hello world", &obuf[..]);
}

#[test]
fn test_scattered_read() {
    let body: Image = hello_in_ram().prepare();
    let obuf = read_to_string(&body);
    assert_eq!("hello world", &obuf[..]);
}

#[test]
fn test_body_scattered_read() {
    let body: Image = hello_in_ram().prepare();
    let obuf = read_to_string(&body);
    assert_eq!("hello world", &obuf[..]);
}

#[test]
fn test_scattered_read_clone() {
    let mut body: Image = hello_in_ram().prepare();
    let body_clone = body.clone();
    body.gather();

    let obuf = read_to_string(&body);
    assert_eq!("hello world", &obuf[..]);

    let obuf = read_to_string(&body_clone);
    assert_eq!("hello world", &obuf[..]);
}

#[test]
fn test_body_scattered_read_clone() {
    let mut body: Image = hello_in_ram().prepare();
    let body_clone = body.clone();
    body.gather();

    let obuf = read_to_string(&body);
    assert_eq!("hello world", &obuf[..]);

    let obuf = read_to_string(&body_clone);
    assert_eq!("hello world", &obuf[..]);
}

#[test]
fn test_scattered_gather() {
    let mut body: BodySink<Handle> = BodySink::with_ram_buffers(2);
    assert!(body.save(Bytes::from_static(b"hello")).is_none());
    assert!(body.save(Bytes::from_static(b" ")).is_none());
    assert!(body.save(Bytes::from_static(b"world")).is_none());
    let mut body: Image = body.prepare();
    body.gather();
    if let BodyReader::Contiguous(cursor) = body.reader() {
        let bslice = cursor.into_inner();
        assert_eq!(b"hello world", bslice);
    } else {
        panic!("not contiguous?!");
    }
}

#[test]
fn test_body_scattered_gather() {
    let mut body: BodySink<Handle> = BodySink::with_ram_buffers(2);
    assert!(body.save(Bytes::from_static(b"hello")).is_none());
    assert!(body.save(Bytes::from_static(b" ")).is_none());
    assert!(body.save(Bytes::from_static(b"world")).is_none());
    let mut body: Image = body.prepare();
    body.gather();
    if let BodyReader::Contiguous(cursor) = body.reader() {
        let bslice = cursor.into_inner();
        assert_eq!(b"hello world", bslice);
    } else {
        panic!("not contiguous?!");
    }
}

#[test]
fn test_read_from() {
    let tune = Tunables::new();
    let salutation = b"hello world";
    let body = read_from(salutation, 0, &tune).unwrap();
    let obuf = read_to_end(&body);
    assert_eq!(salutation, &obuf[..]);
}

#[test]
fn test_body_read_from() {
    let tune = Tunables::new();
    let salutation = b"hello world";
    let body = read_from(salutation, 0, &tune).unwrap();
    let obuf = read_to_end(&body);
    assert_eq!(salutation, &obuf[..]);
}

#[test]
fn test_read_from_too_long() {
    let tune = Tuner::new().set_max_body_ram(6).set_max_body(6).finish();
    let salutation = b"hello world";
    if let Err(e) = read_from(salutation, 0, &tune) {
        if let BodyError::BodyTooLong(l) = e {
            assert_eq!(l, salutation.len() as u64)
        } else {
            panic!("Other error: {}", e.message());
        }
    } else {
        panic!("Read from, too long, success!?");
    }
}

#[test]
fn test_body_read_from_too_long() {
    let tune = Tuner::new().set_max_body_ram(6).set_max_body(6).finish();
    let salutation = b"hello world";
    if let Err(e) = read_from(salutation, 0, &tune) {
        if let BodyError::BodyTooLong(l) = e {
            assert_eq!(l, salutation.len() as u64)
        } else {
            panic!("Other error: {}", e.message());
        }
    } else {
        panic!("Read from, too long, success!?");
    }
}

#[test]
fn test_fs_read() {
    let tune = Tunables::new();
    let mut body = with_fs(&tune);
    write_all(&mut body, "hello");
    write_all(&mut body, " ");
    write_all(&mut body, "world");
    let body: Image = body.prepare();
    let obuf = read_to_string(&body);
    assert_eq!("hello world", &obuf[..]);
}

#[test]
fn test_body_fs_read() {
    let tune = Tunables::new();
    let mut body = with_fs(&tune);
    write_all(&mut body, "hello");
    write_all(&mut body, " ");
    write_all(&mut body, "world");
    let body: Image = body.prepare();
    let obuf = read_to_string(&body);
    assert_eq!("hello world", &obuf[..]);
}

#[test]
fn test_fs_back_read() {
    let tune = Tunables::new();
    let mut body = hello_in_ram();
    assert!(write_back(&mut body, &tune));
    let body: Image = body.prepare();
    let obuf = read_to_string(&body);
    assert_eq!("hello world", &obuf[..]);
}

#[test]
fn test_body_fs_back_read() {
    let tune = Tunables::new();
    let mut body = hello_in_ram();
    assert!(write_back(&mut body, &tune));
    let body: Image = body.prepare();
    let obuf = read_to_string(&body);
    assert_eq!("hello world", &obuf[..]);
}

#[test]
fn test_w_back_w_read() {
    let tune = Tunables::new();
    let mut body = BodySink::with_ram_buffers(2);
    write_all(&mut body, "hello");
    assert!(write_back(&mut body, &tune));
    write_all(&mut body, " ");
    write_all(&mut body, "world");
    let body: Image = body.prepare();
    let obuf = read_to_string(&body);
    assert_eq!("hello world", &obuf[..]);
}

#[test]
fn test_body_w_back_w_read() {
    let tune = Tunables::new();
    let mut body = BodySink::with_ram_buffers(2);
    write_all(&mut body, "hello");
    assert!(write_back(&mut body, &tune));
    write_all(&mut body, " ");
    write_all(&mut body, "world");
    let body: Image = body.prepare();
    let obuf = read_to_string(&body);
    assert_eq!("hello world", &obuf[..]);
}

#[test]
fn test_fs_back_fail() {
    let tune = Tuner::new().set_temp_dir("./no-existe/").finish();
    let mut body = hello_in_ram();
    if !write_back(&mut body, &tune) {
        assert!(body.is_ram());
        assert_eq!(body.len(), 0);
    } else {
        panic!("write_back with bogus dir success?!");
    }
}

#[test]
fn test_body_fs_back_fail() {
    let tune = Tuner::new().set_temp_dir("./no-existe/").finish();
    let mut body = hello_in_ram();
    if !write_back(&mut body, &tune) {
        assert!(body.is_ram());
        assert_eq!(body.len(), 0);
    } else {
        panic!("write_back with bogus dir success?!");
    }
}

#[test]
fn test_fs_map_read() {
    let tune = Tunables::new();
    let mut body = with_fs(&tune);
    write_all(&mut body, "hello");
    write_all(&mut body, " ");
    write_all(&mut body, "world");
    let mut body: Image = body.prepare();
    mem_map(&mut body);
    assert!(body.is_mem_map());
    let obuf = read_to_string(&body);
    assert_eq!("hello world", &obuf[..]);
}

#[test]
fn test_body_fs_map_read() {
    let tune = Tunables::new();
    let mut body = with_fs(&tune);
    write_all(&mut body, "hello");
    write_all(&mut body, " ");
    write_all(&mut body, "world");
    let mut body: Image = body.prepare();
    mem_map(&mut body);
    assert!(body.is_mem_map());
    let obuf = read_to_string(&body);
    assert_eq!("hello world", &obuf[..]);
}

#[test]
fn test_fs_back_read_clone() {
    let tune = Tunables::new();
    let mut body = hello_in_ram();
    assert!(write_back(&mut body, &tune));
    let body: Image = body.prepare();

    let obuf = read_to_string(&body);
    assert_eq!("hello world", &obuf[..]);

    let body_clone_1 = body.clone();
    let body_clone_2 = body_clone_1.clone();

    let obuf = read_to_string(&body_clone_1);
    assert_eq!("hello world", &obuf[..]);

    let obuf = read_to_string(&body); // read original (prepared) body
    assert_eq!("hello world", &obuf[..]);

    let obuf = read_to_string(&body_clone_2);
    assert_eq!("hello world", &obuf[..]);
}

#[test]
fn test_body_fs_back_read_clone() {
    let tune = Tunables::new();
    let mut body = hello_in_ram();
    assert!(write_back(&mut body, &tune));
    let body: Image = body.prepare();

    let obuf = read_to_string(&body);
    assert_eq!("hello world", &obuf[..]);

    let body_clone_1 = body.clone();
    let body_clone_2 = body_clone_1.clone();

    let obuf = read_to_string(&body_clone_1);
    assert_eq!("hello world", &obuf[..]);

    let obuf = read_to_string(&body); // read original (prepared) body
    assert_eq!("hello world", &obuf[..]);

    let obuf = read_to_string(&body_clone_2);
    assert_eq!("hello world", &obuf[..]);
}

#[test]
fn test_fs_map_clone_shared() {
    let tune = Tunables::new();
    let mut body = hello_in_ram();
    assert!(write_back(&mut body, &tune));
    let mut body: Image = body.prepare();
    mem_map(&mut body);

    let ptr1 = if let BodyReader::Mapped(m) = body.reader() {
        assert_eq!(b"hello world", &m[..]);
        format!("{:p}", &m[..])
    } else {
        panic!("not mapped?!");
    };

    let body_clone = body.clone();

    let ptr2 = if let BodyReader::Mapped(m) = body_clone.reader() {
        assert_eq!(b"hello world", &m[..]);
        format!("{:p}", &m[..])
    } else {
        panic!("not mapped?!");
    };

    assert_eq!(ptr1, ptr2);
}

#[test]
fn test_body_fs_clone_shared() {
    let tune = Tunables::new();
    let mut body = hello_in_ram();
    assert!(write_back(&mut body, &tune));
    let mut body: Image = body.prepare();
    mem_map(&mut body);

    let ptr1 = if let BodyReader::Mapped(m) = body.reader() {
        assert_eq!(b"hello world", &m[..]);
        format!("{:p}", &m[..])
    } else {
        panic!("not mapped?!");
    };

    let body_clone = body.clone();

    let ptr2 = if let BodyReader::Mapped(m) = body_clone.reader() {
        assert_eq!(b"hello world", &m[..]);
        format!("{:p}", &m[..])
    } else {
        panic!("not mapped?!");
    };

    assert_eq!(ptr1, ptr2);
}

#[test]
fn test_fs_empty() {
    let tune = Tunables::new();
    let body = with_fs(&tune);
    let body: Image = body.prepare();
    assert!(body.is_empty());
}

#[test]
fn test_fs_map_empty() {
    let tune = Tunables::new();
    let body = with_fs(&tune);
    let mut body: Image = body.prepare();
    mem_map(&mut body);
    assert!(body.is_empty());
}

#[test]
fn test_body_fs_empty() {
    let tune = Tunables::new();
    let body = with_fs(&tune);
    let mut body: Image = body.prepare();
    assert!(body.is_empty());

    mem_map(&mut body);
    assert!(body.is_empty());
}

#[test]
fn sink_keeps_what_it_is_given() {
    let mut body: BodySink<Handle> = BodySink::with_ram(20_000);
    assert!(body.is_ram());
    assert!(body.is_empty());
    assert!(body.save(Bytes::new()).is_none());
    assert_eq!(body.len(), 0);
    assert!(body.save(Bytes::from_static(b"abc")).is_none());
    assert!(!body.write_all(b"de"));
    assert_eq!(body.len(), 5);
    let body: Image = body.prepare();
    assert_eq!(body.len(), 5);
    let mut out = vec![b'>'];
    assert_eq!(body.write_to(&mut out), Some(5));
    assert_eq!(out, b">abcde");
    match body.explode() {
        ExplodedImage::Ram(v) => assert_eq!(v, vec![Bytes::from_static(b"abc"), Bytes::from_static(b"de")]),
        _ => panic!("not in RAM"),
    }
}

#[test]
fn each_write_is_a_buffer() {
    let mut body = hello_in_ram();
    write_all(&mut body, "");
    let body: Image = body.prepare();
    let copy = body.clone();
    for image in [body, copy] {
        match image.explode() {
            ExplodedImage::Ram(v) => {
                assert_eq!(v, vec![Bytes::from("hello"), Bytes::from(" "), Bytes::from("world")])
            }
            _ => panic!("not in RAM"),
        }
    }
}

#[test]
fn nothing_is_left_after_the_end() {
    let mut body: Image = hello_in_ram().prepare();
    for _ in 0..2 {
        let mut out = vec![b'>'];
        let mut reader = body.reader();
        assert_eq!(reader.read_to_end(&mut out), Some(11));
        assert_eq!(reader.read_to_end(&mut out), Some(0));
        assert_eq!(out, b">hello world");
        body.gather();
    }
}

#[test]
fn sink_in_file_gives_bytes_back() {
    let tune = Tunables::new();
    let mut body = with_fs(&tune);
    assert!(!body.is_ram());
    assert!(body.save(Bytes::new()).is_none());
    assert_eq!(body.save(Bytes::from_static(b"abc")), Some(Bytes::from_static(b"abc")));
    assert_eq!(body.len(), 0);
    assert!(!body.write_all(b""));
    assert!(body.write_back().is_none());
    append(body.file().unwrap(), b"abc");
    body.appended(b"abc");
    assert_eq!(body.len(), 3);
    let body: Image = body.prepare();
    let mut out = Vec::new();
    assert_eq!(body.write_to(&mut out), None);
    match body.explode() {
        ExplodedImage::FsRead(rs) => {
            assert_eq!((rs.start, rs.pos, rs.end), (0, 0, 3));
            read_slice(rs, &mut out);
        }
        _ => panic!("not in a file"),
    }
    assert_eq!(out, b"abc");
}

#[test]
fn image_of_existing_file() {
    let tune = Tunables::new();
    let file = new_file(&tune).unwrap();
    append(&file, b"0123456789");
    let body: Image = BodyImage::from_file(file.clone(), 10);
    assert!(!body.is_ram());
    assert_eq!(read_to_string(&body), "0123456789");
    let body: Image = BodyImage::from_file(file.clone(), 0);
    assert!(body.is_ram());
    let mut body: Image = BodyImage::from_read_slice(ReadSlice::new(file.clone(), 2, 7));
    assert_eq!(body.len(), 5);
    assert_eq!(read_to_string(&body), "23456");
    mem_map(&mut body);
    assert_eq!(read_to_string(&body), "23456");
    match body.into_buffers() {
        Err(body) => assert!(body.is_mem_map()),
        Ok(_) => panic!("in RAM"),
    }
    let body: Image = BodyImage::from_read_slice(ReadSlice::new(file, 3, 3));
    assert!(body.is_ram() && body.is_empty());
}

#[test]
fn read_from_moves_to_file() {
    let tune = Tuner::new()
        .set_max_body_ram(10)
        .set_max_body(20)
        .set_buffer_size_ram(4)
        .set_buffer_size_fs(7)
        .finish();
    let body = read_from(b"0123456789", 0, &tune).unwrap();
    assert!(body.is_ram());
    assert_eq!(read_to_string(&body), "0123456789");
    let body = read_from(b"0123456789a", 0, &tune).unwrap();
    assert!(!body.is_ram());
    assert_eq!(read_to_string(&body), "0123456789a");
    // By estimate alone
    let body = read_from(b"012", 11, &tune).unwrap();
    assert!(!body.is_ram());
    assert_eq!(read_to_string(&body), "012");
    let body = read_from(b"", 11, &tune).unwrap();
    assert!(body.is_ram() && body.is_empty());
    let body = read_from(b"0123456789abcdefghij", 0, &tune).unwrap();
    assert_eq!(body.len(), 20);
    // Buffers of 4, 4, 4, 7 and 2 bytes
    match read_from(b"0123456789abcdefghijk", 0, &tune) {
        Err(BodyError::BodyTooLong(l)) => assert_eq!(l, 21),
        _ => panic!("should be too long"),
    }
    assert!(ReadFrom::<Handle>::is_filled(2048, 1025));
    assert!(!ReadFrom::<Handle>::is_filled(2048, 1024));
}

#[test]
fn planned_like_read() {
    let tune = Tuner::new()
        .set_max_body_ram(10)
        .set_max_body(20)
        .set_buffer_size_ram(4)
        .set_buffer_size_fs(7)
        .finish();
    let input = b"0123456789abcdefghijklmnop";
    for n in 0..input.len() + 1 {
        for estimate in [0, 10, 11] {
            let plan = plan_body(Bytes::copy_from_slice(&input[..n]), estimate, &tune);
            match (plan, read_from(&input[..n], estimate, &tune)) {
                (Ok(plan), Ok(body)) => {
                    assert_eq!(plan.len(), n as u64);
                    assert_eq!(body.len(), n as u64);
                    // An empty file is replaced by an empty body in RAM.
                    assert_eq!(plan.is_ram(), n <= 10 && estimate <= 10);
                    assert_eq!(body.is_ram(), n == 0 || plan.is_ram());
                    let file = new_file(&tune).unwrap();
                    let image: Image = match plan.into_image(file.clone()) {
                        Ok(image) => image,
                        Err(back) => {
                            write_buffers(&file, &back);
                            let mut sink = BodySink::empty();
                            sink.written_back(back, file);
                            sink.prepare()
                        }
                    };
                    assert_eq!(read_to_end(&image), &input[..n]);
                }
                (Err(BodyError::BodyTooLong(a)), Err(BodyError::BodyTooLong(b))) => {
                    assert!(n > 20);
                    assert_eq!(a, b);
                }
                _ => panic!("differ at {}", n),
            }
        }
    }
}

#[test]
fn plan_of_a_slice() {
    let tune = Tunables::new();
    let file = new_file(&tune).unwrap();
    append(&file, b"0123456789");
    let plan = BodyPlan::Slice { start: 4, end: 9 };
    assert_eq!(plan.len(), 5);
    assert!(!plan.is_empty() && !plan.is_ram());
    let image: Image = plan.into_image(file).ok().unwrap();
    assert_eq!(read_to_string(&image), "45678");
}

#[test]
fn buffers_in_order() {
    let mut bufs = Buffers::with_capacity(2);
    assert_eq!((bufs.len(), bufs.count()), (0, 0));
    bufs.push(Bytes::from_static(b"ab"));
    bufs.push(Bytes::new());
    bufs.push(Bytes::from_static(b"cde"));
    assert_eq!((bufs.len(), bufs.count()), (5, 2));
    assert_eq!(&bufs.part(1)[..], b"cde");
    assert_eq!(&bufs.gathered()[..], b"abcde");
    let copy = bufs.clone();
    assert_eq!(copy.into_parts().len(), 2);
    let body: Image = BodyImage::from_buffers(bufs);
    let mut out = vec![];
    if let BodyReader::Scattered(mut g) = body.reader() {
        assert_eq!(g.read(&mut out, 1), 1);
        assert_eq!(g.read(&mut out, 10), 1);
        assert_eq!(g.read(&mut out, 2), 2);
        assert_eq!(g.read_to_end(&mut out), 1);
        assert_eq!(g.read(&mut out, 10), 0);
    } else {
        panic!("not scattered");
    }
    assert_eq!(out, b"abcde");
}

#[test]
fn body_error_messages() {
    assert_eq!(
        BodyError::BodyTooLong(42).message(),
        "Body length of 42+ bytes exceeds Tunables::max_body"
    );
    assert_eq!(
        BodyError::Io(IoError::UnexpectedEof).message(),
        "Body I/O: failed to fill whole buffer"
    );
    let e = std::io::Error::new(std::io::ErrorKind::Other, "broken");
    assert_eq!(BodyError::Io(IoError::Outside(e)).message(), "Body I/O: broken");
}
