use std::io::{Read, Seek, Write};
use std::sync::Arc;

use body_image::read_pos::{FileRange, PosRead, ReadPos, ReadSlice, SeekError, SeekFrom};
use tempfile::NamedTempFile;

type Handle = Arc<NamedTempFile>;

fn file_of(data: &[u8]) -> Handle {
    let mut f = NamedTempFile::new().unwrap();
    f.write_all(data).unwrap();
    f.flush().unwrap();
    Arc::new(f)
}

fn read_at(file: &Handle, range: FileRange, buf: &mut [u8]) -> usize {
    if range.len == 0 {
        return 0;
    }
    let mut f = &**file;
    f.seek(std::io::SeekFrom::Start(range.offset)).unwrap();
    f.read(&mut buf[..range.len]).unwrap()
}

fn read(r: &mut ReadPos<Handle>, buf: &mut [u8]) -> usize {
    let n = read_at(&r.file, r.next_read(buf.len()), buf);
    r.advance(n);
    n
}

fn read_exact(r: &mut ReadPos<Handle>, buf: &mut [u8]) {
    let mut done = 0;
    while done < buf.len() {
        let n = read(r, &mut buf[done..]);
        assert!(n > 0);
        done += n;
    }
}

fn slice_read(r: &mut ReadSlice<Handle>, buf: &mut [u8]) -> usize {
    let n = read_at(&r.file, r.next_read(buf.len()), buf);
    r.advance(n);
    n
}

fn slice_read_exact(r: &mut ReadSlice<Handle>, buf: &mut [u8]) {
    let mut done = 0;
    while done < buf.len() {
        let n = slice_read(r, &mut buf[done..]);
        assert!(n > 0);
        done += n;
    }
}

#[test]
fn test_seek() {
    let mut r1 = ReadPos::new(file_of(b"1234567890"), 10);
    let mut buf = [0u8; 5];

    let p = r1.seek(SeekFrom::Current(0)).unwrap();
    assert_eq!(0, p);
    let p = r1.seek(SeekFrom::Current(1)).unwrap();
    assert_eq!(1, p);
    read_exact(&mut r1, &mut buf);
    assert_eq!(&buf, b"23456");

    let p = r1.seek(SeekFrom::End(-5)).unwrap();
    assert_eq!(5, p);
    let p = r1.seek(SeekFrom::Current(0)).unwrap();
    assert_eq!(5, p);
    read_exact(&mut r1, &mut buf);
    assert_eq!(&buf, b"67890");
}

#[test]
fn test_with_buf_reader() {
    let mut r0 = ReadPos::new(file_of(b"1234567890"), 10);

    let p = r0.seek(SeekFrom::Start(1)).unwrap();
    assert_eq!(1, p);
    let mut ahead = vec![0u8; 0x2000];
    let n = read(&mut r0, &mut ahead);
    let mut buffered = &ahead[..n];
    let mut buf = [0u8; 5];
    buffered.read_exact(&mut buf).unwrap();
    assert_eq!(&buf, b"23456");

    let p = r0.seek(SeekFrom::Current(0)).unwrap();
    assert_eq!(10, p);

    let l = read(&mut r0, &mut buf);
    assert_eq!(0, l);
}

#[test]
fn test_interleaved() {
    let mut r1 = ReadPos::new(file_of(b"1234567890"), 10);

    let mut buf = [0u8; 5];
    read_exact(&mut r1, &mut buf);
    assert_eq!(&buf, b"12345");

    let mut r2 = r1.clone();
    read_exact(&mut r2, &mut buf);
    assert_eq!(&buf, b"12345");

    read_exact(&mut r1, &mut buf);
    assert_eq!(&buf, b"67890");

    read_exact(&mut r2, &mut buf);
    assert_eq!(&buf, b"67890");
}

#[test]
fn test_concurrent_seek_read() {
    let rule = b"1234567890";
    let f = file_of(rule);

    let mut readers = Vec::with_capacity(30);
    for i in 0..50 {
        let mut rpc = ReadPos::new(f.clone(), rule.len() as u64);
        let p = i % rule.len();
        rpc.seek(SeekFrom::Start(p as u64)).expect("seek");
        readers.push((p, rpc));
    }
    for (p, rpc) in readers.iter_mut() {
        let l = 5.min(rule.len() - *p);
        let mut buf = vec![0u8; l];
        read_exact(rpc, &mut buf);
        assert_eq!(&buf[..], &rule[*p..(*p + l)]);
    }
}

#[test]
fn test_slice_seek() {
    let mut r1 = ReadSlice::new(file_of(b"1234567890"), 0, 10);
    let mut buf = [0u8; 5];

    let p = r1.seek(SeekFrom::Current(0)).unwrap();
    assert_eq!(0, p);
    let p = r1.seek(SeekFrom::Current(1)).unwrap();
    assert_eq!(1, p);
    slice_read_exact(&mut r1, &mut buf);
    assert_eq!(&buf, b"23456");

    let p = r1.seek(SeekFrom::End(-5)).unwrap();
    assert_eq!(5, p);
    let p = r1.seek(SeekFrom::Current(0)).unwrap();
    assert_eq!(5, p);
    slice_read_exact(&mut r1, &mut buf);
    assert_eq!(&buf, b"67890");
}

#[test]
fn test_slice_seek_offset() {
    let r1 = ReadSlice::new(file_of(b"012345678901"), 1, 12);
    let mut r1 = r1.subslice(0, 10);

    let mut buf = [0u8; 5];
    let p = r1.seek(SeekFrom::Current(0)).unwrap();
    assert_eq!(0, p);
    let p = r1.seek(SeekFrom::Current(1)).unwrap();
    assert_eq!(1, p);
    slice_read_exact(&mut r1, &mut buf);
    assert_eq!(&buf, b"23456");

    let p = r1.seek(SeekFrom::End(-5)).unwrap();
    assert_eq!(5, p);
    let p = r1.seek(SeekFrom::Current(0)).unwrap();
    assert_eq!(5, p);
    slice_read_exact(&mut r1, &mut buf);
    assert_eq!(&buf, b"67890");
}

#[test]
fn test_slice_with_buf_reader() {
    let mut r0 = ReadSlice::new(file_of(b"01234567890"), 1, 11);

    let p = r0.seek(SeekFrom::Start(1)).unwrap();
    assert_eq!(1, p);
    let mut ahead = vec![0u8; 0x2000];
    let n = slice_read(&mut r0, &mut ahead);
    let mut buffered = &ahead[..n];
    let mut buf = [0u8; 5];
    buffered.read_exact(&mut buf).unwrap();
    assert_eq!(&buf, b"23456");

    let p = r0.seek(SeekFrom::Current(0)).unwrap();
    assert_eq!(10, p);

    let l = slice_read(&mut r0, &mut buf);
    assert_eq!(0, l);
}

fn is_send<T: Send>() -> bool { true }
fn is_sync<T: Sync>() -> bool { true }

#[test]
fn read_pos_test_send_sync() {
    assert!(is_send::<ReadPos<Handle>>());
    assert!(is_sync::<ReadPos<Handle>>());
    assert!(is_send::<ReadSlice<Handle>>());
    assert!(is_sync::<ReadSlice<Handle>>());
}

#[test]
fn seeks_out_of_range_are_refused() {
    let mut p = ReadPos::new((), 10);
    assert_eq!(p.seek(SeekFrom::Start(4)), Ok(4));
    assert_eq!(p.seek(SeekFrom::Current(-5)), Err(SeekError::NegativeAbsolute));
    assert_eq!(p.tell(), 4);
    assert_eq!(p.seek(SeekFrom::Start(u64::MAX)), Ok(u64::MAX));
    assert_eq!(p.seek(SeekFrom::Current(1)), Err(SeekError::Overflow));
    assert_eq!(p.tell(), u64::MAX);
    assert!(!p.is_empty());
    assert_eq!(p.len(), 10);

    let mut s = ReadSlice::new((), 5, 15);
    assert_eq!(s.seek(SeekFrom::End(-11)), Err(SeekError::Negative));
    assert_eq!(s.tell(), 0);
    assert_eq!(s.seek(SeekFrom::End(-16)), Err(SeekError::Negative));
    assert_eq!(s.seek(SeekFrom::Start(u64::MAX)), Err(SeekError::Overflow));
    assert_eq!(s.tell(), 0);
    assert_eq!(s.seek(SeekFrom::End(3)), Ok(13));
    assert_eq!(s.next_read(4), FileRange { offset: 18, len: 0 });
}

#[test]
fn slice_reads_are_clipped() {
    let mut s = ReadSlice::new((), 5, 15);
    assert_eq!((s.len(), s.is_empty()), (10, false));
    assert_eq!(s.next_read(4), FileRange { offset: 5, len: 4 });
    s.advance(4);
    assert_eq!(s.tell(), 4);
    assert_eq!(s.next_read(100), FileRange { offset: 9, len: 6 });
    assert_eq!(s.pread(3, 8), FileRange { offset: 13, len: 2 });
    assert_eq!(s.mem_map(), FileRange { offset: 5, len: 10 });
    let inner = s.subslice(2, 6);
    assert_eq!((inner.start, inner.pos, inner.end), (7, 7, 11));
    let p = ReadPos::new((), 10);
    assert_eq!(p.pread(3, 8), FileRange { offset: 8, len: 3 });
    let part = p.subslice(2, 6);
    assert_eq!((part.start, part.end), (2, 6));
}

#[test]
fn seek_error_messages() {
    assert_eq!(
        SeekError::NegativeAbsolute.message(),
        "Attempted seek to a negative absolute position"
    );
    assert_eq!(SeekError::Negative.message(), "Attempted seek to a negative position");
    assert_eq!(SeekError::Overflow.message(), "Attempted seek would overflow u64 position");
}
