use std::convert::TryFrom;
use std::sync::Arc;

use body_image::barc::compress::{
    BrotliCompressStrategy, CompressStrategy, EncodeWrapper, GzipCompressStrategy, GzipWriteStrategy,
    NoCompressStrategy, PlainWriteStrategy, WriteStrategy,
};
use body_image::barc::convert::{join_encodings, parse_encoding, parse_encodings, DialogConvertError};
use body_image::barc::head::{
    parse_hex, read_record_head, write_record_head, BarcError, Compression, Malformed, RecordHead, RecordType,
    V2_HEAD_SIZE, V2_MAX_HBLOCK, V2_MAX_RECORD, V2_MAX_REQ_BODY,
};
use body_image::barc::reader::BarcReader;
use body_image::barc::record::{
    hname_meta_method, hname_meta_res_decoded, hname_meta_res_status, hname_meta_res_version, hname_meta_url,
    MetaRecorded, Record, RecordedType,
};
use body_image::barc::writer::{record_fits, write_body, write_headers, BarcWriter};
use body_image::body::{BodyError, BodyImage, BodyPlan, BodyReader, IoError};
use body_image::buf::Buffers;
use body_image::dialog::{Dialog, Encoding, Method, Recorded, RequestRecorded, Url, Version, MAX_URL};
use body_image::futio::buf::Region;
use body_image::headers::{BlockError, HeaderError};
use body_image::tune::{Tunables, Tuner};
use bytes::Bytes;
use http::header::{HeaderMap, HeaderName, HeaderValue, AGE, CONTENT_TYPE, REFERER, VIA};
use memmap::{Mmap, MmapMut};
use olio::mem::MemHandle;

/// A file in memory.
struct BarcFile {
    data: Vec<u8>,
}

impl BarcFile {
    fn new() -> BarcFile {
        BarcFile { data: Vec::new() }
    }

    fn writer(&self) -> BarcWriter {
        BarcWriter::new(self.data.len() as u64)
    }

    /// Write a record, and return its offset.
    fn write<S: CompressStrategy>(
        &mut self,
        writer: &mut BarcWriter,
        rec: &Record<Buffers>,
        strategy: &S,
    ) -> Result<u64, BarcError> {
        assert!(record_fits(rec, true) && record_fits(rec, false));
        let plan = writer.write(rec, strategy)?.unwrap();
        assert_eq!(plan.start, self.data.len() as u64);
        self.data.extend_from_slice(&plan.reserve);
        assert_eq!(plan.payload_offset(), self.data.len() as u64);
        self.data.extend_from_slice(&plan.payload);
        let start = plan.start as usize;
        self.data[start..start + plan.head.len()].copy_from_slice(&plan.head);
        assert_eq!(writer.end, self.data.len() as u64);
        Ok(plan.start)
    }

    fn read(&self, reader: &mut BarcReader, tune: &Tunables) -> Result<Option<Record<BodyPlan>>, BarcError> {
        reader.read(&self.data, tune)
    }

    fn body(&self, plan: &BodyPlan) -> Vec<u8> {
        match plan {
            BodyPlan::Ram(b) | BodyPlan::Fs(b) => b.gathered().to_vec(),
            BodyPlan::Slice { start, end } => self.data[*start as usize..*end as usize].to_vec(),
        }
    }
}

fn buffers(data: &[u8]) -> Buffers {
    let mut b = Buffers::with_capacity(1);
    b.push(Bytes::copy_from_slice(data));
    b
}

fn headers(list: &[(&str, &str)]) -> HeaderMap {
    let mut map = HeaderMap::new();
    for (n, v) in list {
        map.append(
            HeaderName::from_bytes(n.as_bytes()).unwrap(),
            HeaderValue::from_bytes(v.as_bytes()).unwrap(),
        );
    }
    map
}

fn example_body() -> Vec<u8> {
    let mut body = b"<!doctype html>\n<html>\n".to_vec();
    while body.len() < 1270 - 8 {
        body.push(if body.len() % 61 == 0 { b'\n' } else { b'.' });
    }
    body.extend_from_slice(b"</html>\n");
    body
}

/// A dialog with a web server, decoded.
fn example() -> BarcFile {
    let rec = Record {
        rec_type: RecordType::Dialog,
        meta: headers(&[
            ("url", "http://example.com/"),
            ("method", "GET"),
            ("response-version", "HTTP/1.1"),
            ("response-status", "200 OK"),
            ("response-decoded", "gzip, identity"),
        ]),
        req_headers: headers(&[
            ("accept", "text/html, application/xhtml+xml, application/xml;q=0.9, */*;q=0.8"),
            ("accept-encoding", "br, gzip, deflate"),
            ("accept-language", "en"),
            ("user-agent", "Mozilla/5.0 (compatible; body-image)"),
        ]),
        req_body: buffers(b""),
        res_headers: headers(&[
            ("accept-ranges", "bytes"),
            ("cache-control", "max-age=604800"),
            ("content-encoding", "gzip"),
            ("content-length", "606"),
            ("content-type", "text/html"),
            ("date", "Fri, 20 Apr 2018 19:28:02 GMT"),
            ("etag", "\"1541025663+gzip\""),
            ("expires", "Fri, 27 Apr 2018 19:28:02 GMT"),
            ("server", "ECS (sjc/4E44)"),
            ("vary", "Accept-Encoding"),
            ("x-cache", "HIT"),
        ]),
        res_body: buffers(&example_body()),
    };
    let mut file = BarcFile::new();
    let mut writer = file.writer();
    file.write(&mut writer, &rec, &NoCompressStrategy::default()).unwrap();
    file
}

/// A dialog whose response has no body.
fn no_body_204() -> BarcFile {
    let rec = Record {
        meta: headers(&[
            ("url", "http://www.google.com/gen_204"),
            ("method", "GET"),
            ("response-version", "HTTP/1.1"),
            ("response-status", "204 No Content"),
        ]),
        req_headers: headers(&[
            ("accept", "*/*"),
            ("accept-encoding", "br, gzip, deflate"),
            ("accept-language", "en"),
            ("user-agent", "Mozilla/5.0"),
        ]),
        res_headers: headers(&[
            ("cache-control", "private"),
            ("content-length", "0"),
            ("content-type", "text/html; charset=UTF-8"),
            ("date", "Fri, 20 Apr 2018 19:28:02 GMT"),
            ("p3p", "CP=\"none\""),
            ("server", "gws"),
            ("set-cookie", "a=b"),
            ("x-frame-options", "SAMEORIGIN"),
            ("x-xss-protection", "1; mode=block"),
        ]),
        ..Record::default()
    };
    let mut file = BarcFile::new();
    let mut writer = file.writer();
    file.write(&mut writer, &rec, &NoCompressStrategy::default()).unwrap();
    file
}

/// A file with nothing but a reserved head.
fn reserved() -> BarcFile {
    let mut data = Vec::new();
    write_record_head(&mut data, &RecordHead::reserved());
    BarcFile { data }
}

fn write_read_small<S: CompressStrategy>(strategy: &S) {
    let mut bfile = BarcFile::new();

    let req_body_str = "REQUEST BODY";
    let res_body_str = "RESPONSE BODY";

    let rec_type = RecordType::Dialog;
    let mut meta = HeaderMap::new();
    meta.insert(AGE, "0".parse().unwrap());

    let mut req_headers = HeaderMap::new();
    req_headers.insert(REFERER, "http:://other.com".parse().unwrap());
    let req_body = buffers(req_body_str.as_bytes());

    let mut res_headers = HeaderMap::new();
    res_headers.insert(VIA, "test".parse().unwrap());
    let res_body = buffers(res_body_str.as_bytes());

    let mut writer = bfile.writer();
    let rec = Record { rec_type, meta, req_headers, req_body, res_headers, res_body };
    bfile.write(&mut writer, &rec, strategy).unwrap();

    let tune = Tunables::new();
    let mut reader = BarcReader::new();
    let record = bfile.read(&mut reader, &tune).unwrap().unwrap();

    assert_eq!(record.rec_type, RecordType::Dialog);
    assert_eq!(record.meta.len(), 1);
    assert_eq!(record.req_headers.len(), 1);
    assert_eq!(record.req_body.len(), req_body_str.len() as u64);
    assert_eq!(record.res_headers.len(), 1);
    assert_eq!(record.res_body.len(), res_body_str.len() as u64);

    assert_eq!(record.meta, rec.meta);
    assert_eq!(record.req_headers, rec.req_headers);
    assert_eq!(bfile.body(&record.req_body), req_body_str.as_bytes());
    assert_eq!(record.res_headers, rec.res_headers);
    assert_eq!(bfile.body(&record.res_body), res_body_str.as_bytes());
    assert_eq!(reader.offset(), bfile.data.len() as u64);

    let record = bfile.read(&mut reader, &tune).unwrap();
    assert!(record.is_none());
}

fn write_read_empty_record<S: CompressStrategy>(strategy: &S) {
    let mut bfile = BarcFile::new();

    let mut writer = bfile.writer();
    bfile.write(&mut writer, &Record::default(), strategy).unwrap();

    let tune = Tunables::new();
    let mut reader = BarcReader::new();
    let record = bfile.read(&mut reader, &tune).unwrap().unwrap();

    assert_eq!(record.rec_type, RecordType::Dialog);
    assert_eq!(record.meta.len(), 0);
    assert_eq!(record.req_headers.len(), 0);
    assert_eq!(record.req_body.len(), 0);
    assert_eq!(record.res_headers.len(), 0);
    assert_eq!(record.res_body.len(), 0);

    let record = bfile.read(&mut reader, &tune).unwrap();
    assert!(record.is_none());
}

fn write_read_large<S: CompressStrategy>(strategy: &S) {
    let mut bfile = BarcFile::new();
    let mut writer = bfile.writer();

    let lorem_ipsum = "Lorem ipsum dolor sit amet, consectetur adipiscing elit, \
            sed do eiusmod tempor incididunt ut labore et dolore magna \
            aliqua. Ut enim ad minim veniam, quis nostrud exercitation \
            ullamco laboris nisi ut aliquip ex ea commodo \
            consequat. Duis aute irure dolor in reprehenderit in \
            voluptate velit esse cillum dolore eu fugiat nulla \
            pariatur. Excepteur sint occaecat cupidatat non proident, \
            sunt in culpa qui officia deserunt mollit anim id est \
            laborum. ";

    let req_reps = 500;
    let res_reps = 1_000;

    let mut req_body = Buffers::with_capacity(req_reps);
    for _ in 0..req_reps {
        req_body.push(Bytes::from_static(lorem_ipsum.as_bytes()));
    }

    let mut res_body = Buffers::with_capacity(res_reps);
    for _ in 0..res_reps {
        res_body.push(Bytes::from_static(lorem_ipsum.as_bytes()));
    }

    bfile.write(&mut writer, &Record { req_body, res_body, ..Record::default() }, strategy).unwrap();

    let tune = Tunables::new();
    let mut reader = BarcReader::new();
    let record = bfile.read(&mut reader, &tune).unwrap().unwrap();

    assert_eq!(record.rec_type, RecordType::Dialog);
    assert_eq!(record.meta.len(), 0);
    assert_eq!(record.req_headers.len(), 0);
    assert_eq!(record.req_body.len(), (lorem_ipsum.len() * req_reps) as u64);
    assert_eq!(record.res_headers.len(), 0);
    assert_eq!(record.res_body.len(), (lorem_ipsum.len() * res_reps) as u64);
    assert_eq!(bfile.body(&record.res_body), lorem_ipsum.repeat(res_reps).as_bytes());

    let record = bfile.read(&mut reader, &tune).unwrap();
    assert!(record.is_none());
}

#[test]
fn lib_test_write_read_small() {
    write_read_small(&NoCompressStrategy::default());
}

#[test]
fn lib_test_write_read_small_gzip() {
    write_read_small(&GzipCompressStrategy::default().set_min_len(0));
}

#[test]
fn test_write_read_small_brotli() {
    write_read_small(&BrotliCompressStrategy::default().set_min_len(0));
}

#[test]
fn lib_test_write_read_empty_record() {
    write_read_empty_record(&NoCompressStrategy::default());
}

#[test]
fn lib_test_write_read_empty_record_gzip() {
    write_read_empty_record(&GzipCompressStrategy::default().set_min_len(0));
}

#[test]
fn test_write_read_empty_record_brotli() {
    write_read_empty_record(&BrotliCompressStrategy::default().set_min_len(0));
}

#[test]
fn lib_test_write_read_large() {
    write_read_large(&NoCompressStrategy::default());
}

#[test]
fn lib_test_write_read_large_gzip() {
    write_read_large(&GzipCompressStrategy::default());
}

#[test]
fn test_write_read_large_gzip_0() {
    write_read_large(&GzipCompressStrategy::default().set_compression_level(0));
}

#[test]
fn test_write_read_large_brotli() {
    write_read_large(&BrotliCompressStrategy::default());
}

fn write_read_parallel() {
    let mut bfile = BarcFile::new();
    let res_body_str = "RESPONSE BODY";

    // Establish reader.
    let tune = Tunables::new();
    let mut reader = BarcReader::new();
    let record = bfile.read(&mut reader, &tune).unwrap();
    assert!(record.is_none());

    // Write record with new writer
    let mut writer = bfile.writer();
    let res_body = buffers(res_body_str.as_bytes());

    let offset = bfile
        .write(&mut writer, &Record { res_body, ..Record::default() }, &NoCompressStrategy::default())
        .unwrap();
    assert_eq!(offset, 0);
    reader.seek(offset);

    let record = bfile.read(&mut reader, &tune).unwrap().unwrap();

    assert_eq!(record.rec_type, RecordType::Dialog);
    assert_eq!(record.meta.len(), 0);
    assert_eq!(record.req_headers.len(), 0);
    assert_eq!(record.req_body.len(), 0);
    assert_eq!(record.res_headers.len(), 0);
    assert_eq!(record.res_body.len(), res_body_str.len() as u64);

    let record = bfile.read(&mut reader, &tune).unwrap();
    assert!(record.is_none());

    // Write another, empty
    bfile.write(&mut writer, &Record::default(), &NoCompressStrategy::default()).unwrap();

    let record = bfile.read(&mut reader, &tune).unwrap().unwrap();
    assert_eq!(record.rec_type, RecordType::Dialog);
    assert_eq!(record.res_body.len(), 0);

    let record = bfile.read(&mut reader, &tune).unwrap();
    assert!(record.is_none());
}

#[test]
fn lib_test_write_read_parallel() {
    write_read_parallel();
}

#[test]
fn barc_test_write_read_parallel() {
    write_read_parallel();
}

fn read_sample() {
    let tune = Tunables::new();
    let bfile = example();
    let mut reader = BarcReader::new();
    let record = bfile.read(&mut reader, &tune).unwrap().unwrap();

    assert_eq!(record.rec_type, RecordType::Dialog);
    assert_eq!(record.meta.len(), 5);
    assert_eq!(record.req_headers.len(), 4);
    assert!(record.req_body.is_empty());
    assert_eq!(record.res_headers.len(), 11);

    assert!(record.res_body.is_ram());
    let buf = bfile.body(&record.res_body);
    assert_eq!(buf.len(), 1270);
    assert_eq!(&buf[0..15], b"<!doctype html>");
    assert_eq!(&buf[(buf.len() - 8)..], b"</html>\n");

    let record = bfile.read(&mut reader, &tune).unwrap();
    assert!(record.is_none());
}

#[test]
fn lib_test_read_sample() {
    read_sample();
}

#[test]
fn barc_test_read_sample() {
    read_sample();
}

fn convert(bfile: &BarcFile) {
    let tune = Tunables::new();
    let rc1 = bfile.read(&mut BarcReader::new(), &tune).unwrap().unwrap();
    let again = bfile.read(&mut BarcReader::new(), &tune).unwrap().unwrap();

    let dl = Dialog::try_from(again).unwrap();
    let rc2 = Record::try_from(dl).unwrap();
    assert_eq!(rc1.rec_type, rc2.rec_type);
    assert_eq!(rc1.meta, rc2.meta);
    assert_eq!(rc1.req_headers, rc2.req_headers);
    assert_eq!(rc1.req_body.len(), rc2.req_body.len());
    assert_eq!(rc1.res_headers, rc2.res_headers);
    assert_eq!(rc1.res_body.len(), rc2.res_body.len());
}

#[test]
fn test_record_convert_dialog() {
    convert(&example());
}

#[test]
fn test_record_convert_dialog_204() {
    convert(&no_body_204());
}

fn read_sample_larger() {
    let tune = Tuner::new()
        .set_max_body_ram(1024) // < 1270 expected length
        .finish();
    let bfile = example();
    let mut reader = BarcReader::new();
    let record = bfile.read(&mut reader, &tune).unwrap().unwrap();
    let next = bfile.read(&mut reader, &tune).unwrap();
    assert!(next.is_none());

    assert!(!record.res_body.is_ram());
    let buf = bfile.body(&record.res_body);
    assert_eq!(buf.len(), 1270);
    assert_eq!(&buf[0..15], b"<!doctype html>");
    assert_eq!(&buf[(buf.len() - 8)..], b"</html>\n");
}

#[test]
fn test_read_sample_larger() {
    read_sample_larger();
}

fn read_sample_mapped() {
    let tune = Tuner::new()
        .set_max_body_ram(1024) // < 1270 expected length
        .finish();
    let bfile = example();
    let mut reader = BarcReader::new();
    let record = bfile.read(&mut reader, &tune).unwrap().unwrap();
    let next = bfile.read(&mut reader, &tune).unwrap();
    assert!(next.is_none());

    let file = Arc::new(bfile.data.clone());
    let mut image: BodyImage<Arc<Vec<u8>>, MemHandle<Mmap>> = match record.res_body.into_image(file) {
        Ok(image) => image,
        Err(_) => panic!("not in the file"),
    };
    assert!(!image.is_ram() && !image.is_mem_map());
    let request = image.mem_map().unwrap();
    let (from, len) = (request.offset as usize, request.len as usize);
    let mut map = MmapMut::map_anon(len).unwrap();
    map.copy_from_slice(&request.file[from..from + len]);
    image.mapped(MemHandle::new(map.make_read_only().unwrap()));

    assert!(!image.is_ram());
    assert!(image.is_mem_map());
    assert_eq!(image.len(), 1270);
    let buf = match image.reader() {
        BodyReader::Mapped(m) => m.region().to_vec(),
        _ => panic!("not mapped"),
    };
    assert_eq!(buf.len(), 1270);
    assert_eq!(&buf[0..15], b"<!doctype html>");
    assert_eq!(&buf[(buf.len() - 8)..], b"</html>\n");
}

#[test]
fn lib_test_read_sample_mapped() {
    read_sample_mapped();
}

#[test]
fn barc_test_read_sample_mapped() {
    read_sample_mapped();
}

fn read_empty_file() {
    let tune = Tunables::new();
    let bfile = BarcFile::new();
    let mut reader = BarcReader::new();
    let record = bfile.read(&mut reader, &tune).unwrap();
    assert!(record.is_none());

    // Shouldn't have moved
    let record = bfile.read(&mut reader, &tune).unwrap();
    assert!(record.is_none());
    assert_eq!(reader.offset(), 0);
}

#[test]
fn lib_test_read_empty_file() {
    read_empty_file();
}

#[test]
fn barc_test_read_empty_file() {
    read_empty_file();
}

fn read_over_reserved() {
    let tune = Tunables::new();
    let bfile = reserved();
    let mut reader = BarcReader::new();
    let record = bfile.read(&mut reader, &tune).unwrap();
    assert!(record.is_none());

    // Should seek back to do it again
    let record = bfile.read(&mut reader, &tune).unwrap();
    assert!(record.is_none());
}

#[test]
fn lib_test_read_over_reserved() {
    read_over_reserved();
}

#[test]
fn barc_test_read_over_reserved() {
    read_over_reserved();
}

fn read_short_record_head() {
    let tune = Tunables::new();
    let bfile = reserved();
    let mut reader = BarcReader::new();

    // Seek to bad position
    reader.seek(1);

    if let Err(e) = bfile.read(&mut reader, &tune) {
        if let BarcError::ReadIncompleteRecHead(l) = e {
            assert_eq!(l, V2_HEAD_SIZE - 1);
            let em = e.message();
            assert!(em.contains("Incomplete"), "{}", em)
        } else {
            panic!("Other error: {}", e.message());
        }
    } else {
        panic!("Should not succeed!");
    }
}

#[test]
fn lib_test_read_short_record_head() {
    read_short_record_head();
}

#[test]
fn barc_test_read_short_record_head() {
    read_short_record_head();
}

fn read_bad_record_head() {
    let tune = Tunables::new();
    let bfile = example();
    let mut reader = BarcReader::new();

    // Seek to bad position
    reader.seek(1);

    if let Err(e) = bfile.read(&mut reader, &tune) {
        if let BarcError::ReadInvalidRecHead = e {
            assert!(true);
        } else {
            panic!("Other error: {}", e.message());
        }
    } else {
        panic!("Should not succeed!");
    }
}

#[test]
fn lib_test_read_bad_record_head() {
    read_bad_record_head();
}

#[test]
fn barc_test_read_bad_record_head() {
    read_bad_record_head();
}

#[test]
fn test_read_truncated() {
    let tune = Tunables::new();
    let mut bfile = example();
    let half = bfile.data.len() / 2;
    bfile.data.truncate(half);
    let mut reader = BarcReader::new();
    if let Err(e) = bfile.read(&mut reader, &tune) {
        if let BarcError::Io(ioe) = e {
            assert!(matches!(ioe, IoError::UnexpectedEof));
        } else {
            panic!("Other error type {:?}", e);
        }
    } else {
        panic!("Should not succeed!");
    }
    assert_eq!(reader.offset(), 0);
}

fn read_204_no_body() {
    let tune = Tunables::new();
    let bfile = no_body_204();
    let mut reader = BarcReader::new();
    let record = bfile.read(&mut reader, &tune).unwrap().unwrap();

    assert_eq!(record.rec_type, RecordType::Dialog);
    assert_eq!(record.meta.len(), 4);
    assert_eq!(record.req_headers.len(), 4);
    assert!(record.req_body.is_empty());
    assert_eq!(record.res_headers.len(), 9);

    assert!(record.res_body.is_empty());
}

#[test]
fn lib_test_read_204_no_body() {
    read_204_no_body();
}

#[test]
fn barc_test_read_204_no_body() {
    read_204_no_body();
}

#[test]
fn barc_test_write_read_small() {
    write_read_small(&NoCompressStrategy::default());
}

#[test]
fn barc_test_write_read_small_gzip() {
    write_read_small(&GzipCompressStrategy::default().set_min_len(0));
}

#[test]
fn barc_test_write_read_empty_record() {
    write_read_empty_record(&NoCompressStrategy::default());
}

#[test]
fn barc_test_write_read_empty_record_gzip() {
    write_read_empty_record(&GzipCompressStrategy::default().set_min_len(0));
}

#[test]
fn barc_test_write_read_large() {
    write_read_large(&NoCompressStrategy::default());
}

#[test]
fn barc_test_write_read_large_gzip() {
    write_read_large(&GzipCompressStrategy::default().set_min_len(8 * 1024));
}

#[test]
fn strategies_by_length() {
    let strategy = GzipWriteStrategy::default();
    assert_eq!(strategy.wrap(8 * 1024 - 1).mode(), Compression::Plain);
    assert_eq!(strategy.wrap(8 * 1024).mode(), Compression::Gzip);
    assert_eq!(PlainWriteStrategy::default().wrap(u64::MAX).mode(), Compression::Plain);
}

#[test]
fn head_bytes_are_fixed() {
    let head = RecordHead {
        len: 0x1a2b,
        rec_type: RecordType::Dialog,
        compress: Compression::Gzip,
        meta: 0x12,
        req_h: 0,
        req_b: 0xabc,
        res_h: 0xfffff,
    };
    let mut out = Vec::new();
    write_record_head(&mut out, &head);
    assert_eq!(
        &out[..],
        &b"BARC2 000000001a2b DZ 00012 00000 0000000abc fffff\r\n\r\n"[..]
    );
    assert_eq!(out.len(), V2_HEAD_SIZE);
    let back = read_record_head(&out).unwrap().unwrap();
    assert_eq!(
        (back.len, back.meta, back.req_h, back.req_b, back.res_h),
        (0x1a2b, 0x12, 0, 0xabc, 0xfffff)
    );
    assert_eq!((back.rec_type, back.compress), (RecordType::Dialog, Compression::Gzip));
    assert_eq!((V2_MAX_RECORD, V2_MAX_HBLOCK, V2_MAX_REQ_BODY), ((1 << 48) - 1, (1 << 20) - 1, (1 << 40) - 1));
    assert_eq!(&reserved().data[..], &b"BARC2 000000000000 RP 00000 00000 0000000000 00000\r\n\r\n"[..]);
}

fn read_bytes(data: &[u8]) -> BarcError {
    BarcReader::new().read(data, &Tunables::new()).err().unwrap()
}

#[test]
fn malformed_files() {
    assert!(matches!(
        read_bytes(b"BARC2 000000001a2b XP 00000 00000 0000000000 00000\r\n\r\n"),
        BarcError::UnknownRecordType(b'X')
    ));
    assert!(matches!(
        read_bytes(b"BARC2 000000001a2b DX 00000 00000 0000000000 00000\r\n\r\n"),
        BarcError::UnknownCompression(b'X')
    ));
    assert!(matches!(
        read_bytes(b"BARC2 00000000zzzz DP 00000 00000 0000000000 00000\r\n\r\n"),
        BarcError::ReadInvalidRecHeadHex(b'z')
    ));
    assert!(matches!(
        read_bytes(b"BARC2 000000000002 DP 00002 00000 0000000000 00000\r\n\r\n\r\n"),
        BarcError::Malformed(Malformed::TooShort)
    ));
    assert!(matches!(
        read_bytes(b"BARC2 000000000001 DP 00008 00000 0000000000 00000\r\n\r\na: b\r\n\r\n"),
        BarcError::Malformed(Malformed::TooLong)
    ));
    assert!(matches!(
        read_bytes(b"BARC2 000000000008 DP 00008 00000 0000000000 00000\r\n\r\n a: b\r\n\r"),
        BarcError::InvalidHeader(HeaderError::Block(BlockError::InvalidName))
    ));
    assert!(matches!(
        read_bytes(b"BARC2 000000000008 DZ 00004 00000 0000000000 00000\r\n\r\nnot gzip"),
        BarcError::Io(_)
    ));
}

/// A compressed record that is cut off after some of its decoded bytes.
fn cut_record(raw: &[u8], meta: usize, req_h: usize, req_b: u64, res_h: usize, cut: usize) -> Vec<u8> {
    // At level 0 all is stored in one block, after two heads of 15 bytes in all
    let stored = body_image::codec::gzip(0, raw).unwrap();
    let stored = &stored[..15 + cut];
    let head = RecordHead {
        len: stored.len() as u64,
        rec_type: RecordType::Dialog,
        compress: Compression::Gzip,
        meta,
        req_h,
        req_b,
        res_h,
    };
    let mut out = Vec::new();
    write_record_head(&mut out, &head);
    out.extend_from_slice(stored);
    out
}

#[test]
fn parts_before_a_fault_are_read() {
    let mut raw = b" a: b\r\nc: d\r\n0123456789 e: f\r\n".to_vec();
    raw.resize(100, b'.');
    let invalid = |e: BarcError| {
        matches!(e, BarcError::InvalidHeader(HeaderError::Block(BlockError::InvalidName)))
    };
    // What is wrong with a block is found before a fault after it
    assert!(invalid(read_bytes(&cut_record(&raw, 7, 6, 10, 7, 7))));
    assert!(invalid(read_bytes(&cut_record(&raw, 7, 6, 10, 7, 50))));
    raw.remove(0);
    assert!(invalid(read_bytes(&cut_record(&raw, 6, 6, 10, 7, 50))));
    assert!(invalid(read_bytes(&cut_record(&raw, 6, 7, 9, 7, 50))));
    // A fault in a part before the response body, and one in the body
    for cut in [0, 5, 11, 12, 20, 28] {
        assert!(matches!(read_bytes(&cut_record(&raw, 6, 6, 10, 7, cut)), BarcError::Io(IoError::Outside(_))));
    }
    raw.remove(22);
    for cut in [28, 50] {
        assert!(matches!(
            read_bytes(&cut_record(&raw, 6, 6, 10, 6, cut)),
            BarcError::Body(BodyError::Io(IoError::Outside(_)))
        ));
    }
    assert!(matches!(
        read_bytes(&cut_record(&raw, 0, 0, 0, 0, 0)),
        BarcError::Body(BodyError::Io(IoError::Outside(_)))
    ));
    // Too long already before the fault
    let tune = Tuner::new().set_max_body_ram(10).set_max_body(10).set_buffer_size_ram(4).set_buffer_size_fs(4).finish();
    assert!(matches!(
        BarcReader::new().read(&cut_record(&raw, 6, 6, 10, 6, 80), &tune),
        Err(BarcError::Body(BodyError::BodyTooLong(_)))
    ));
}

#[test]
fn names_are_written_as_they_are_held() {
    // A map takes a long static name as it is, and holds a byte that no name has
    // as zero
    let name: &'static str = "x23456789 123456789 123456789 123456789 123456789 123456789 123456789 ";
    assert_eq!(name.len(), 70);
    let mut map = HeaderMap::new();
    map.insert(name, HeaderValue::from_static("v"));
    let mut out = Vec::new();
    let n = write_headers(&mut out, true, &map);
    assert_eq!(n, out.len());
    assert!(out.ends_with(b": v\r\n\r\n"));
    let rec = Record { meta: map, ..Record::default() };
    let mut bfile = BarcFile::new();
    let mut writer = bfile.writer();
    bfile.write(&mut writer, &rec, &NoCompressStrategy::default()).unwrap();
    assert!(matches!(
        bfile.read(&mut BarcReader::new(), &Tunables::new()),
        Err(BarcError::InvalidHeader(HeaderError::Block(BlockError::InvalidName)))
    ));
}

#[test]
fn hex_of_heads() {
    assert_eq!(parse_hex(b"0ff9").unwrap(), 0xff9);
    assert_eq!(parse_hex(b"").unwrap(), 0);
    assert!(matches!(parse_hex(b"0g"), Err(BarcError::ReadInvalidRecHeadHex(103))));
    assert!(matches!(parse_hex(b"F"), Err(BarcError::ReadInvalidRecHeadHex(70))));
}

#[test]
fn compressed_parts_come_back() {
    let rec = || Record {
        meta: headers(&[("a", "b"), ("a", "c"), ("empty", "")]),
        req_headers: headers(&[("x-req", "1")]),
        req_body: buffers(&[7u8; 5000]),
        res_headers: headers(&[("content-type", "text/plain")]),
        res_body: buffers(&[b'r'; 9000]),
        ..Record::default()
    };
    let tune = Tuner::new().set_max_body_ram(6000).set_max_body(10_000).finish();
    let mut bfile = BarcFile::new();
    let mut writer = bfile.writer();
    bfile.write(&mut writer, &rec(), &GzipCompressStrategy::default()).unwrap();
    let second = bfile.write(&mut writer, &rec(), &BrotliCompressStrategy::default()).unwrap();
    bfile.write(&mut writer, &rec(), &NoCompressStrategy::default()).unwrap();
    // Much shorter than the parts
    assert!(second < 2000);
    let mut reader = BarcReader::new();
    for _ in 0..3 {
        let got = bfile.read(&mut reader, &tune).unwrap().unwrap();
        assert_eq!(got.meta, rec().meta);
        assert_eq!(got.req_headers, rec().req_headers);
        assert_eq!(got.res_headers, rec().res_headers);
        assert_eq!(bfile.body(&got.req_body), vec![7u8; 5000]);
        assert_eq!(bfile.body(&got.res_body), vec![b'r'; 9000]);
        assert!(got.req_body.is_ram());
        assert!(!got.res_body.is_ram());
    }
    assert!(bfile.read(&mut reader, &tune).unwrap().is_none());
    // Too long for a body, unless it is left in the file
    let tune = Tuner::new().set_max_body_ram(100).set_max_body(8999).finish();
    let mut reader = BarcReader::new();
    assert!(matches!(
        bfile.read(&mut reader, &tune),
        Err(BarcError::Body(BodyError::BodyTooLong(9000)))
    ));
    reader.seek(second);
    assert!(bfile.read(&mut reader, &tune).is_err());
}

#[test]
fn parts_that_do_not_fit() {
    let long = "x".repeat(V2_MAX_HBLOCK);
    let rec = Record { meta: headers(&[("a", &long)]), ..Record::default() };
    assert!(!record_fits(&rec, true));
    assert!(!record_fits(&rec, false));
    assert!(record_fits(&Record::default(), true));
}

#[test]
fn blocks_of_headers_and_bodies() {
    let mut out = Vec::new();
    assert_eq!(write_headers(&mut out, true, &headers(&[("a", "1"), ("b", "2"), ("a", "3")])), 20);
    assert_eq!(&out[..], &b"a: 1\r\na: 3\r\nb: 2\r\n\r\n"[..]);
    assert_eq!(write_headers(&mut out, true, &HeaderMap::new()), 0);
    let mut out = Vec::new();
    assert_eq!(write_headers(&mut out, false, &headers(&[("a", "1")])), 6);
    assert_eq!(write_body(&mut out, true, &buffers(b"xyz")), 5);
    assert_eq!(write_body(&mut out, false, &buffers(b"uv")), 2);
    assert_eq!(write_body(&mut out, true, &buffers(b"")), 0);
    assert_eq!(&out[..], &b"a: 1\r\nxyz\r\nuv"[..]);
}

#[test]
fn encoders() {
    for level in [0, 6, 9] {
        let mut w = EncodeWrapper::gzip(level);
        w.as_write().extend_from_slice(&[b'a'; 1000]);
        assert_eq!(w.mode(), Compression::Gzip);
        let out = w.finish().unwrap();
        assert_ne!(out, vec![b'a'; 1000]);
        assert_eq!(body_image::codec::gunzip(&out, u64::MAX).unwrap(), vec![b'a'; 1000]);
    }
    let mut w = EncodeWrapper::brotli(5);
    w.as_write().extend_from_slice(&[b'a'; 1000]);
    let out = w.finish().unwrap();
    assert!(out.len() < 100);
    assert_eq!(body_image::barc::compress::decode(Compression::Brotli, &out, u64::MAX).unwrap(), vec![b'a'; 1000]);
    let mut w = EncodeWrapper::plain();
    w.as_write().extend_from_slice(b"abc");
    assert_eq!(w.finish().unwrap(), b"abc");
}

fn meta_record(meta: &[(&str, &str)]) -> Record<Buffers> {
    Record { meta: headers(meta), ..Record::default() }
}

#[test]
fn records_that_are_no_dialogs() {
    let all = [
        ("url", "http://a.b/c"),
        ("method", "PUT"),
        ("response-version", "HTTP/1.0"),
        ("response-status", "404 Not Found"),
        ("response-decoded", "chunked, gzip , identity"),
    ];
    let dl = Dialog::try_from(meta_record(&all)).unwrap();
    assert_eq!((dl.url().as_str(), dl.method().as_str()), ("http://a.b/c", "PUT"));
    assert_eq!((dl.res_version(), dl.res_status()), (Version::Http10, 404));
    assert_eq!(dl.res_decoded(), &vec![Encoding::Chunked, Encoding::Gzip, Encoding::Identity]);
    assert_eq!(dl.rec_type(), RecordType::Dialog);

    let without = |i: usize| {
        let mut list = all.to_vec();
        list.remove(i);
        Dialog::try_from(meta_record(&list)).err()
    };
    let with = |i: usize, v: &'static str| {
        let mut list = all.to_vec();
        list[i].1 = v;
        Dialog::try_from(meta_record(&list)).err()
    };
    let message = |e: Option<DialogConvertError>| e.unwrap().message();
    assert_eq!(message(without(0)), "No url meta header found");
    assert_eq!(message(without(1)), "No method meta header found");
    assert_eq!(message(without(2)), "No response-version meta header found");
    assert_eq!(message(without(3)), "No response-status meta header found");
    assert!(without(4).is_none());
    assert_eq!(message(with(0, "http:// a")), "Invalid URI: invalid uri character");
    assert_eq!(message(with(1, "G T")), "Invalid HTTP Method: invalid HTTP method");
    assert_eq!(message(with(2, "HTTP/1.2")), "Invalid HTTP Version: HTTP/1.2");
    assert_eq!(message(with(2, "HTTP/3.0")), "Invalid HTTP Version: HTTP/3.0");
    assert_eq!(message(with(3, "20")), "The response-status meta header is malformed");
    assert_eq!(message(with(3, "0200 OK")), "Invalid HTTP status code: invalid status code");
    assert_eq!(message(with(4, "gzip, x")), "Invalid response-decoded header value: x");
    assert!(with(3, "200 OK").is_none());
}

#[test]
fn dialogs_become_records() {
    let dl = Dialog::try_from(meta_record(&[
        ("url", "https://x.y:80/z?q"),
        ("method", "GET"),
        ("response-version", "HTTP/2.0"),
        ("response-status", "599 anything"),
    ]))
    .unwrap();
    let rec = Record::try_from(dl).unwrap();
    assert_eq!(rec.meta().get(hname_meta_url()).unwrap(), "https://x.y:80/z?q");
    assert_eq!(rec.meta().get(hname_meta_method()).unwrap(), "GET");
    assert_eq!(rec.meta().get(hname_meta_res_version()).unwrap(), "HTTP/2.0");
    assert_eq!(rec.meta().get(hname_meta_res_status()).unwrap(), "599 <unknown status code>");
    assert!(rec.meta().get(hname_meta_res_decoded()).is_none());
    assert_eq!(rec.rec_type(), RecordType::Dialog);
    assert_eq!(rec.req_body().len(), 0);
    assert_eq!(rec.res_body().len(), 0);
    assert!(rec.req_headers().is_empty() && rec.res_headers().is_empty());
}

#[test]
fn dialogs_come_back() {
    for (url, text) in [
        ("HTTP://a.b", "http://a.b/"),
        ("https://u:p%20@h:1?q#f", "https://u:p%20@h:1/?q"),
        ("ftp://h/p?a?b", "ftp://h/p?a?b"),
        ("/p{\"}?x=|y|#z", "/p{\"}?x=|y|"),
        ("h:80", "h:80"),
        ("*", "*"),
    ] {
        for version in ["HTTP/0.9", "HTTP/1.0", "HTTP/1.1", "HTTP/2.0"] {
            let dl = Dialog::try_from(meta_record(&[
                ("url", url),
                ("method", "x!Y"),
                ("response-version", version),
                ("response-status", "404 Not Found"),
                ("response-decoded", "chunked, br, identity"),
            ]))
            .unwrap();
            assert_eq!((dl.url().as_str(), dl.method().as_str()), (text, "x!Y"));
            let rec = Record::try_from(dl).unwrap();
            let meta = rec.meta.clone();
            let dl = Dialog::try_from(rec).unwrap();
            assert_eq!((dl.url().as_str(), dl.method().as_str()), (text, "x!Y"));
            assert_eq!((dl.res_version().text(), dl.res_status()), (version, 404));
            assert_eq!(dl.res_decoded(), &vec![Encoding::Chunked, Encoding::Brotli, Encoding::Identity]);
            assert_eq!(Record::try_from(dl).unwrap().meta, meta);
        }
    }
}

#[test]
fn methods_and_urls() {
    assert_eq!(Method::from_bytes(b"GET").unwrap().clone().as_str(), "GET");
    assert!(Method::from_bytes(b"").is_err());
    assert!(Method::from_bytes(b"G(T").is_err());
    assert_eq!(Url::from_bytes(b"http://a").unwrap().clone().as_str(), "http://a/");
    assert!(Url::from_bytes(b"").is_err());
    assert!(Url::from_bytes(b"http:// a").is_err());
    assert!(Url::from_bytes("http://\u{e9}/".as_bytes()).is_err());

    // The path that is added makes a text that is too long to be parsed
    let mut long = b"http://".to_vec();
    long.resize(MAX_URL, b'a');
    let url = Url::from_bytes(&long).unwrap();
    assert_eq!(url.as_str().len(), MAX_URL + 1);
    assert!(Url::from_bytes(url.as_str().as_bytes()).is_err());
    long.pop();
    let url = Url::from_bytes(&long).unwrap();
    assert_eq!(Url::from_bytes(url.as_str().as_bytes()).unwrap().as_str(), url.as_str());
}

#[test]
fn status_codes_out_of_range() {
    let mut dl = Dialog::try_from(meta_record(&[
        ("url", "/"),
        ("method", "GET"),
        ("response-version", "HTTP/1.1"),
        ("response-status", "999"),
    ]))
    .unwrap();
    dl.epi.status = 1000;
    assert!(matches!(Record::try_from(dl), Err(BarcError::InvalidHeader(HeaderError::Value))));
}

#[test]
fn lists_of_encodings() {
    let list =
        vec![Encoding::Chunked, Encoding::Compress, Encoding::Deflate, Encoding::Gzip, Encoding::Brotli, Encoding::Identity];
    let text = join_encodings(&list);
    assert_eq!(text, "chunked, compress, deflate, gzip, br, identity");
    assert_eq!(parse_encodings(text.as_bytes()).unwrap(), list);
    assert_eq!(parse_encodings(b"br,gzip").unwrap(), vec![Encoding::Brotli, Encoding::Gzip]);
    assert_eq!(parse_encodings(b"br,,gzip").err().unwrap(), "");
    assert_eq!(parse_encoding("deflate"), Some(Encoding::Deflate));
    assert_eq!(parse_encoding("Deflate"), None);
}

#[test]
fn error_messages_of_barc() {
    assert_eq!(BarcError::UnknownRecordType(88).message(), "Unknown record type flag [88]");
    assert_eq!(BarcError::UnknownCompression(90).message(), "Unknown compression flag [90]");
    assert_eq!(
        BarcError::DecoderUnsupported(Compression::Brotli).message(),
        "No decoder for Brotli. Enable the feature?"
    );
    assert_eq!(BarcError::ReadIncompleteRecHead(7).message(), "Incomplete record head, len 7");
    assert_eq!(BarcError::ReadInvalidRecHead.message(), "Invalid record head suffix");
    assert_eq!(BarcError::ReadInvalidRecHeadHex(122).message(), "Invalid record head hex digit [122]");
    assert_eq!(
        BarcError::InvalidHeader(HeaderError::Name).message(),
        "Invalid header; invalid HTTP header name"
    );
    assert_eq!(
        BarcError::Body(BodyError::BodyTooLong(9)).message(),
        "With Body; Body length of 9+ bytes exceeds Tunables::max_body"
    );
    assert_eq!(BarcError::Io(IoError::UnexpectedEof).message(), "failed to fill whole buffer");
    assert_eq!(BarcError::Malformed(Malformed::TooLong).message(), "Malformed record: parts too long");
}

#[test]
fn enough_to_compress() {
    let rec = |ctype: &'static str, n: usize| Record {
        res_headers: headers(&[(CONTENT_TYPE.as_str(), ctype)]),
        res_body: buffers(&vec![b'x'; n]),
        ..Record::default()
    };
    let s = GzipCompressStrategy::default();
    assert!(s.is_compressible(&rec("text/html", 4 * 1024)));
    assert!(!s.is_compressible(&rec("text/html", 4 * 1024 - 40)));
    // Such a body does not count, and asks for more of others.
    assert!(!s.is_compressible(&rec("image/png", 100 * 1024)));
    let mixed = Record {
        req_headers: headers(&[(CONTENT_TYPE.as_str(), "text/plain")]),
        req_body: buffers(&vec![b'x'; 5000]),
        ..rec("image/png", 2000)
    };
    assert!(!s.is_compressible(&mixed));
    assert!(s.set_min_len(3000).is_compressible(&mixed));
    // Only if nothing else was left to decode
    let checked = s.set_check_identity(true);
    assert!(!checked.is_compressible(&rec("text/html", 8 * 1024)));
    let decoded = Record { meta: headers(&[("response-decoded", "gzip, identity")]), ..rec("text/html", 8 * 1024) };
    assert!(checked.is_compressible(&decoded));
    assert!(BrotliCompressStrategy::default().is_compressible(&rec("text/html", 1024)));
}
