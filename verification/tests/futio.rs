use std::mem::size_of;
use std::sync::Arc;

use body_image::body::{BodyError, BodyImage, BodyPlan, BodySink, IoError};
use body_image::codec::{brotli, gzip};
use body_image::dialog::{Dialog, Encoding, Epilog, Method, Prolog, Recorded, RequestRecorded, Url, Version};
use body_image::futio::decode::{
    decode_res_body, decoded_to, decompress, encodings_listed, find_chunked, find_encodings, DecodeStep,
};
use body_image::futio::fetch::{
    body_in_time, response_in_time, response_length, response_sink, user_agent, InDialog, RequestHead,
    RequestRecord, RequestRecorder, ResponseLength, ResponseSink, Timed, ACCEPT_ENCODINGS, BROWSE_ACCEPT, VERSION,
};
use body_image::futio::FutioError;
use body_image::logger::TestLog;
use body_image::tune::{Timeout, Tunables, Tuner};
use bytes::Bytes;
use http::header::{HeaderMap, HeaderName, HeaderValue};

type Handle = Arc<()>;
type Image = BodyImage<Handle, Bytes>;

fn test_logger() -> bool {
    TestLog::new().test_logger(0)
}

fn headers(list: &[(&str, &[u8])]) -> HeaderMap {
    let mut map = HeaderMap::new();
    for (n, v) in list {
        map.append(HeaderName::from_bytes(n.as_bytes()).unwrap(), HeaderValue::from_bytes(v).unwrap());
    }
    map
}

fn dialog(res_headers: HeaderMap, body: &[u8]) -> Dialog<Image> {
    Dialog::new(
        Prolog {
            method: Method::from_bytes(b"GET").unwrap(),
            url: Url::from_bytes(b"http://foo.com/").unwrap(),
            req_headers: HeaderMap::new(),
            req_body: BodyImage::empty(),
        },
        Epilog {
            version: Version::Http11,
            status: 200,
            res_headers,
            res_body: BodyImage::from_slice(Bytes::copy_from_slice(body)),
            res_decoded: Vec::new(),
        },
    )
}

fn content(body: &Image) -> Vec<u8> {
    let mut out = Vec::new();
    body.write_to(&mut out).unwrap();
    out
}

#[test]
fn test_error_as_flaw() {
    assert!(test_logger());
    assert_eq!(FutioError::ContentLengthTooLong(42).message(), "Response Content-Length too long: 42");
    assert_eq!(FutioError::Other("one off".into()).message(), "Other error: one off");
}

#[test]
fn test_error_size() {
    assert!(test_logger());
    assert!(size_of::<FutioError>() <= 32);
}

#[test]
fn error_messages_of_futio() {
    assert_eq!(
        FutioError::from(BodyError::BodyTooLong(3)).message(),
        "With body: Body length of 3+ bytes exceeds Tunables::max_body"
    );
    assert_eq!(
        FutioError::Body(BodyError::Io(IoError::UnexpectedEof)).message(),
        "With body: Body I/O: failed to fill whole buffer"
    );
    assert_eq!(
        FutioError::from(std::io::Error::new(std::io::ErrorKind::Other, "x")).message(),
        "With body: Body I/O: x"
    );
    assert_eq!(
        FutioError::ResponseTimeout(Timeout::from_millis(10)).message(),
        "Timeout before initial response (10ms)"
    );
    assert_eq!(
        FutioError::BodyTimeout(Timeout::from_millis(1500)).message(),
        "Timeout before streaming body complete (1.5s)"
    );
    assert_eq!(FutioError::UnsupportedEncoding(Encoding::Compress).message(), "Unsupported encoding: compress");
    assert_eq!(
        FutioError::OpCanceled(blocking_permit::Canceled).message(),
        "Error: Waiting for a blocking permit or dispatch was canceled"
    );
    let e = http::Request::builder().uri("http:// x").body(()).err().unwrap();
    assert_eq!(FutioError::from(e).message(), "Http error: invalid uri character");
}

#[test]
fn encodings_in_headers() {
    let find = |list: &[(&str, &[u8])]| find_encodings(&headers(list));
    assert_eq!(find(&[]), vec![]);
    assert_eq!(find(&[("content-encoding", b"gzip")]), vec![Encoding::Gzip]);
    assert_eq!(find(&[("content-encoding", b" x-gzip , identity,,")]), vec![Encoding::Gzip]);
    assert_eq!(
        find(&[("transfer-encoding", b"chunked"), ("content-encoding", b"br")]),
        vec![Encoding::Chunked, Encoding::Brotli]
    );
    // The last one that was applied, and transfer first
    assert_eq!(find(&[("content-encoding", b"gzip, deflate")]), vec![Encoding::Deflate]);
    assert_eq!(
        find(&[("content-encoding", b"gzip"), ("content-encoding", b"compress")]),
        vec![Encoding::Compress]
    );
    assert_eq!(
        find(&[("transfer-encoding", b"gzip, chunked"), ("content-encoding", b"br")]),
        vec![Encoding::Chunked, Encoding::Gzip]
    );
    // Names as they are
    assert_eq!(find(&[("content-encoding", b"GZIP, other")]), vec![]);
    // Not UTF-8
    assert_eq!(find(&[("content-encoding", b"gzip"), ("content-encoding", b"\xff")]), vec![]);
    assert_eq!(
        encodings_listed(&Some(vec!["br".to_owned(), "chunked".to_owned()]), &None),
        vec![Encoding::Chunked, Encoding::Brotli]
    );
    assert_eq!(encodings_listed(&None, &Some(vec!["x".to_owned()])), vec![]);
}

#[test]
fn chunked_in_headers() {
    assert!(find_chunked(&headers(&[("transfer-encoding", b"gzip, chunked")])));
    assert!(find_chunked(&headers(&[("transfer-encoding", b"\xff"), ("transfer-encoding", b"chunked")])));
    assert!(!find_chunked(&headers(&[("transfer-encoding", b"Chunked")])));
    assert!(!find_chunked(&headers(&[("content-encoding", b"chunked")])));
    assert!(!find_chunked(&headers(&[])));
}

#[test]
fn decompressed_bodies() {
    let tune = Tunables::new();
    let text = b"hello hello hello hello hello hello";
    let plan = decompress(&gzip(6, text).unwrap(), Encoding::Gzip, &tune).unwrap();
    match plan {
        BodyPlan::Ram(b) => assert_eq!(&b.gathered()[..], text),
        _ => panic!("not in RAM"),
    }
    let plan = decompress(&brotli(6, text).unwrap(), Encoding::Brotli, &tune).unwrap();
    assert_eq!(plan.len(), text.len() as u64);
    let stored = [1u8, 3, 0, 0xfc, 0xff, b'a', b'b', b'c'];
    let plan = decompress(&stored, Encoding::Deflate, &tune).unwrap();
    assert_eq!(plan.len(), 3);
    for e in [Encoding::Chunked, Encoding::Compress, Encoding::Identity] {
        match decompress(text, e, &tune) {
            Err(FutioError::UnsupportedEncoding(u)) => assert_eq!(u, e),
            _ => panic!("supported?"),
        }
    }
    assert!(matches!(decompress(text, Encoding::Gzip, &tune), Err(FutioError::Body(BodyError::Io(_)))));
    // By the estimate of 4 times the length
    let tune = Tuner::new().set_max_body_ram(31).set_size_estimate_deflate(4).finish();
    assert!(!decompress(&stored, Encoding::Deflate, &tune).unwrap().is_ram());
    let tune = Tuner::new().set_max_body_ram(32).set_size_estimate_deflate(4).finish();
    assert!(decompress(&stored, Encoding::Deflate, &tune).unwrap().is_ram());
    let tune = Tuner::new().set_max_body_ram(2).set_max_body(2).finish();
    assert!(matches!(
        decompress(&stored, Encoding::Deflate, &tune),
        Err(FutioError::Body(BodyError::BodyTooLong(3)))
    ));
}

#[test]
fn too_long_before_a_fault() {
    let tune = Tuner::new().set_max_body_ram(2000).set_max_body(2000).set_buffer_size_ram(300).finish();
    let gz = gzip(6, &vec![7u8; 100_000]).unwrap();
    for data in [&gz[..], &gz[..gz.len() - 20]] {
        match decompress(data, Encoding::Gzip, &tune) {
            Err(FutioError::Body(BodyError::BodyTooLong(l))) => assert_eq!(l, 2100),
            _ => panic!("should be too long"),
        }
    }
    let gz = gzip(6, &vec![7u8; 1000]).unwrap();
    assert!(matches!(
        decompress(&gz[..gz.len() - 9], Encoding::Gzip, &tune),
        Err(FutioError::Body(BodyError::Io(_)))
    ));
}

#[test]
fn dialogs_are_cloned() {
    let dl = dialog(headers(&[("a", b"b"), ("a", b"c")]), b"body");
    let copy = dl.clone();
    assert_eq!(copy.url().as_str(), dl.url().as_str());
    assert_eq!(copy.method().as_str(), "GET");
    assert_eq!(copy.res_headers(), dl.res_headers());
    assert_eq!(content(copy.res_body()), b"body");
    assert_eq!((copy.res_status(), copy.res_decoded()), (200, dl.res_decoded()));
}

#[test]
fn decoded_dialogs() {
    let tune = Tunables::new();
    let text = b"hello hello hello hello hello hello";
    let zipped = gzip(6, text).unwrap();

    let mut dl = dialog(headers(&[("content-encoding", b"gzip"), ("transfer-encoding", b"chunked")]), &zipped);
    assert!(matches!(decode_res_body(&mut dl, &zipped, &tune), Ok(DecodeStep::Done(true))));
    assert_eq!(content(dl.res_body()), text);
    assert_eq!(dl.res_decoded(), &vec![Encoding::Chunked, Encoding::Gzip, Encoding::Identity]);
    assert_eq!((dl.res_status(), dl.res_version()), (200, Version::Http11));

    let mut dl = dialog(headers(&[("transfer-encoding", b"chunked")]), text);
    assert!(matches!(decode_res_body(&mut dl, text, &tune), Ok(DecodeStep::Done(false))));
    assert_eq!(content(dl.res_body()), text);
    assert_eq!(dl.res_decoded(), &vec![Encoding::Chunked, Encoding::Identity]);

    let mut dl = dialog(headers(&[("content-encoding", b"compress")]), text);
    assert!(matches!(
        decode_res_body(&mut dl, text, &tune),
        Err(FutioError::UnsupportedEncoding(Encoding::Compress))
    ));
    assert!(dl.res_decoded().is_empty());

    let tune = Tuner::new().set_max_body_ram(10).finish();
    let mut dl = dialog(headers(&[("content-encoding", b"gzip")]), &zipped);
    match decode_res_body(&mut dl, &zipped, &tune) {
        Ok(DecodeStep::Write(d)) => {
            assert_eq!(&d.back.buffers().gathered()[..], text);
            assert!(dl.res_decoded().is_empty());
            let mut sink = BodySink::empty();
            sink.written_back(d.back, Arc::new(()));
            decoded_to(&mut dl, d.encodings, sink.prepare());
        }
        _ => panic!("not to a file"),
    }
    assert!(!dl.res_body().is_ram());
    assert_eq!(dl.res_body().len(), text.len() as u64);
    assert_eq!(dl.res_decoded(), &vec![Encoding::Gzip, Encoding::Identity]);
}

#[test]
fn lengths_of_responses() {
    let length = |list: &[(&str, &[u8])]| response_length(&headers(list));
    assert!(matches!(length(&[]), ResponseLength::Unknown));
    assert!(matches!(length(&[("content-length", b"42")]), ResponseLength::Known(42)));
    assert!(matches!(length(&[("content-length", b" +7 ")]), ResponseLength::Known(7)));
    assert!(matches!(
        length(&[("content-length", b"18446744073709551615")]),
        ResponseLength::Known(u64::MAX)
    ));
    assert!(matches!(length(&[("content-length", b"18446744073709551616")]), ResponseLength::Invalid(_)));
    assert!(matches!(
        length(&[("content-length", b"5"), ("content-length", b"05")]),
        ResponseLength::Known(5)
    ));
    assert!(matches!(
        length(&[("content-length", b"5"), ("content-length", b"6")]),
        ResponseLength::Invalid(_)
    ));
    match length(&[("content-length", b"x")]) {
        ResponseLength::Invalid(e) => assert_eq!(e, "invalid Header provided"),
        _ => panic!("valid?"),
    }
    for bad in [&b"-1"[..], b"", b"+", b"1 2", b"0x10", b"\xff"] {
        assert!(matches!(length(&[("content-length", bad)]), ResponseLength::Invalid(_)));
    }
}

#[test]
fn where_responses_go() {
    let tune = Tuner::new().set_max_body_ram(10).set_max_body(20).finish();
    let sink = |l: ResponseLength| response_sink::<Handle>(l, &tune);
    assert!(matches!(sink(ResponseLength::Unknown), Ok(ResponseSink::Ram(_))));
    match sink(ResponseLength::Known(10)) {
        Ok(ResponseSink::Ram(s)) => assert!(s.is_ram() && s.is_empty()),
        _ => panic!("not in RAM"),
    }
    assert!(matches!(sink(ResponseLength::Known(11)), Ok(ResponseSink::Fs)));
    assert!(matches!(sink(ResponseLength::Known(20)), Ok(ResponseSink::Fs)));
    assert!(matches!(sink(ResponseLength::Known(21)), Err(FutioError::ContentLengthTooLong(21))));
    match sink(ResponseLength::Invalid("bad".to_owned())) {
        Err(e) => assert_eq!(e.message(), "Other error: bad"),
        _ => panic!("valid?"),
    }
}

#[test]
fn limits_of_time() {
    let t = Timeout::from_millis(590);
    assert!(matches!(response_in_time::<u8>(Timed::Completed(Ok(1))), Ok(1)));
    let em = response_in_time::<u8>(Timed::Elapsed(t)).err().unwrap().message();
    assert!(em.starts_with("Timeout") && em.contains("initial"), "{}", em);
    let em = body_in_time::<u8>(Timed::Elapsed(t)).err().unwrap().message();
    assert!(em.starts_with("Timeout") && em.contains("streaming"), "{}", em);
    let r = body_in_time::<u8>(Timed::Completed(Err(FutioError::ContentLengthTooLong(1))));
    assert!(matches!(r, Err(FutioError::ContentLengthTooLong(1))));
}

#[test]
fn values_for_requests() {
    assert_eq!(
        user_agent(),
        format!("Mozilla/5.0 (compatible; body-image {}; +https://crates.io/crates/body-image)", VERSION)
    );
    assert_eq!(ACCEPT_ENCODINGS, "br, gzip, deflate");
    assert_eq!(BROWSE_ACCEPT, "text/html, application/xhtml+xml, application/xml;q=0.9, */*;q=0.8");
}

fn head() -> RequestHead {
    RequestHead {
        method: Method::from_bytes(b"POST").unwrap(),
        url: Url::from_bytes(b"http://foobar.com/").unwrap(),
        headers: headers(&[("via", b"x")]),
    }
}

#[test]
fn requests_are_recorded() {
    let prolog: Prolog<Image> = head().record();
    assert!(prolog.req_body.is_ram() && prolog.req_body.is_empty());
    let prolog: Prolog<Image> = head().record_body(Bytes::from_static(b"stub"));
    let rr = RequestRecord::new(7u8, prolog);
    assert_eq!((rr.method().as_str(), rr.url().as_str(), *rr.request()), ("POST", "http://foobar.com/", 7));
    assert_eq!(rr.req_headers().len(), 1);
    assert_eq!(content(rr.req_body()), b"stub");
    let (request, prolog) = rr.explode();
    assert_eq!(request, 7);
    let body = prolog.req_body;
    let prolog: Prolog<Image> = head().record_body_image(body);
    assert_eq!(content(&prolog.req_body), b"stub");
}

#[test]
fn responses_become_dialogs() {
    let received = |list: &[(&str, &[u8])]| {
        let mut res_body = BodySink::with_ram(4);
        res_body.write_all(b"stub");
        let ind: InDialog<Handle, Bytes> = InDialog {
            prolog: head().record(),
            version: Version::Http2,
            status: 404,
            res_headers: headers(list),
            res_body,
        };
        ind.prepare()
    };
    let dl = received(&[("transfer-encoding", b"chunked")]);
    assert_eq!(dl.res_decoded(), &vec![Encoding::Chunked]);
    assert_eq!((dl.res_version(), dl.res_status()), (Version::Http2, 404));
    assert_eq!(content(dl.res_body()), b"stub");
    assert_eq!(dl.res_headers().len(), 1);
    assert_eq!(dl.url().as_str(), "http://foobar.com/");
    let dl = received(&[]);
    assert!(dl.res_decoded().is_empty());
}
