use body_image::barc::compress::{is_compressible_mime, is_compressible_type, is_compressible_type_str, is_identity};
use body_image::codec::{brotli, gunzip, gzip, inflate, unbrotli};
use body_image::logger::TestLog;

fn test_logger() -> bool {
    TestLog::new().test_logger(0)
}

#[test]
fn test_compressible_types() {
    assert!(test_logger());
    assert!(is_compressible_type_str("text/html"));
    assert!(is_compressible_type_str("Text/html; charset=utf8"));
    assert!(is_compressible_type_str("image/sVg"));
    assert!(is_compressible_type_str("application/rss"));
    assert!(is_compressible_type_str("font/TTF")); //case insensitive

    // httparse originating HeaderValue's should not have
    // leading/trailing whitespace, but we trim just in case
    assert!(is_compressible_type_str("  text/html"));
}

#[test]
fn test_not_compressible_types() {
    assert!(test_logger());
    assert!(!is_compressible_type_str("image/png"));

    // Mime isn't as lenient as we might like
    assert!(!is_compressible_type_str("text/ html"));

    // Mime parse failures, logged as warnings, but no panics.
    assert!(!is_compressible_type_str(" "));
    assert!(!is_compressible_type_str(""));
    assert!(!is_compressible_type_str(";"));
    assert!(!is_compressible_type_str("/"));
    assert!(!is_compressible_type_str("/;"));
}

#[test]
fn types_as_header_values() {
    assert!(is_compressible_type(Some(b"application/json")));
    assert!(!is_compressible_type(Some(b"text/html\x01")));
    assert!(!is_compressible_type(None));
    assert!(is_compressible_mime("text", "anything"));
    assert!(!is_compressible_mime("video", "mp4"));
}

#[test]
fn identity_at_the_end() {
    assert!(is_identity(Some(b"gzip, identity")));
    assert!(is_identity(Some(b"identity")));
    assert!(!is_identity(Some(b"identity, gzip")));
    assert!(!is_identity(Some(b"dentity")));
    assert!(!is_identity(None));
}

#[test]
fn coders_are_inverse() {
    let data = b"hello, hello, hello, hello, hello".to_vec();
    for level in [0, 1, 6, 9] {
        let out = gzip(level, &data).unwrap();
        assert_ne!(out, data);
        assert_eq!(gunzip(&out, u64::MAX).unwrap(), data);
        let out = brotli(level, &data).unwrap();
        assert_ne!(out, data);
        assert_eq!(unbrotli(&out, u64::MAX).unwrap(), data);
    }
    // A stored deflate block
    let stored = [1u8, 3, 0, 0xfc, 0xff, b'a', b'b', b'c'];
    assert_eq!(inflate(&stored, u64::MAX).unwrap(), b"abc");
    assert!(gunzip(b"abc", u64::MAX).is_err());
    assert!(inflate(&[0xff, 0xff], u64::MAX).is_err());
    assert!(unbrotli(b"\xff\xff\xff", u64::MAX).is_err());
}

#[test]
fn decoders_stop_at_a_limit() {
    let data = vec![7u8; 100_000];
    let gz = gzip(6, &data).unwrap();
    assert_eq!(gunzip(&gz, 10).unwrap(), vec![7u8; 10]);
    assert_eq!(gunzip(&gz, 100_000).unwrap(), data);
    assert_eq!(gunzip(&gz, 0).unwrap(), b"");
    // A fault is only found where it is reached
    let cut = &gz[..gz.len() - 20];
    assert!(gunzip(cut, u64::MAX).is_err());
    assert_eq!(gunzip(cut, 1000).unwrap(), vec![7u8; 1000]);
    let br = brotli(6, &data).unwrap();
    assert_eq!(unbrotli(&br, 99).unwrap(), vec![7u8; 99]);
    let stored = [1u8, 3, 0, 0xfc, 0xff, b'a', b'b', b'c'];
    assert_eq!(inflate(&stored, 2).unwrap(), b"ab");
}
