//! Conversions between dialogs and records.
use http::header::{HeaderMap, HeaderValue};
use vstd::prelude::*;
use vstd::std_specs::convert::TryFromSpecImpl;
use vstd::string::*;

use crate::barc::compress::first_value;
use crate::barc::head::{BarcError, RecordType};
use crate::barc::record::{
    hname_meta_method, hname_meta_res_decoded, hname_meta_res_status, hname_meta_res_version,
    hname_meta_url, Record,
};
use crate::dialog::{
    is_method, is_method_text, is_plain_text, is_url, uri_text, Dialog, Encoding, Epilog, Method, Prolog, Url,
    Version, MAX_URL,
};
use crate::headers::{
    append_header, ascii_bytes, get_header, header_entries, header_value_bytes, is_value, is_visible,
    is_visible_slice, last_of, values_of, with_appended, HeaderError, Pair,
};
use crate::text::{
    append_hex_list, ascii_chars, ascii_string, bytes_eq, concat, hex_list, is_white, str_eq, trim, trimmed,
    trimmed_end, trimmed_start,
};

verus! {

/// `http::status::InvalidStatusCode`.
#[verifier::external_type_specification]
#[verifier::external_body]
pub struct ExInvalidStatusCode(http::status::InvalidStatusCode);

/// The text of a status code with its reason phrase, as `http::StatusCode`
/// displays it.
pub uninterp spec fn status_display(code: u16) -> Seq<char>;

/// The value of three digits.
pub open spec fn three_digits(s: Seq<u8>) -> int {
    (s[0] - 0x30) * 100 + (s[1] - 0x30) * 10 + (s[2] - 0x30)
}

/// Whether some bytes are a status code.
pub open spec fn is_status(s: Seq<u8>) -> bool {
    &&& s.len() == 3
    &&& 0x31 <= s[0] <= 0x39
    &&& 0x30 <= s[1] <= 0x39
    &&& 0x30 <= s[2] <= 0x39
}

/// Parse a status code by `http::StatusCode::from_bytes`, for its number.
#[verifier::external_body]
fn parse_status(bytes: &[u8]) -> (r: Result<u16, http::status::InvalidStatusCode>)
    ensures
        r is Ok == is_status(bytes@),
        r is Ok ==> r->Ok_0 == three_digits(bytes@),
{
    http::StatusCode::from_bytes(bytes).map(|s| s.as_u16())
}

/// Whether a text starts with the three digits of a status code, and is all
/// visible ASCII and spaces.
pub open spec fn is_status_text(s: Seq<char>, code: int) -> bool {
    &&& s.len() >= 3
    &&& is_status(ascii_bytes(s).take(3)) && three_digits(ascii_bytes(s)) == code
    &&& forall|i: int| #![trigger s[i]] 0 <= i < s.len() ==> '\u{20}' <= s[i] <= '\u{7e}'
}

/// The text of a status code with its reason phrase, by
/// `http::StatusCode::from_u16` and `Display`. It starts with the three digits
/// of the code, and is all visible ASCII and spaces.
#[verifier::external_body]
fn status_text(code: u16) -> (s: String)
    requires
        100 <= code <= 999,
    ensures
        s@ == status_display(code),
        is_status_text(s@, code as int),
{
    format!("{}", http::StatusCode::from_u16(code).unwrap())
}

/// The encoding of a text.
pub open spec fn encoding_named(s: Seq<char>) -> Option<Encoding> {
    if s == "chunked"@ {
        Some(Encoding::Chunked)
    } else if s == "compress"@ {
        Some(Encoding::Compress)
    } else if s == "deflate"@ {
        Some(Encoding::Deflate)
    } else if s == "gzip"@ {
        Some(Encoding::Gzip)
    } else if s == "br"@ {
        Some(Encoding::Brotli)
    } else if s == "identity"@ {
        Some(Encoding::Identity)
    } else {
        None
    }
}

/// The encoding of a text, as in an HTTP header value.
pub fn parse_encoding(s: &str) -> (r: Option<Encoding>)
    ensures
        r == encoding_named(s@),
{
    if str_eq(s, "chunked") {
        Some(Encoding::Chunked)
    } else if str_eq(s, "compress") {
        Some(Encoding::Compress)
    } else if str_eq(s, "deflate") {
        Some(Encoding::Deflate)
    } else if str_eq(s, "gzip") {
        Some(Encoding::Gzip)
    } else if str_eq(s, "br") {
        Some(Encoding::Brotli)
    } else if str_eq(s, "identity") {
        Some(Encoding::Identity)
    } else {
        None
    }
}

/// The position of the first comma, or the end.
pub open spec fn comma_at(s: Seq<u8>) -> int
    decreases s.len(),
{
    if s.len() == 0 || s[0] == 0x2c {
        0
    } else {
        1 + comma_at(s.skip(1))
    }
}

/// The first comma is within the bytes, or the end.
proof fn lemma_comma_at(s: Seq<u8>)
    ensures
        0 <= comma_at(s) <= s.len(),
        forall|i: int| 0 <= i < comma_at(s) ==> s[i] != 0x2c,
        comma_at(s) < s.len() ==> s[comma_at(s)] == 0x2c,
    decreases s.len(),
{
    if s.len() > 0 && s[0] != 0x2c {
        lemma_comma_at(s.skip(1));
        assert forall|i: int| 0 <= i < comma_at(s) implies s[i] != 0x2c by {
            if i > 0 {
                assert(s.skip(1)[i - 1] == s[i]);
            }
        }
    }
}

/// Where the first comma is, if it is known to be at a position.
proof fn lemma_comma_is(s: Seq<u8>, n: int)
    requires
        0 <= n <= s.len(),
        forall|i: int| 0 <= i < n ==> s[i] != 0x2c,
        n < s.len() ==> s[n] == 0x2c,
    ensures
        comma_at(s) == n,
    decreases s.len(),
{
    if n > 0 {
        assert forall|i: int| 0 <= i < n - 1 implies s.skip(1)[i] != 0x2c by {
            assert(s.skip(1)[i] == s[i + 1]);
        }
        lemma_comma_is(s.skip(1), n - 1);
    }
}

/// The encodings of a list that is separated by commas, or the first item that
/// is not one.
pub open spec fn encodings_in(s: Seq<u8>) -> Result<Seq<Encoding>, Seq<char>>
    decreases s.len(),
    via encodings_in_decreases
{
    let i = comma_at(s);
    let item = trimmed(ascii_chars(s.take(i)));
    match encoding_named(item) {
        None => Err(item),
        Some(e) => if i >= s.len() {
            Ok(seq![e])
        } else {
            match encodings_in(s.skip(i + 1)) {
                Ok(v) => Ok(seq![e] + v),
                Err(t) => Err(t),
            }
        },
    }
}

#[via_fn]
proof fn encodings_in_decreases(s: Seq<u8>) {
    lemma_comma_at(s);
}

/// The encodings before, if the rest has no fault.
pub open spec fn after(done: Seq<Encoding>, rest: Result<Seq<Encoding>, Seq<char>>) -> Result<
    Seq<Encoding>,
    Seq<char>,
> {
    match rest {
        Ok(v) => Ok(done + v),
        Err(t) => Err(t),
    }
}

/// The encodings of a list that is separated by commas, in visible ASCII. Fails
/// with the first item that is not one.
pub fn parse_encodings(list: &[u8]) -> (r: Result<Vec<Encoding>, String>)
    requires
        is_visible(list@),
    ensures
        match encodings_in(list@) {
            Ok(v) => r is Ok && r->Ok_0@ == v,
            Err(t) => r is Err && r->Err_0@ == t,
        },
{
    let mut done: Vec<Encoding> = Vec::with_capacity(4);
    let mut start: usize = 0;
    proof {
        assert(list@.skip(0) =~= list@);
        match encodings_in(list@) {
            Ok(v) => {
                assert(done@ + v =~= v);
            },
            Err(_) => {},
        }
    }
    loop
        invariant
            start <= list@.len(),
            is_visible(list@),
            encodings_in(list@) == after(done@, encodings_in(list@.skip(start as int))),
        decreases list@.len() - start,
    {
        let ghost rest = list@.skip(start as int);
        let mut end: usize = start;
        while end < list.len() && list[end] != 0x2c
            invariant
                start <= end <= list@.len(),
                forall|i: int| start <= i < end ==> list@[i] != 0x2c,
            decreases list@.len() - end,
        {
            end += 1;
        }
        let token = vstd::slice::slice_subrange(list, start, end);
        proof {
            assert forall|i: int| 0 <= i < end - start implies rest[i] != 0x2c by {
                assert(rest[i] == list@[start + i]);
            }
            lemma_comma_is(rest, end - start);
            assert(token@ =~= rest.take(end - start));
            assert forall|i: int| 0 <= i < token@.len() implies #[trigger] token@[i] < 0x80 by {
                assert(token@[i] == list@[start + i]);
            }
        }
        let text = ascii_string(token);
        let item = trim(text.as_str());
        match parse_encoding(item) {
            Some(e) => {
                let ghost before = done@;
                done.push(e);
                if end >= list.len() {
                    assert(done@ =~= before + seq![e]);
                    return Ok(done);
                }
                proof {
                    assert(rest.skip(end - start + 1) =~= list@.skip(end + 1));
                    match encodings_in(list@.skip(end + 1)) {
                        Ok(v) => {
                            assert(before + (seq![e] + v) =~= done@ + v);
                        },
                        Err(_) => {},
                    }
                }
                start = end + 1;
            },
            None => {
                return Err(item.to_owned());
            },
        }
    }
}

/// A list of encodings, as in an HTTP header value.
pub open spec fn encodings_text(v: Seq<Encoding>) -> Seq<char>
    decreases v.len(),
{
    if v.len() == 0 {
        Seq::empty()
    } else if v.len() == 1 {
        v[0].spec_text()
    } else {
        encodings_text(v.drop_last()) + ", "@ + v.last().spec_text()
    }
}

/// A list of encodings, as in an HTTP header value.
pub fn join_encodings(v: &Vec<Encoding>) -> (s: String)
    ensures
        s@ == encodings_text(v@),
{
    let mut joined = String::new();
    let mut i: usize = 0;
    while i < v.len()
        invariant
            i <= v@.len(),
            joined@ == encodings_text(v@.take(i as int)),
        decreases v@.len() - i,
    {
        if i > 0 {
            joined.append(", ");
        }
        joined.append(v[i].text());
        proof {
            assert(v@.take(i + 1).drop_last() =~= v@.take(i as int));
            assert(v@.take(i + 1).last() == v@[i as int]);
            if i == 0 {
                assert(joined@ =~= v@[0].spec_text());
            }
        }
        i += 1;
    }
    assert(v@.take(i as int) =~= v@);
    joined
}

/// The names of the encodings are visible, and neither have commas in them nor
/// white space around them.
proof fn lemma_encoding_text(e: Encoding)
    ensures
        ({
            let t = e.spec_text();
            &&& t.len() > 0
            &&& encoding_named(t) == Some(e)
            &&& !is_white(t[0])
            &&& !is_white(t.last())
            &&& forall|i: int| #![trigger t[i]] 0 <= i < t.len() ==> 'a' <= t[i] <= 'z'
        }),
{
    reveal_strlit("chunked");
    reveal_strlit("compress");
    reveal_strlit("deflate");
    reveal_strlit("gzip");
    reveal_strlit("br");
    reveal_strlit("identity");
    assert("chunked"@.len() == 7 && "compress"@.len() == 8 && "deflate"@.len() == 7);
    assert("gzip"@.len() == 4 && "br"@.len() == 2 && "identity"@.len() == 8);
    assert("chunked"@[0] == 'c' && "deflate"@[0] == 'd');
    assert("compress"@[0] == 'c' && "identity"@[0] == 'i');
}

/// The characters of the ASCII bytes of a text are the text.
proof fn lemma_ascii_there_and_back(s: Seq<char>)
    requires
        forall|i: int| #![trigger s[i]] 0 <= i < s.len() ==> '\0' <= s[i] <= '\u{7f}',
    ensures
        ascii_chars(ascii_bytes(s)) == s,
{
    assert forall|i: int| 0 <= i < s.len() implies ascii_chars(ascii_bytes(s))[i] == s[i] by {
        assert('\0' <= s[i] <= '\u{7f}');
    }
    assert(ascii_chars(ascii_bytes(s)) =~= s);
}

/// A list of encodings, with or without a space before it, is read back.
proof fn lemma_encodings_read_back(v: Seq<Encoding>, space: bool)
    requires
        v.len() > 0,
    ensures
        ({
            let s = (if space {
                seq![' ']
            } else {
                Seq::<char>::empty()
            }) + encodings_text_front(v);
            encodings_in(ascii_bytes(s)) == Ok::<Seq<Encoding>, Seq<char>>(v)
        }),
    decreases v.len(),
{
    reveal_strlit(", ");
    let lead = if space {
        seq![' ']
    } else {
        Seq::<char>::empty()
    };
    let t = v[0].spec_text();
    lemma_encoding_text(v[0]);
    let s = lead + encodings_text_front(v);
    let b = ascii_bytes(s);
    let head = lead + t;
    let n = head.len() as int;
    assert forall|i: int| 0 <= i < n implies s[i] == head[i] by {}
    assert forall|i: int| 0 <= i < n implies b[i] != 0x2c by {
        if i >= lead.len() {
            assert(head[i] == t[i - lead.len()]);
        }
    }
    if v.len() == 1 {
        assert(s =~= head);
    } else {
        assert(s[n] == ','  );
        assert(b[n] == 0x2c);
    }
    lemma_comma_is(b, n);
    assert(b.take(n) =~= ascii_bytes(head));
    assert forall|i: int| #![trigger head[i]] 0 <= i < head.len() implies '\0' <= head[i] <= '\u{7f}' by {
        if i >= lead.len() {
            assert(head[i] == t[i - lead.len()]);
        }
    }
    lemma_ascii_there_and_back(head);
    assert(trimmed(head) == t) by {
        assert(trimmed_start(t) == t);
        assert(trimmed_end(t) == t);
        if space {
            assert(head[0] == ' ');
            assert(head.skip(1) =~= t);
        } else {
            assert(head =~= t);
        }
    }
    if v.len() > 1 {
        let w = v.skip(1);
        lemma_encodings_read_back(w, true);
        let rest = seq![' '] + encodings_text_front(w);
        assert(s =~= head + seq![','] + rest);
        assert(b.skip(n + 1) =~= ascii_bytes(rest));
        assert(seq![v[0]] + w =~= v);
    } else {
        assert(seq![v[0]] =~= v);
    }
}

/// A list of encodings, taken from its front.
pub open spec fn encodings_text_front(v: Seq<Encoding>) -> Seq<char>
    decreases v.len(),
{
    if v.len() == 0 {
        Seq::empty()
    } else if v.len() == 1 {
        v[0].spec_text()
    } else {
        v[0].spec_text() + ", "@ + encodings_text_front(v.skip(1))
    }
}

/// A list is the same from either end.
proof fn lemma_encodings_text_front(v: Seq<Encoding>)
    ensures
        encodings_text(v) == encodings_text_front(v),
    decreases v.len(),
{
    if v.len() > 1 {
        lemma_encodings_text_front(v.drop_last());
        lemma_encodings_text_front(v.skip(1));
        let w = v.skip(1);
        if v.len() == 2 {
            assert(v.drop_last()[0] == v[0]);
            assert(w[0] == v.last());
        } else {
            lemma_encodings_text_front(w.drop_last());
            assert(v.drop_last().skip(1) =~= w.drop_last());
            assert(w.last() == v.last());
            assert(v.drop_last()[0] == v[0]);
            assert(encodings_text(v) =~= v[0].spec_text() + ", "@ + (encodings_text_front(w.drop_last())
                + ", "@ + v.last().spec_text()));
            assert(encodings_text_front(w) == encodings_text(w));
        }
        assert(encodings_text(v) =~= encodings_text_front(v));
    }
}

/// A list of encodings that is written is read back as it was.
pub proof fn law_encodings_round_trip(v: Seq<Encoding>)
    requires
        v.len() > 0,
    ensures
        encodings_in(ascii_bytes(encodings_text(v))) == Ok::<Seq<Encoding>, Seq<char>>(v),
{
    lemma_encodings_text_front(v);
    lemma_encodings_read_back(v, false);
    assert(Seq::<char>::empty() + encodings_text_front(v) =~= encodings_text_front(v));
}

/// What the meta headers of a record say of a dialog.
pub struct DialogMeta {
    pub url: Seq<char>,
    pub method: Seq<char>,
    pub version: Version,
    pub status: int,
    pub decoded: Seq<Encoding>,
}

/// What is wrong with the meta headers of a record.
pub enum ConvertFault {
    NoUrl,
    BadUrl,
    NoMethod,
    BadMethod,
    NoVersion,
    BadVersion(Seq<u8>),
    NoStatus,
    MalformedStatus,
    BadStatus,
    BadDecoded(Seq<char>),
}

/// The version of a text.
pub open spec fn version_named(s: Seq<u8>) -> Option<Version> {
    if s == ascii_bytes("HTTP/0.9"@) {
        Some(Version::Http09)
    } else if s == ascii_bytes("HTTP/1.0"@) {
        Some(Version::Http10)
    } else if s == ascii_bytes("HTTP/1.1"@) {
        Some(Version::Http11)
    } else if s == ascii_bytes("HTTP/2.0"@) {
        Some(Version::Http2)
    } else {
        None
    }
}

/// The encodings that were removed, by the meta header for these.
pub open spec fn decoded_in(value: Option<Seq<u8>>) -> Result<Seq<Encoding>, Seq<char>> {
    match value {
        None => Ok(Seq::empty()),
        Some(v) => if is_visible(v) {
            encodings_in(v)
        } else {
            Err(hex_list(v))
        },
    }
}

/// What the meta headers of a record say of a dialog, or the first thing that is
/// wrong with them.
pub open spec fn dialog_meta(s: Seq<Pair>) -> Result<DialogMeta, ConvertFault> {
    match first_value(s, ascii_bytes("url"@)) {
        None => Err(ConvertFault::NoUrl),
        Some(u) => match uri_text(u) {
            None => Err(ConvertFault::BadUrl),
            Some(url) => match first_value(s, ascii_bytes("method"@)) {
                None => Err(ConvertFault::NoMethod),
                Some(m) => if !is_method(m) {
                    Err(ConvertFault::BadMethod)
                } else {
                    match first_value(s, ascii_bytes("response-version"@)) {
                        None => Err(ConvertFault::NoVersion),
                        Some(v) => match version_named(v) {
                            None => Err(ConvertFault::BadVersion(v)),
                            Some(version) => match first_value(s, ascii_bytes("response-status"@)) {
                                None => Err(ConvertFault::NoStatus),
                                Some(t) => if t.len() < 3 {
                                    Err(ConvertFault::MalformedStatus)
                                } else if !is_status(t.take(3)) {
                                    Err(ConvertFault::BadStatus)
                                } else {
                                    match decoded_in(first_value(s, ascii_bytes("response-decoded"@))) {
                                        Err(e) => Err(ConvertFault::BadDecoded(e)),
                                        Ok(decoded) => Ok(
                                            DialogMeta {
                                                url,
                                                method: ascii_chars(m),
                                                version,
                                                status: three_digits(t),
                                                decoded,
                                            },
                                        ),
                                    }
                                },
                            },
                        },
                    }
                },
            },
        },
    }
}

/// Failures to convert a record to a dialog.
#[derive(Debug)]
#[non_exhaustive]
pub enum DialogConvertError {
    /// There is no url meta header.
    NoMetaUrl,
    /// The url meta header is not a URI.
    InvalidUrl(http::uri::InvalidUri),
    /// There is no method meta header.
    NoMetaMethod,
    /// The method meta header is not an HTTP method.
    InvalidMethod(http::method::InvalidMethod),
    /// There is no response-version meta header.
    NoMetaResVersion,
    /// The response-version meta header is not a known version.
    InvalidVersion(Vec<u8>),
    /// There is no response-status meta header.
    NoMetaResStatus,
    /// The response-status meta header is too short.
    MalformedMetaResStatus,
    /// The response-status meta header does not start with a status code.
    InvalidStatusCode(http::status::InvalidStatusCode),
    /// The response-decoded meta header has an item that is not an encoding.
    InvalidResDecoded(String),
}

/// Whether a failure is that for a fault.
pub open spec fn is_fault(e: DialogConvertError, f: ConvertFault) -> bool {
    match f {
        ConvertFault::NoUrl => e is NoMetaUrl,
        ConvertFault::BadUrl => e is InvalidUrl,
        ConvertFault::NoMethod => e is NoMetaMethod,
        ConvertFault::BadMethod => e is InvalidMethod,
        ConvertFault::NoVersion => e is NoMetaResVersion,
        ConvertFault::BadVersion(v) => e matches DialogConvertError::InvalidVersion(w) && w@ == v,
        ConvertFault::NoStatus => e is NoMetaResStatus,
        ConvertFault::MalformedStatus => e is MalformedMetaResStatus,
        ConvertFault::BadStatus => e is InvalidStatusCode,
        ConvertFault::BadDecoded(t) => e matches DialogConvertError::InvalidResDecoded(w) && w@ == t,
    }
}

/// The text of an `http::uri::InvalidUri`, which goes by what is wrong with the
/// URI.
pub uninterp spec fn uri_error_display(e: http::uri::InvalidUri) -> Seq<char>;

/// The text of an `http::uri::InvalidUri`, by its `Display` implementation.
#[verifier::external_body]
fn uri_error_text(e: &http::uri::InvalidUri) -> (s: String)
    ensures
        s@ == uri_error_display(*e),
{
    format!("{}", e)
}

/// The text of an `http::method::InvalidMethod`, by its `Display`
/// implementation, which is always the same.
#[verifier::external_body]
fn method_error_text(e: &http::method::InvalidMethod) -> (s: String)
    ensures
        s@ == "invalid HTTP method"@,
{
    format!("{}", e)
}

/// The text of an `http::status::InvalidStatusCode`, by its `Display`
/// implementation, which is always the same.
#[verifier::external_body]
fn status_error_text(e: &http::status::InvalidStatusCode) -> (s: String)
    ensures
        s@ == "invalid status code"@,
{
    format!("{}", e)
}

/// The text of some bytes in UTF-8, by `String::from_utf8`. `None` where they are
/// not.
#[verifier::external_body]
fn utf8_text(bytes: Vec<u8>) -> (r: Option<String>)
    ensures
        r is Some == vstd::utf8::valid_utf8(bytes@),
        r is Some ==> r->0@ == vstd::utf8::decode_utf8(bytes@),
{
    String::from_utf8(bytes).ok()
}

impl DialogConvertError {
    /// A description for the user.
    pub fn message(&self) -> (s: String)
        ensures
            match *self {
                DialogConvertError::NoMetaUrl => s@ == "No url meta header found"@,
                DialogConvertError::InvalidUrl(e) => s@ == "Invalid URI: "@ + uri_error_display(e),
                DialogConvertError::NoMetaMethod => s@ == "No method meta header found"@,
                DialogConvertError::InvalidMethod(_) => s@ == "Invalid HTTP Method: "@ + "invalid HTTP method"@,
                DialogConvertError::NoMetaResVersion => s@ == "No response-version meta header found"@,
                DialogConvertError::InvalidVersion(bs) => s@ == "Invalid HTTP Version: "@ + (
                if vstd::utf8::valid_utf8(bs@) {
                    vstd::utf8::decode_utf8(bs@)
                } else {
                    hex_list(bs@)
                }),
                DialogConvertError::NoMetaResStatus => s@ == "No response-status meta header found"@,
                DialogConvertError::MalformedMetaResStatus => s@
                    == "The response-status meta header is malformed"@,
                DialogConvertError::InvalidStatusCode(_) => s@ == "Invalid HTTP status code: "@
                    + "invalid status code"@,
                DialogConvertError::InvalidResDecoded(d) => s@
                    == "Invalid response-decoded header value: "@ + d@,
            },
    {
        match self {
            DialogConvertError::NoMetaUrl => "No url meta header found".to_owned(),
            DialogConvertError::InvalidUrl(e) => {
                let m = uri_error_text(e);
                concat("Invalid URI: ", m.as_str())
            },
            DialogConvertError::NoMetaMethod => "No method meta header found".to_owned(),
            DialogConvertError::InvalidMethod(e) => {
                let m = method_error_text(e);
                concat("Invalid HTTP Method: ", m.as_str())
            },
            DialogConvertError::NoMetaResVersion => "No response-version meta header found".to_owned(),
            DialogConvertError::InvalidVersion(bs) => {
                let mut s: String = "Invalid HTTP Version: ".to_owned();
                match utf8_text(vstd::slice::slice_to_vec(bs.as_slice())) {
                    Some(t) => {
                        s.append(t.as_str());
                    },
                    None => {
                        append_hex_list(&mut s, bs.as_slice());
                    },
                }
                s
            },
            DialogConvertError::NoMetaResStatus => "No response-status meta header found".to_owned(),
            DialogConvertError::MalformedMetaResStatus => {
                "The response-status meta header is malformed".to_owned()
            },
            DialogConvertError::InvalidStatusCode(e) => {
                let m = status_error_text(e);
                concat("Invalid HTTP status code: ", m.as_str())
            },
            DialogConvertError::InvalidResDecoded(d) => {
                concat("Invalid response-decoded header value: ", d.as_str())
            },
        }
    }
}

/// The version of some bytes.
fn parse_version(bytes: &[u8]) -> (r: Option<Version>)
    ensures
        r == version_named(bytes@),
{
    if is_ascii_text(bytes, "HTTP/0.9") {
        Some(Version::Http09)
    } else if is_ascii_text(bytes, "HTTP/1.0") {
        Some(Version::Http10)
    } else if is_ascii_text(bytes, "HTTP/1.1") {
        Some(Version::Http11)
    } else if is_ascii_text(bytes, "HTTP/2.0") {
        Some(Version::Http2)
    } else {
        None
    }
}

/// Whether some bytes are one of the texts of versions.
fn is_ascii_text(bytes: &[u8], text: &str) -> (b: bool)
    requires
        text@ == "HTTP/0.9"@ || text@ == "HTTP/1.0"@ || text@ == "HTTP/1.1"@ || text@ == "HTTP/2.0"@,
    ensures
        b == (bytes@ == ascii_bytes(text@)),
{
    proof {
        reveal_strlit("HTTP/0.9");
        reveal_strlit("HTTP/1.0");
        reveal_strlit("HTTP/1.1");
        reveal_strlit("HTTP/2.0");
        vstd::utf8::is_ascii_chars_encode_utf8(text@);
        assert(vstd::utf8::encode_utf8(text@) =~= ascii_bytes(text@));
    }
    bytes_eq(bytes, text.as_bytes())
}

impl<B> TryFromSpecImpl<Record<B>> for Dialog<B> {
    open spec fn obeys_try_from_spec() -> bool {
        false
    }

    open spec fn try_from_spec(rec: Record<B>) -> Result<Dialog<B>, DialogConvertError> {
        arbitrary()
    }
}

impl<B> TryFrom<Record<B>> for Dialog<B> {
    type Error = DialogConvertError;

    /// Convert a record to a dialog, by its meta headers. Fails where the record
    /// was not made of a dialog, or was changed since.
    fn try_from(rec: Record<B>) -> (r: Result<Dialog<B>, DialogConvertError>)
        ensures
            is_converted(rec, r),
    {
        let url = match get_header(&rec.meta, &hname_meta_url()) {
            Some(v) => match Url::from_bytes(v) {
                Ok(u) => u,
                Err(e) => {
                    return Err(DialogConvertError::InvalidUrl(e));
                },
            },
            None => {
                return Err(DialogConvertError::NoMetaUrl);
            },
        };
        let method = match get_header(&rec.meta, &hname_meta_method()) {
            Some(v) => match Method::from_bytes(v) {
                Ok(m) => m,
                Err(e) => {
                    return Err(DialogConvertError::InvalidMethod(e));
                },
            },
            None => {
                return Err(DialogConvertError::NoMetaMethod);
            },
        };
        let version = match get_header(&rec.meta, &hname_meta_res_version()) {
            Some(v) => match parse_version(v) {
                Some(version) => version,
                None => {
                    return Err(DialogConvertError::InvalidVersion(vstd::slice::slice_to_vec(v)));
                },
            },
            None => {
                return Err(DialogConvertError::NoMetaResVersion);
            },
        };
        let status: u16 = match get_header(&rec.meta, &hname_meta_res_status()) {
            Some(v) => {
                if v.len() < 3 {
                    return Err(DialogConvertError::MalformedMetaResStatus);
                }
                let code = vstd::slice::slice_subrange(v, 0, 3);
                assert(code@ =~= v@.take(3));
                match parse_status(code) {
                    Ok(s) => s,
                    Err(e) => {
                        return Err(DialogConvertError::InvalidStatusCode(e));
                    },
                }
            },
            None => {
                return Err(DialogConvertError::NoMetaResStatus);
            },
        };
        let res_decoded = match get_header(&rec.meta, &hname_meta_res_decoded()) {
            Some(v) => {
                if !is_visible_slice(v) {
                    let mut s = String::new();
                    append_hex_list(&mut s, v);
                    assert(s@ =~= hex_list(v@));
                    return Err(DialogConvertError::InvalidResDecoded(s));
                }
                match parse_encodings(v) {
                    Ok(d) => d,
                    Err(t) => {
                        return Err(DialogConvertError::InvalidResDecoded(t));
                    },
                }
            },
            None => Vec::new(),
        };
        Ok(
            Dialog::new(
                Prolog { method, url, req_headers: rec.req_headers, req_body: rec.req_body },
                Epilog {
                    version,
                    status,
                    res_decoded,
                    res_headers: rec.res_headers,
                    res_body: rec.res_body,
                },
            ),
        )
    }
}

/// The outcome of converting a record to a dialog.
pub open spec fn is_converted<B>(rec: Record<B>, r: Result<Dialog<B>, DialogConvertError>) -> bool {
    match dialog_meta(header_entries(rec.meta)) {
        Err(f) => r is Err && is_fault(r->Err_0, f),
        Ok(m) => {
            &&& r is Ok
            &&& r->Ok_0.valid()
            &&& meta_of(r->Ok_0) == m
            &&& r->Ok_0.pro.req_headers == rec.req_headers
            &&& r->Ok_0.pro.req_body == rec.req_body
            &&& r->Ok_0.epi.res_headers == rec.res_headers
            &&& r->Ok_0.epi.res_body == rec.res_body
        },
    }
}

/// What the meta headers of the record of a dialog say.
pub open spec fn meta_of<B>(d: Dialog<B>) -> DialogMeta {
    DialogMeta {
        url: d.pro.url@,
        method: d.pro.method@,
        version: d.epi.version,
        status: d.epi.status as int,
        decoded: d.epi.res_decoded@,
    }
}

/// The bytes of a text in UTF-8.
pub open spec fn utf8_bytes(s: Seq<char>) -> Seq<u8> {
    vstd::utf8::encode_utf8(s)
}

/// The meta headers of the record of a dialog.
pub open spec fn meta_headers(m: DialogMeta) -> Seq<Pair> {
    let four = seq![
        (ascii_bytes("url"@), utf8_bytes(m.url)),
        (ascii_bytes("method"@), utf8_bytes(m.method)),
        (ascii_bytes("response-version"@), utf8_bytes(m.version.spec_text())),
        (ascii_bytes("response-status"@), utf8_bytes(status_display(m.status as u16))),
    ];
    if m.decoded.len() == 0 {
        four
    } else {
        four.push((ascii_bytes("response-decoded"@), utf8_bytes(encodings_text(m.decoded))))
    }
}

/// The names of the meta headers of a dialog differ.
proof fn lemma_meta_names()
    ensures
        ascii_bytes("url"@) != ascii_bytes("method"@),
        ascii_bytes("url"@) != ascii_bytes("response-version"@),
        ascii_bytes("url"@) != ascii_bytes("response-status"@),
        ascii_bytes("url"@) != ascii_bytes("response-decoded"@),
        ascii_bytes("method"@) != ascii_bytes("response-version"@),
        ascii_bytes("method"@) != ascii_bytes("response-status"@),
        ascii_bytes("method"@) != ascii_bytes("response-decoded"@),
        ascii_bytes("response-version"@) != ascii_bytes("response-status"@),
        ascii_bytes("response-version"@) != ascii_bytes("response-decoded"@),
        ascii_bytes("response-status"@) != ascii_bytes("response-decoded"@),
{
    reveal_strlit("url");
    reveal_strlit("method");
    reveal_strlit("response-version");
    reveal_strlit("response-status");
    reveal_strlit("response-decoded");
    assert(ascii_bytes("url"@).len() == 3);
    assert(ascii_bytes("method"@).len() == 6);
    assert(ascii_bytes("response-version"@).len() == 16);
    assert(ascii_bytes("response-status"@).len() == 15);
    assert(ascii_bytes("response-decoded"@).len() == 16);
    assert(ascii_bytes("response-version"@)[9] == 0x76);
    assert(ascii_bytes("response-decoded"@)[9] == 0x64);
}

/// Adding a header of a new name adds it last.
proof fn lemma_append_new(s: Seq<Pair>, name: Seq<u8>, value: Seq<u8>)
    requires
        forall|i: int| 0 <= i < s.len() ==> (#[trigger] s[i]).0 != name,
    ensures
        with_appended(s, name, value) == s.push((name, value)),
{
    lemma_last_of_none(s, name);
}

/// There is no last header of a name that does not occur.
proof fn lemma_last_of_none(s: Seq<Pair>, name: Seq<u8>)
    requires
        forall|i: int| 0 <= i < s.len() ==> (#[trigger] s[i]).0 != name,
    ensures
        last_of(s, name) == -1,
    decreases s.len(),
{
    if s.len() > 0 {
        let t = s.drop_last();
        assert forall|i: int| 0 <= i < t.len() implies (#[trigger] t[i]).0 != name by {
            assert(t[i] == s[i]);
        }
        assert(s[s.len() - 1].0 != name);
        lemma_last_of_none(t, name);
    }
}

/// The values of a name that occurs once.
proof fn lemma_one_value(s: Seq<Pair>, k: int)
    requires
        0 <= k < s.len(),
        forall|i: int| 0 <= i < s.len() && i != k ==> (#[trigger] s[i]).0 != s[k].0,
    ensures
        first_value(s, s[k].0) == Some(s[k].1),
        values_of(s, s[k].0).len() == 1,
    decreases s.len(),
{
    let t = s.drop_last();
    if k == s.len() - 1 {
        assert forall|i: int| 0 <= i < t.len() implies (#[trigger] t[i]).0 != s[k].0 by {
            assert(t[i] == s[i]);
        }
        lemma_no_values(t, s[k].0);
    } else {
        assert forall|i: int| 0 <= i < t.len() && i != k implies (#[trigger] t[i]).0 != t[k].0 by {
            assert(t[i] == s[i]);
            assert(t[k] == s[k]);
        }
        assert(t[k] == s[k]);
        assert(s[s.len() - 1].0 != s[k].0);
        lemma_one_value(t, k);
    }
}

/// The values of a name that does not occur.
proof fn lemma_no_values(s: Seq<Pair>, name: Seq<u8>)
    requires
        forall|i: int| 0 <= i < s.len() ==> (#[trigger] s[i]).0 != name,
    ensures
        values_of(s, name).len() == 0,
    decreases s.len(),
{
    if s.len() > 0 {
        let t = s.drop_last();
        assert forall|i: int| 0 <= i < t.len() implies (#[trigger] t[i]).0 != name by {
            assert(t[i] == s[i]);
        }
        assert(s[s.len() - 1].0 != name);
        lemma_no_values(t, name);
    }
}

/// Whether a dialog is one that a record can be converted back to: the version
/// is one that is known, and the URL is not too long to be parsed.
pub open spec fn is_convertible<B>(d: Dialog<B>) -> bool {
    !(d.epi.version is Http3) && d.pro.url@.len() <= MAX_URL
}

/// The outcome of converting a dialog to a record. It succeeds if the status code
/// is within the range of these.
pub open spec fn is_recorded<B>(d: Dialog<B>, r: Result<Record<B>, BarcError>) -> bool {
    if 100 <= d.epi.status <= 999 {
        &&& r is Ok
        &&& r->Ok_0.rec_type == RecordType::Dialog
        &&& header_entries(r->Ok_0.meta) == meta_headers(meta_of(d))
        &&& is_status_text(status_display(d.epi.status), d.epi.status as int)
        &&& r->Ok_0.req_headers == d.pro.req_headers
        &&& r->Ok_0.req_body == d.pro.req_body
        &&& r->Ok_0.res_headers == d.epi.res_headers
        &&& r->Ok_0.res_body == d.epi.res_body
    } else {
        r == Err::<Record<B>, BarcError>(BarcError::InvalidHeader(HeaderError::Value))
    }
}

/// A dialog that is converted to a record and back is the same, and so is the
/// record of it.
pub proof fn law_dialog_round_trip<B>(
    d: Dialog<B>,
    rec: Record<B>,
    back: Result<Dialog<B>, DialogConvertError>,
    again: Result<Record<B>, BarcError>,
)
    requires
        d.valid(),
        is_convertible(d),
        is_recorded(d, Ok(rec)),
        is_converted(rec, back),
        back is Ok ==> is_recorded(back->Ok_0, again),
    ensures
        back is Ok,
        ({
            let b = back->Ok_0;
            &&& b.pro.method@ == d.pro.method@
            &&& b.pro.url@ == d.pro.url@
            &&& b.pro.req_headers == d.pro.req_headers
            &&& b.pro.req_body == d.pro.req_body
            &&& b.epi.version == d.epi.version
            &&& b.epi.status == d.epi.status
            &&& b.epi.res_decoded@ == d.epi.res_decoded@
            &&& b.epi.res_headers == d.epi.res_headers
            &&& b.epi.res_body == d.epi.res_body
        }),
        again is Ok,
        ({
            let a = again->Ok_0;
            &&& a.rec_type == rec.rec_type
            &&& header_entries(a.meta) == header_entries(rec.meta)
            &&& a.req_headers == rec.req_headers
            &&& a.req_body == rec.req_body
            &&& a.res_headers == rec.res_headers
            &&& a.res_body == rec.res_body
        }),
{
    lemma_meta_read_back(meta_of(d));
    assert(meta_of(back->Ok_0) == meta_of(d));
}

/// The UTF-8 bytes of an ASCII text are its characters.
proof fn lemma_utf8_ascii(s: Seq<char>)
    requires
        forall|i: int| #![trigger s[i]] 0 <= i < s.len() ==> '\0' <= s[i] <= '\u{7f}',
    ensures
        utf8_bytes(s) == ascii_bytes(s),
{
    vstd::utf8::is_ascii_chars_encode_utf8(s);
    assert(utf8_bytes(s) =~= ascii_bytes(s));
}

/// The texts of encodings are in lower case.
proof fn lemma_encodings_text_ascii(v: Seq<Encoding>)
    ensures
        forall|i: int| #![trigger encodings_text(v)[i]]
            0 <= i < encodings_text(v).len() ==> '\u{20}' <= encodings_text(v)[i] <= '\u{7e}',
    decreases v.len(),
{
    reveal_strlit(", ");
    if v.len() == 1 {
        lemma_encoding_text(v[0]);
    } else if v.len() > 1 {
        lemma_encodings_text_ascii(v.drop_last());
        lemma_encoding_text(v.last());
        let a = encodings_text(v.drop_last());
        let t = v.last().spec_text();
        assert forall|i: int| #![trigger encodings_text(v)[i]]
            0 <= i < encodings_text(v).len() implies '\u{20}' <= encodings_text(v)[i] <= '\u{7e}' by {
            if i < a.len() {
                assert(encodings_text(v)[i] == a[i]);
            } else if i < a.len() + 2 {
                assert(encodings_text(v)[i] == ", "@[i - a.len()]);
            } else {
                assert(encodings_text(v)[i] == t[i - a.len() - 2]);
            }
        }
    }
}

/// The versions that are known are read back.
proof fn lemma_version_read_back(v: Version)
    requires
        !(v is Http3),
    ensures
        version_named(utf8_bytes(v.spec_text())) == Some(v),
{
    reveal_strlit("HTTP/0.9");
    reveal_strlit("HTTP/1.0");
    reveal_strlit("HTTP/1.1");
    reveal_strlit("HTTP/2.0");
    lemma_utf8_ascii(v.spec_text());
    assert(ascii_bytes("HTTP/0.9"@)[5] == 0x30);
    assert(ascii_bytes("HTTP/1.0"@)[5] == 0x31 && ascii_bytes("HTTP/1.0"@)[7] == 0x30);
    assert(ascii_bytes("HTTP/1.1"@)[5] == 0x31 && ascii_bytes("HTTP/1.1"@)[7] == 0x31);
    assert(ascii_bytes("HTTP/2.0"@)[5] == 0x32);
}

/// The meta headers of a dialog say what they were made of, if the text of the
/// status code is as it should be.
proof fn lemma_meta_read_back(m: DialogMeta)
    requires
        is_url(m.url),
        m.url.len() <= MAX_URL,
        is_method_text(m.method),
        !(m.version is Http3),
        is_status_text(status_display(m.status as u16), m.status),
    ensures
        dialog_meta(meta_headers(m)) == Ok::<DialogMeta, ConvertFault>(m),
{
    let s = meta_headers(m);
    lemma_meta_names();
    lemma_one_value(s, 0);
    lemma_one_value(s, 1);
    lemma_one_value(s, 2);
    lemma_one_value(s, 3);
    lemma_utf8_ascii(m.url);
    lemma_utf8_ascii(m.method);
    lemma_ascii_there_and_back(m.method);
    lemma_version_read_back(m.version);
    let t = status_display(m.status as u16);
    lemma_utf8_ascii(t);
    assert(ascii_bytes(t).take(3)[0] == ascii_bytes(t)[0]);
    if m.decoded.len() > 0 {
        lemma_one_value(s, 4);
        let e = encodings_text(m.decoded);
        lemma_encodings_text_ascii(m.decoded);
        lemma_utf8_ascii(e);
        law_encodings_round_trip(m.decoded);
        assert(is_visible(ascii_bytes(e))) by {
            assert forall|i: int| 0 <= i < ascii_bytes(e).len() implies crate::headers::is_value_byte(
                #[trigger] ascii_bytes(e)[i],
            ) && ascii_bytes(e)[i] < 0x7f by {
                assert('\u{20}' <= e[i] <= '\u{7e}');
            }
        }
    } else {
        assert forall|i: int| 0 <= i < s.len() implies (#[trigger] s[i]).0 != ascii_bytes(
            "response-decoded"@,
        ) by {}
        lemma_no_values(s, ascii_bytes("response-decoded"@));
        assert(m.decoded =~= Seq::<Encoding>::empty());
    }
}

/// A text that is visible ASCII and spaces is a header value.
proof fn lemma_text_value(s: Seq<char>)
    requires
        forall|i: int| #![trigger s[i]] 0 <= i < s.len() ==> '\u{20}' <= s[i] <= '\u{7e}',
    ensures
        is_value(utf8_bytes(s)),
{
    lemma_utf8_ascii(s);
    assert forall|i: int| 0 <= i < ascii_bytes(s).len() implies crate::headers::is_value_byte(
        #[trigger] ascii_bytes(s)[i],
    ) by {
        assert('\u{20}' <= s[i] <= '\u{7e}');
    }
}

/// The meta headers of a dialog are valid.
proof fn lemma_meta_values(m: DialogMeta)
    requires
        is_plain_text(m.url),
        is_plain_text(m.method),
        is_status_text(status_display(m.status as u16), m.status),
    ensures
        forall|i: int| 0 <= i < meta_headers(m).len() ==> is_value((#[trigger] meta_headers(m)[i]).1),
{
    reveal_strlit("HTTP/0.9");
    reveal_strlit("HTTP/1.0");
    reveal_strlit("HTTP/1.1");
    reveal_strlit("HTTP/2.0");
    reveal_strlit("HTTP/3.0");
    lemma_text_value(m.url);
    lemma_text_value(m.method);
    lemma_text_value(m.version.spec_text());
    lemma_text_value(status_display(m.status as u16));
    lemma_encodings_text_ascii(m.decoded);
    lemma_text_value(encodings_text(m.decoded));
}

impl<B> TryFromSpecImpl<Dialog<B>> for Record<B> {
    open spec fn obeys_try_from_spec() -> bool {
        false
    }

    open spec fn try_from_spec(dialog: Dialog<B>) -> Result<Record<B>, BarcError> {
        arbitrary()
    }
}

impl<B> TryFrom<Dialog<B>> for Record<B> {
    type Error = BarcError;

    /// Convert a dialog to a record, with meta headers for what is not part of
    /// the HTTP headers and bodies. Fails where the status code is not within the
    /// range of these.
    fn try_from(dialog: Dialog<B>) -> (r: Result<Record<B>, BarcError>)
        ensures
            is_recorded(dialog, r),
            r is Ok && is_convertible(dialog) ==> dialog_meta(header_entries(r->Ok_0.meta)) == Ok::<
                DialogMeta,
                ConvertFault,
            >(meta_of(dialog)),
    {
        let ghost want = meta_headers(meta_of(dialog));
        proof {
            use_type_invariant(&dialog.pro.method);
            use_type_invariant(&dialog.pro.url);
        }
        let (prolog, epilog) = dialog.explode();
        if epilog.status < 100 || epilog.status > 999 {
            return Err(BarcError::InvalidHeader(HeaderError::Value));
        }
        proof {
            lemma_meta_names();
        }
        let status = status_text(epilog.status);
        proof {
            if is_convertible(dialog) {
                lemma_meta_read_back(meta_of(dialog));
            }
            lemma_meta_values(meta_of(dialog));
        }
        let mut meta = HeaderMap::new();
        match HeaderValue::from_bytes(prolog.url.as_str().as_bytes()) {
            Ok(v) => {
                proof {
                    lemma_append_new(header_entries(meta), ascii_bytes("url"@), header_value_bytes(v));
                }
                append_header(&mut meta, hname_meta_url(), v);
            },
            Err(_) => {
                assert(!is_value(want[0].1));
                return Err(BarcError::InvalidHeader(HeaderError::Value));
            },
        }
        match HeaderValue::from_bytes(prolog.method.as_str().as_bytes()) {
            Ok(v) => {
                proof {
                    lemma_append_new(header_entries(meta), ascii_bytes("method"@), header_value_bytes(v));
                }
                append_header(&mut meta, hname_meta_method(), v);
            },
            Err(_) => {
                assert(!is_value(want[1].1));
                return Err(BarcError::InvalidHeader(HeaderError::Value));
            },
        }
        match HeaderValue::from_bytes(epilog.version.text().as_bytes()) {
            Ok(v) => {
                proof {
                    lemma_append_new(
                        header_entries(meta),
                        ascii_bytes("response-version"@),
                        header_value_bytes(v),
                    );
                }
                append_header(&mut meta, hname_meta_res_version(), v);
            },
            Err(_) => {
                assert(!is_value(want[2].1));
                return Err(BarcError::InvalidHeader(HeaderError::Value));
            },
        }
        match HeaderValue::from_bytes(status.as_str().as_bytes()) {
            Ok(v) => {
                proof {
                    lemma_append_new(
                        header_entries(meta),
                        ascii_bytes("response-status"@),
                        header_value_bytes(v),
                    );
                }
                append_header(&mut meta, hname_meta_res_status(), v);
            },
            Err(_) => {
                assert(!is_value(want[3].1));
                return Err(BarcError::InvalidHeader(HeaderError::Value));
            },
        }
        if epilog.res_decoded.len() > 0 {
            let joined = join_encodings(&epilog.res_decoded);
            match HeaderValue::from_bytes(joined.as_str().as_bytes()) {
                Ok(v) => {
                    proof {
                        lemma_append_new(
                            header_entries(meta),
                            ascii_bytes("response-decoded"@),
                            header_value_bytes(v),
                        );
                    }
                    append_header(&mut meta, hname_meta_res_decoded(), v);
                },
                Err(_) => {
                    assert(!is_value(want[4].1));
                    return Err(BarcError::InvalidHeader(HeaderError::Value));
                },
            }
        }
        assert(header_entries(meta) =~= want);
        Ok(
            Record {
                rec_type: RecordType::Dialog,
                meta,
                req_headers: prolog.req_headers,
                req_body: prolog.req_body,
                res_headers: epilog.res_headers,
                res_body: epilog.res_body,
            },
        )
    }
}

/// Which texts are encodings, and which encoding each is. There are no others.
pub proof fn law_encoding_names(s: &str, r: Option<Encoding>)
    requires
        call_ensures(parse_encoding, (s,), r),
    ensures
        s@ == "chunked"@ <==> r == Some(Encoding::Chunked),
        s@ == "compress"@ <==> r == Some(Encoding::Compress),
        s@ == "deflate"@ <==> r == Some(Encoding::Deflate),
        s@ == "gzip"@ <==> r == Some(Encoding::Gzip),
        s@ == "br"@ <==> r == Some(Encoding::Brotli),
        s@ == "identity"@ <==> r == Some(Encoding::Identity),
{
    lemma_encoding_text(Encoding::Chunked);
    lemma_encoding_text(Encoding::Compress);
    lemma_encoding_text(Encoding::Deflate);
    lemma_encoding_text(Encoding::Gzip);
    lemma_encoding_text(Encoding::Brotli);
    lemma_encoding_text(Encoding::Identity);
}

/// The text of an encoding is read back as that encoding.
pub proof fn law_encoding_is_read_back(e: Encoding, text: &'static str, r: Option<Encoding>)
    requires
        call_ensures(Encoding::text, (&e,), text),
        call_ensures(parse_encoding, (text,), r),
    ensures
        r == Some(e),
{
    lemma_encoding_text(e);
}

/// A list without a comma is one item, without the white space around it. Either
/// that is an encoding, or the list has this fault.
pub proof fn law_one_encoding(list: &[u8], item: &str, e: Option<Encoding>, r: Result<Vec<Encoding>, String>)
    requires
        !list@.contains(0x2c),
        item@ == trimmed(ascii_chars(list@)),
        call_ensures(parse_encoding, (item,), e),
        call_ensures(parse_encodings, (list,), r),
    ensures
        e is Some ==> r is Ok && r->Ok_0@ == seq![e->0],
        e is None ==> r is Err && r->Err_0@ == item@,
{
    lemma_comma_is(list@, list@.len() as int);
    assert(list@.take(list@.len() as int) =~= list@);
}

/// A list with a comma is the item before the first one, and the list after it.
/// The first item that is not an encoding is the fault of the list.
pub proof fn law_more_encodings(
    list: &[u8],
    first: Seq<u8>,
    rest: &[u8],
    item: &str,
    e: Option<Encoding>,
    others: Result<Vec<Encoding>, String>,
    r: Result<Vec<Encoding>, String>,
)
    requires
        list@ == first + seq![0x2c] + rest@,
        !first.contains(0x2c),
        item@ == trimmed(ascii_chars(first)),
        call_ensures(parse_encoding, (item,), e),
        call_ensures(parse_encodings, (rest,), others),
        call_ensures(parse_encodings, (list,), r),
    ensures
        e is None ==> r is Err && r->Err_0@ == item@,
        e is Some && others is Err ==> r is Err && r->Err_0@ == others->Err_0@,
        e is Some && others is Ok ==> r is Ok && r->Ok_0@ == seq![e->0] + others->Ok_0@,
{
    let n = first.len() as int;
    assert forall|i: int| 0 <= i < n implies list@[i] != 0x2c by {
        assert(list@[i] == first[i]);
    }
    assert(list@[n] == 0x2c);
    lemma_comma_is(list@, n);
    assert(list@.take(n) =~= first);
    assert(list@.skip(n + 1) =~= rest@);
}

/// Encodings are joined in their order, with a comma and a space between each two.
pub proof fn law_joined_encodings(
    v: Vec<Encoding>,
    w: Vec<Encoding>,
    e: Encoding,
    text: &'static str,
    s: String,
    t: String,
)
    requires
        w@ == v@.push(e),
        call_ensures(Encoding::text, (&e,), text),
        call_ensures(join_encodings, (&v,), s),
        call_ensures(join_encodings, (&w,), t),
    ensures
        v@.len() == 0 ==> s@ == Seq::<char>::empty() && t@ == text@,
        v@.len() > 0 ==> t@ == s@ + seq![',', ' '] + text@,
{
    reveal_strlit(", ");
    assert(", "@ =~= seq![',', ' ']);
    assert(w@.drop_last() =~= v@);
}

/// Encodings that are joined are read back as they were.
pub proof fn law_joined_encodings_come_back(
    v: Vec<Encoding>,
    s: String,
    list: &[u8],
    r: Result<Vec<Encoding>, String>,
)
    requires
        v@.len() > 0,
        call_ensures(join_encodings, (&v,), s),
        list@ == vstd::utf8::encode_utf8(s@),
        call_ensures(parse_encodings, (list,), r),
    ensures
        r is Ok,
        r->Ok_0@ == v@,
{
    law_encodings_round_trip(v@);
    lemma_encodings_text_ascii(v@);
    lemma_utf8_ascii(s@);
}

/// The digits of a number of three digits.
proof fn lemma_three_digits(n: int, a: int, b: int, c: int)
    requires
        0 <= a <= 9,
        0 <= b <= 9,
        0 <= c <= 9,
        n == a * 100 + b * 10 + c,
    ensures
        n / 100 == a,
        n / 10 % 10 == b,
        n % 10 == c,
{
    assert(n / 10 == a * 10 + b);
}

/// What the record of a dialog holds: the headers and bodies of the dialog, and
/// meta headers for its URL, method, version and status, in this order, and for
/// the encodings that were removed, if there are any. The status is that of three
/// digits, with which the value of its meta header starts. A dialog whose status
/// is not of three digits has no record.
pub proof fn law_record_of_dialog<B>(
    d: Dialog<B>,
    r: Result<Record<B>, BarcError>,
    version: &'static str,
    decoded: String,
)
    requires
        call_ensures(<Record<B> as TryFrom<Dialog<B>>>::try_from, (d,), r),
        call_ensures(Version::text, (&d.epi.version,), version),
        call_ensures(join_encodings, (&d.epi.res_decoded,), decoded),
    ensures
        r is Ok <==> 100 <= d.epi.status <= 999,
        r is Err ==> r->Err_0 == BarcError::InvalidHeader(HeaderError::Value),
        r matches Ok(rec) ==> {
            let meta = header_entries(rec.meta);
            &&& rec.rec_type is Dialog
            &&& rec.req_headers == d.pro.req_headers
            &&& rec.req_body == d.pro.req_body
            &&& rec.res_headers == d.epi.res_headers
            &&& rec.res_body == d.epi.res_body
            &&& meta.len() == (if d.epi.res_decoded@.len() == 0 {
                4int
            } else {
                5
            })
            &&& meta[0].0 == ascii_bytes("url"@)
            &&& meta[0].1 == vstd::utf8::encode_utf8(d.pro.url@)
            &&& meta[1].0 == ascii_bytes("method"@)
            &&& meta[1].1 == vstd::utf8::encode_utf8(d.pro.method@)
            &&& meta[2].0 == ascii_bytes("response-version"@)
            &&& meta[2].1 == vstd::utf8::encode_utf8(version@)
            &&& meta[3].0 == ascii_bytes("response-status"@)
            &&& meta[3].1.len() >= 3
            &&& meta[3].1[0] == 0x30 + d.epi.status / 100
            &&& meta[3].1[1] == 0x30 + d.epi.status / 10 % 10
            &&& meta[3].1[2] == 0x30 + d.epi.status % 10
            &&& d.epi.res_decoded@.len() > 0 ==> meta[4].0 == ascii_bytes("response-decoded"@) && meta[4].1
                == vstd::utf8::encode_utf8(decoded@)
        },
{
    if r is Ok {
        let t = status_display(d.epi.status);
        lemma_utf8_ascii(t);
        let b = ascii_bytes(t);
        assert(b.take(3)[0] == b[0]);
        assert(b.take(3)[1] == b[1]);
        assert(b.take(3)[2] == b[2]);
        lemma_three_digits(d.epi.status as int, b[0] - 0x30, b[1] - 0x30, b[2] - 0x30);
    }
}

/// What a record is converted to, by the first values of its meta headers, and on
/// which values it is not. The first fault in the order of url, method,
/// response-version, response-status and response-decoded is the one that is
/// reported.
pub proof fn law_dialog_of_record<B>(
    rec: Record<B>,
    r: Result<Dialog<B>, DialogConvertError>,
    url: &[u8],
    method: &[u8],
    version: &[u8],
    status: &[u8],
    decoded: &[u8],
    found_url: Result<Url, http::uri::InvalidUri>,
    found_method: Result<Method, http::method::InvalidMethod>,
    found_decoded: Result<Vec<Encoding>, String>,
)
    requires
        call_ensures(<Dialog<B> as TryFrom<Record<B>>>::try_from, (rec,), r),
        ({
            let meta = header_entries(rec.meta);
            &&& values_of(meta, ascii_bytes("url"@)).len() > 0 ==> url@ == values_of(meta, ascii_bytes("url"@))[0]
            &&& values_of(meta, ascii_bytes("method"@)).len() > 0 ==> method@ == values_of(
                meta,
                ascii_bytes("method"@),
            )[0]
            &&& values_of(meta, ascii_bytes("response-version"@)).len() > 0 ==> version@ == values_of(
                meta,
                ascii_bytes("response-version"@),
            )[0]
            &&& values_of(meta, ascii_bytes("response-status"@)).len() > 0 ==> status@ == values_of(
                meta,
                ascii_bytes("response-status"@),
            )[0]
            &&& values_of(meta, ascii_bytes("response-decoded"@)).len() > 0 ==> decoded@ == values_of(
                meta,
                ascii_bytes("response-decoded"@),
            )[0]
        }),
        call_ensures(Url::from_bytes, (url,), found_url),
        call_ensures(Method::from_bytes, (method,), found_method),
        call_ensures(parse_encodings, (decoded,), found_decoded),
    ensures
        ({
            let meta = header_entries(rec.meta);
            let has_url = values_of(meta, ascii_bytes("url"@)).len() > 0;
            let has_method = values_of(meta, ascii_bytes("method"@)).len() > 0;
            let has_version = values_of(meta, ascii_bytes("response-version"@)).len() > 0;
            let has_status = values_of(meta, ascii_bytes("response-status"@)).len() > 0;
            let has_decoded = values_of(meta, ascii_bytes("response-decoded"@)).len() > 0;
            let version_known = version@ == ascii_bytes("HTTP/0.9"@) || version@ == ascii_bytes("HTTP/1.0"@)
                || version@ == ascii_bytes("HTTP/1.1"@) || version@ == ascii_bytes("HTTP/2.0"@);
            let upto_url = has_url && found_url is Ok;
            let upto_method = upto_url && has_method && found_method is Ok;
            let upto_version = upto_method && has_version && version_known;
            let upto_status = upto_version && has_status && status@.len() >= 3 && 0x31 <= status@[0] <= 0x39 && 0x30
                <= status@[1] <= 0x39 && 0x30 <= status@[2] <= 0x39;
            let decoded_fine = has_decoded ==> is_visible(decoded@) && found_decoded is Ok;
            &&& r is Ok <==> upto_status && decoded_fine
            &&& !has_url <==> (r matches Err(e) && e is NoMetaUrl)
            &&& has_url && !upto_url <==> (r matches Err(e) && e is InvalidUrl)
            &&& upto_url && !has_method <==> (r matches Err(e) && e is NoMetaMethod)
            &&& upto_url && has_method && !upto_method <==> (r matches Err(e) && e is InvalidMethod)
            &&& upto_method && !has_version <==> (r matches Err(e) && e is NoMetaResVersion)
            &&& upto_method && has_version && !upto_version <==> (r matches Err(
                DialogConvertError::InvalidVersion(v),
            ) && v@ == version@)
            &&& upto_version && !has_status <==> (r matches Err(e) && e is NoMetaResStatus)
            &&& upto_version && has_status && status@.len() < 3
                <==> (r matches Err(e) && e is MalformedMetaResStatus)
            &&& upto_version && has_status && status@.len() >= 3 && !upto_status <==> (r matches Err(e)
                && e is InvalidStatusCode)
            &&& upto_status && has_decoded && !is_visible(decoded@) ==> (r matches Err(
                DialogConvertError::InvalidResDecoded(t),
            ) && t@ == hex_list(decoded@))
            &&& upto_status && has_decoded && is_visible(decoded@) && found_decoded is Err ==> (r matches Err(
                DialogConvertError::InvalidResDecoded(t),
            ) && t@ == found_decoded->Err_0@)
            &&& r matches Ok(d) ==> {
                &&& d.pro.url@ == found_url->Ok_0@
                &&& d.pro.method@ == found_method->Ok_0@
                &&& d.epi.version is Http09 <==> version@ == ascii_bytes("HTTP/0.9"@)
                &&& d.epi.version is Http10 <==> version@ == ascii_bytes("HTTP/1.0"@)
                &&& d.epi.version is Http11 <==> version@ == ascii_bytes("HTTP/1.1"@)
                &&& d.epi.version is Http2 <==> version@ == ascii_bytes("HTTP/2.0"@)
                &&& d.epi.status == (status@[0] - 0x30) * 100 + (status@[1] - 0x30) * 10 + (status@[2] - 0x30)
                &&& d.epi.res_decoded@ == (if has_decoded {
                    found_decoded->Ok_0@
                } else {
                    Seq::<Encoding>::empty()
                })
                &&& d.pro.req_headers == rec.req_headers
                &&& d.pro.req_body == rec.req_body
                &&& d.epi.res_headers == rec.res_headers
                &&& d.epi.res_body == rec.res_body
            }
        }),
{
    reveal_strlit("HTTP/0.9");
    reveal_strlit("HTTP/1.0");
    reveal_strlit("HTTP/1.1");
    reveal_strlit("HTTP/2.0");
    assert(ascii_bytes("HTTP/0.9"@)[5] == 0x30);
    assert(ascii_bytes("HTTP/1.0"@)[5] == 0x31 && ascii_bytes("HTTP/1.0"@)[7] == 0x30);
    assert(ascii_bytes("HTTP/1.1"@)[5] == 0x31 && ascii_bytes("HTTP/1.1"@)[7] == 0x31);
    assert(ascii_bytes("HTTP/2.0"@)[5] == 0x32);
    if status@.len() >= 3 {
        assert(status@.take(3)[0] == status@[0]);
        assert(status@.take(3)[1] == status@[1]);
        assert(status@.take(3)[2] == status@[2]);
    }
}

/// A dialog with a known version, whose URL is not too long, is what its record is
/// converted back to.
pub proof fn law_dialog_comes_back<B>(
    d: Dialog<B>,
    rec: Record<B>,
    back: Result<Dialog<B>, DialogConvertError>,
)
    requires
        d.valid(),
        !(d.epi.version is Http3),
        d.pro.url@.len() <= 65534,
        call_ensures(<Record<B> as TryFrom<Dialog<B>>>::try_from, (d,), Ok(rec)),
        call_ensures(<Dialog<B> as TryFrom<Record<B>>>::try_from, (rec,), back),
    ensures
        back is Ok,
        back->Ok_0.pro.method@ == d.pro.method@,
        back->Ok_0.pro.url@ == d.pro.url@,
        back->Ok_0.pro.req_headers == d.pro.req_headers,
        back->Ok_0.pro.req_body == d.pro.req_body,
        back->Ok_0.epi.version == d.epi.version,
        back->Ok_0.epi.status == d.epi.status,
        back->Ok_0.epi.res_decoded@ == d.epi.res_decoded@,
        back->Ok_0.epi.res_headers == d.epi.res_headers,
        back->Ok_0.epi.res_body == d.epi.res_body,
{
    lemma_meta_read_back(meta_of(d));
    assert(meta_of(back->Ok_0) == meta_of(d));
}

/// The description of each failure to convert a record.
pub proof fn law_convert_messages(e: DialogConvertError, s: String)
    requires
        call_ensures(DialogConvertError::message, (&e,), s),
    ensures
        e is NoMetaUrl ==> s@ == "No url meta header found"@,
        e is NoMetaMethod ==> s@ == "No method meta header found"@,
        e is NoMetaResVersion ==> s@ == "No response-version meta header found"@,
        e is NoMetaResStatus ==> s@ == "No response-status meta header found"@,
        e is MalformedMetaResStatus ==> s@ == "The response-status meta header is malformed"@,
        e is InvalidMethod ==> s@ == "Invalid HTTP Method: "@ + "invalid HTTP method"@,
        e is InvalidStatusCode ==> s@ == "Invalid HTTP status code: "@ + "invalid status code"@,
        e matches DialogConvertError::InvalidUrl(u) ==> s@ == "Invalid URI: "@ + uri_error_display(u),
        e matches DialogConvertError::InvalidResDecoded(d)
            ==> s@ == "Invalid response-decoded header value: "@ + d@,
        e matches DialogConvertError::InvalidVersion(v) ==> s@ == "Invalid HTTP Version: "@ + (
        if vstd::utf8::valid_utf8(v@) {
            vstd::utf8::decode_utf8(v@)
        } else {
            hex_list(v@)
        }),
{
}

} // verus!
