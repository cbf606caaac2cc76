//! Maps of HTTP headers, and blocks of header lines.
//!
//! The maps are [`http::HeaderMap`]. What the library relies on of them, and of
//! the parser of header blocks, is stated here.
use http::header::{HeaderMap, HeaderName, HeaderValue, InvalidHeaderName, InvalidHeaderValue};
use httparse::{Error as ParseError, Status};
use vstd::prelude::*;

verus! {

/// A header: its name, in lower case, and its value.
pub type Pair = (Seq<u8>, Seq<u8>);

/// `http::header::HeaderMap`, a multi-map from header names to values.
#[verifier::external_type_specification]
#[verifier::external_body]
#[verifier::reject_recursive_types(T)]
pub struct ExHeaderMap<T>(HeaderMap<T>);

/// `http::header::HeaderName`.
#[verifier::external_type_specification]
#[verifier::external_body]
pub struct ExHeaderName(HeaderName);

/// `http::header::HeaderValue`.
#[verifier::external_type_specification]
#[verifier::external_body]
pub struct ExHeaderValue(HeaderValue);

/// `http::header::InvalidHeaderName`.
#[verifier::external_type_specification]
#[verifier::external_body]
pub struct ExInvalidHeaderName(InvalidHeaderName);

/// `http::header::InvalidHeaderValue`.
#[verifier::external_type_specification]
#[verifier::external_body]
pub struct ExInvalidHeaderValue(InvalidHeaderValue);

/// The headers that a map holds, in the order in which it is walked.
pub uninterp spec fn header_entries(m: HeaderMap<HeaderValue>) -> Seq<(Seq<u8>, Seq<u8>)>;

/// The bytes of a header name.
pub uninterp spec fn header_name_bytes(n: HeaderName) -> Seq<u8>;

/// The bytes of a header value.
pub uninterp spec fn header_value_bytes(v: HeaderValue) -> Seq<u8>;

/// Whether a byte, other than a capital letter, may occur in a header name.
pub open spec fn is_name_byte(b: u8) -> bool {
    ||| 0x61 <= b <= 0x7a
    ||| 0x30 <= b <= 0x39
    ||| 0x21 <= b <= 0x27
    ||| b == 0x2a || b == 0x2b || b == 0x2d || b == 0x2e
    ||| b == 0x5e || b == 0x5f || b == 0x60
    ||| b == 0x7c || b == 0x7e
}

/// The lower case of a byte.
pub open spec fn lower_byte(b: u8) -> u8 {
    if 0x41 <= b <= 0x5a {
        (b + 0x20) as u8
    } else {
        b
    }
}

/// The lower case of some bytes.
pub open spec fn lower(s: Seq<u8>) -> Seq<u8> {
    s.map_values(|b: u8| lower_byte(b))
}

/// Whether some bytes are a header name, once in lower case.
pub open spec fn is_name(s: Seq<u8>) -> bool {
    &&& 0 < s.len() <= 0xffff
    &&& forall|i: int| 0 <= i < s.len() ==> is_name_byte(lower_byte(#[trigger] s[i]))
}

/// Whether a byte may occur in a header value.
pub open spec fn is_value_byte(b: u8) -> bool {
    b >= 0x20 && b != 0x7f || b == 0x09
}

/// Whether some bytes are a header value.
pub open spec fn is_value(s: Seq<u8>) -> bool {
    forall|i: int| 0 <= i < s.len() ==> is_value_byte(#[trigger] s[i])
}

/// Whether some bytes are visible ASCII characters, spaces and tabs.
pub open spec fn is_visible(s: Seq<u8>) -> bool {
    forall|i: int| 0 <= i < s.len() ==> is_value_byte(#[trigger] s[i]) && s[i] < 0x7f
}

/// Whether some bytes are visible ASCII characters, spaces and tabs.
pub fn is_visible_slice(v: &[u8]) -> (b: bool)
    ensures
        b == is_visible(v@),
{
    let mut i: usize = 0;
    while i < v.len()
        invariant
            i <= v@.len(),
            forall|k: int| 0 <= k < i ==> is_value_byte(#[trigger] v@[k]) && v@[k] < 0x7f,
        decreases v@.len() - i,
    {
        if !((v[i] >= 0x20 || v[i] == 0x09) && v[i] < 0x7f) {
            assert(!(is_value_byte(v@[i as int]) && v@[i as int] < 0x7f));
            return false;
        }
        i += 1;
    }
    true
}

/// The index of the last header of a name, or -1.
pub open spec fn last_of(s: Seq<Pair>, name: Seq<u8>) -> int
    decreases s.len(),
{
    if s.len() == 0 {
        -1
    } else if s.last().0 == name {
        s.len() - 1
    } else {
        last_of(s.drop_last(), name)
    }
}

/// The headers after one is added: it comes after those of the same name, or
/// else last.
pub open spec fn with_appended(s: Seq<Pair>, name: Seq<u8>, value: Seq<u8>) -> Seq<Pair> {
    let i = last_of(s, name);
    if i < 0 {
        s.push((name, value))
    } else {
        s.insert(i + 1, (name, value))
    }
}

/// The values of a name, in order.
pub open spec fn values_of(s: Seq<Pair>, name: Seq<u8>) -> Seq<Seq<u8>>
    decreases s.len(),
{
    if s.len() == 0 {
        Seq::empty()
    } else if s.last().0 == name {
        values_of(s.drop_last(), name).push(s.last().1)
    } else {
        values_of(s.drop_last(), name)
    }
}

/// Whether the headers of each name are next to each other.
pub open spec fn is_grouped(s: Seq<Pair>) -> bool {
    forall|i: int, j: int, k: int|
        0 <= i < j < k < s.len() && (#[trigger] s[i]).0 == (#[trigger] s[k]).0 ==> (#[trigger] s[j]).0 == s[i].0
}

/// Whether some bytes can be a name in a map: of a length that a name may have,
/// and of bytes of a name in lower case. A map can also be given a long name as a
/// constant text, which it does not check: a byte that may not occur in a name is
/// then held as 0.
pub open spec fn is_held_name(s: Seq<u8>) -> bool {
    &&& 0 < s.len() <= 0xffff
    &&& forall|i: int| 0 <= i < s.len() ==> is_name_byte(#[trigger] s[i]) || s[i] == 0
}

/// What holds of the headers of any map: the names are those that a map can hold,
/// and the headers of each name are next to each other.
pub open spec fn is_header_list(s: Seq<Pair>) -> bool {
    &&& is_grouped(s)
    &&& forall|i: int| 0 <= i < s.len() ==> is_held_name((#[trigger] s[i]).0)
}

/// The sequences of a vector of headers.
pub open spec fn pairs_view(v: Seq<(Vec<u8>, Vec<u8>)>) -> Seq<Pair> {
    v.map_values(|p: (Vec<u8>, Vec<u8>)| (p.0@, p.1@))
}

/// The sequences of a vector of byte strings.
pub open spec fn strings_view(v: Seq<Vec<u8>>) -> Seq<Seq<u8>> {
    v.map_values(|b: Vec<u8>| b@)
}

/// `HeaderName::from_bytes` accepts the bytes of a header name, and holds them
/// in lower case.
pub assume_specification[ HeaderName::from_bytes ](src: &[u8]) -> (r: Result<HeaderName, InvalidHeaderName>)
    ensures
        r is Ok == is_name(src@),
        r is Ok ==> header_name_bytes(r->Ok_0) == lower(src@),
;

/// `HeaderValue::from_bytes` accepts the bytes of a header value, and holds
/// them.
pub assume_specification[ HeaderValue::from_bytes ](src: &[u8]) -> (r: Result<
    HeaderValue,
    InvalidHeaderValue,
>)
    ensures
        r is Ok == is_value(src@),
        r is Ok ==> header_value_bytes(r->Ok_0) == src@,
;

/// `HeaderMap::new` holds no headers.
pub assume_specification[ HeaderMap::new ]() -> (m: HeaderMap<HeaderValue>)
    ensures
        header_entries(m) == Seq::<(Seq<u8>, Seq<u8>)>::empty(),
;

/// The bytes of a text in ASCII.
pub open spec fn ascii_bytes(s: Seq<char>) -> Seq<u8> {
    s.map_values(|c: char| c as u8)
}

/// Whether a text is a header name in lower case.
pub open spec fn is_lower_name(s: Seq<char>) -> bool {
    &&& 0 < s.len() <= 0xffff
    &&& forall|i: int| #![trigger s[i]] 0 <= i < s.len() ==> '\0' <= s[i] <= '\u{7f}' && is_name_byte(s[i] as u8)
}

/// The header name of a text, which must be one in lower case.
pub fn header_name(name: &str) -> (r: HeaderName)
    requires
        is_lower_name(name@),
    ensures
        header_name_bytes(r) == ascii_bytes(name@),
{
    let bytes = name.as_bytes();
    proof {
        vstd::utf8::is_ascii_chars_encode_utf8(name@);
        assert(bytes@ =~= ascii_bytes(name@));
        assert forall|i: int| 0 <= i < bytes@.len() implies is_name_byte(lower_byte(#[trigger] bytes@[i]))
            && lower_byte(bytes@[i]) == bytes@[i] by {
            assert(is_name_byte(name@[i] as u8));
        }
        assert(lower(bytes@) =~= bytes@);
    }
    HeaderName::from_bytes(bytes).unwrap()
}

/// Add a header, by `HeaderMap::append`: it is walked after the other values of
/// its name, or else last. A map panics only beyond some thousands of headers.
#[verifier::external_body]
pub(crate) fn append_header(m: &mut HeaderMap<HeaderValue>, name: HeaderName, value: HeaderValue)
    requires
        header_entries(*old(m)).len() < 4096,
    ensures
        header_entries(*final(m)) == with_appended(
            header_entries(*old(m)),
            header_name_bytes(name),
            header_value_bytes(value),
        ),
{
    m.append(name, value);
}

/// A copy of a map, by `<HeaderMap as Clone>::clone`, which holds the same
/// headers in the same order.
#[verifier::external_body]
pub(crate) fn clone_headers(m: &HeaderMap<HeaderValue>) -> (r: HeaderMap<HeaderValue>)
    ensures
        header_entries(r) == header_entries(*m),
{
    m.clone()
}

/// The first value of a name, by `HeaderMap::get`.
#[verifier::external_body]
pub(crate) fn get_header<'a>(m: &'a HeaderMap<HeaderValue>, name: &HeaderName) -> (r: Option<&'a [u8]>)
    ensures
        r is Some == (values_of(header_entries(*m), header_name_bytes(*name)).len() > 0),
        r is Some ==> r->0@ == values_of(header_entries(*m), header_name_bytes(*name))[0],
{
    m.get(name).map(|v| v.as_bytes())
}

/// All the values of a name, by `HeaderMap::get_all`.
#[verifier::external_body]
pub(crate) fn get_all_headers(m: &HeaderMap<HeaderValue>, name: &HeaderName) -> (r: Vec<Vec<u8>>)
    ensures
        strings_view(r@) == values_of(header_entries(*m), header_name_bytes(*name)),
{
    m.get_all(name).iter().map(|v| v.as_bytes().to_vec()).collect()
}

/// All the headers, by `HeaderMap::iter`, with what holds of the headers of any
/// map. Of the values nothing is claimed, as one can be made of such a name as is
/// not checked.
#[verifier::external_body]
pub(crate) fn header_pairs(m: &HeaderMap<HeaderValue>) -> (r: Vec<(Vec<u8>, Vec<u8>)>)
    ensures
        pairs_view(r@) == header_entries(*m),
        is_header_list(pairs_view(r@)),
{
    m.iter().map(|(k, v)| (k.as_str().as_bytes().to_vec(), v.as_bytes().to_vec())).collect()
}

/// A failure to parse a block of header lines.
#[derive(Clone, Copy, Debug, PartialEq, Eq, Structural)]
pub enum BlockError {
    InvalidName,
    InvalidValue,
    NewLine,
    Status,
    Token,
    TooManyHeaders,
    Version,
}

impl BlockError {
    /// A description for the user.
    pub open spec fn spec_message(&self) -> Seq<char> {
        match *self {
            BlockError::InvalidName => "invalid header name"@,
            BlockError::InvalidValue => "invalid header value"@,
            BlockError::NewLine => "invalid new line"@,
            BlockError::Status => "invalid response status"@,
            BlockError::Token => "invalid token"@,
            BlockError::TooManyHeaders => "too many headers"@,
            BlockError::Version => "invalid HTTP version"@,
        }
    }

    /// A description for the user.
    pub fn message(&self) -> (s: String)
        ensures
            s@ == self.spec_message(),
    {
        match *self {
            BlockError::InvalidName => "invalid header name".to_owned(),
            BlockError::InvalidValue => "invalid header value".to_owned(),
            BlockError::NewLine => "invalid new line".to_owned(),
            BlockError::Status => "invalid response status".to_owned(),
            BlockError::Token => "invalid token".to_owned(),
            BlockError::TooManyHeaders => "too many headers".to_owned(),
            BlockError::Version => "invalid HTTP version".to_owned(),
        }
    }
}

/// Why some bytes are not a header, or not a block of header lines.
#[derive(Clone, Copy, Debug, PartialEq, Eq, Structural)]
pub enum HeaderError {
    /// The name is not valid.
    Name,
    /// The value is not valid.
    Value,
    /// The block does not end with an empty line.
    Unterminated,
    /// The block ends with an empty line before its last byte.
    Trailing,
    /// The block cannot be parsed.
    Block(BlockError),
}

impl HeaderError {
    /// A description for the user.
    pub open spec fn spec_message(&self) -> Seq<char> {
        match *self {
            HeaderError::Name => "invalid HTTP header name"@,
            HeaderError::Value => "failed to parse header value"@,
            HeaderError::Unterminated => "Header block not CRLF terminated"@,
            HeaderError::Trailing => "Header block ends early"@,
            HeaderError::Block(e) => e.spec_message(),
        }
    }

    /// A description for the user.
    pub fn message(&self) -> (s: String)
        ensures
            s@ == self.spec_message(),
    {
        match self {
            HeaderError::Name => "invalid HTTP header name".to_owned(),
            HeaderError::Value => "failed to parse header value".to_owned(),
            HeaderError::Unterminated => "Header block not CRLF terminated".to_owned(),
            HeaderError::Trailing => "Header block ends early".to_owned(),
            HeaderError::Block(e) => e.message(),
        }
    }
}

/// The end of a line.
pub open spec fn crlf() -> Seq<u8> {
    seq![0x0du8, 0x0a]
}

/// The line of a header.
pub open spec fn header_line(p: Pair) -> Seq<u8> {
    p.0 + seq![0x3au8, 0x20] + p.1 + crlf()
}

/// The lines of some headers, one after the other.
pub open spec fn header_block(s: Seq<Pair>) -> Seq<u8>
    decreases s.len(),
{
    if s.len() == 0 {
        Seq::empty()
    } else {
        header_block(s.drop_last()) + header_line(s.last())
    }
}

/// Whether a header is read back from its line as it is: the name is a token,
/// and the value neither starts nor ends with white space.
pub open spec fn is_plain_pair(p: Pair) -> bool {
    &&& is_name(p.0)
    &&& lower(p.0) == p.0
    &&& !p.0.contains(0x22)
    &&& is_value(p.1)
    &&& p.1.len() > 0 ==> p.1[0] != 0x20 && p.1[0] != 0x09 && p.1.last() != 0x20 && p.1.last() != 0x09
}

/// The most headers that a block may have.
pub const MAX_BLOCK_HEADERS: usize = 128;

/// Whether some headers are read back from their block as they are.
pub open spec fn is_plain_list(s: Seq<Pair>) -> bool {
    &&& s.len() <= MAX_BLOCK_HEADERS
    &&& forall|i: int| 0 <= i < s.len() ==> is_plain_pair(#[trigger] s[i])
}

/// The outcome of parsing a block: the number of bytes up to and including the
/// empty line, and the names and values before it. `None` where there is no
/// empty line.
pub type Block<P> = Result<Option<(usize, P)>, BlockError>;

/// What `httparse::parse_headers` makes of some bytes, with room for 128
/// headers.
pub uninterp spec fn parsed_block(buf: Seq<u8>) -> Result<
    Option<(usize, Seq<(Seq<u8>, Seq<u8>)>)>,
    BlockError,
>;

/// Whether a parsed block is the one that is given in the terms of sequences.
pub open spec fn same_block(b: Block<Vec<(Vec<u8>, Vec<u8>)>>, s: Block<Seq<Pair>>) -> bool {
    match (b, s) {
        (Ok(Some((n, v))), Ok(Some((m, w)))) => {
            &&& n == m
            &&& pairs_view(v@) == w
        },
        (Ok(None), Ok(None)) => true,
        (Err(e), Err(f)) => e == f,
        _ => false,
    }
}

/// Parse header lines, by `httparse::parse_headers` with room for 128 headers.
/// Of what it returns it is stated, besides that it is a function of the bytes:
/// there are at most 128 headers, and the lines of some headers in plain form,
/// followed by an empty line, give back these headers.
#[verifier::external_body]
fn parse_block(buf: &[u8]) -> (r: Block<Vec<(Vec<u8>, Vec<u8>)>>)
    ensures
        same_block(r, parsed_block(buf@)),
        r matches Ok(Some((n, v))) ==> n <= buf@.len() && v@.len() <= MAX_BLOCK_HEADERS,
        forall|s: Seq<Pair>|
            is_plain_list(s) && buf@ == #[trigger] header_block(s) + crlf() ==> same_block(
                r,
                Ok(Some((buf@.len() as usize, s))),
            ),
{
    let mut heads = [httparse::EMPTY_HEADER; 128];
    match httparse::parse_headers(buf, &mut heads) {
        Ok(Status::Complete((n, hs))) => {
            Ok(Some((n, hs.iter().map(|h| (h.name.as_bytes().to_vec(), h.value.to_vec())).collect())))
        },
        Ok(Status::Partial) => Ok(None),
        Err(ParseError::HeaderName) => Err(BlockError::InvalidName),
        Err(ParseError::HeaderValue) => Err(BlockError::InvalidValue),
        Err(ParseError::NewLine) => Err(BlockError::NewLine),
        Err(ParseError::Status) => Err(BlockError::Status),
        Err(ParseError::Token) => Err(BlockError::Token),
        Err(ParseError::TooManyHeaders) => Err(BlockError::TooManyHeaders),
        Err(ParseError::Version) => Err(BlockError::Version),
    }
}

/// The headers of a map to which some headers were added in order, with their
/// names in lower case.
pub open spec fn collected(s: Seq<Pair>) -> Seq<Pair>
    decreases s.len(),
{
    if s.len() == 0 {
        Seq::empty()
    } else {
        with_appended(collected(s.drop_last()), lower(s.last().0), s.last().1)
    }
}

/// The first header of which the name or the value is not valid.
pub open spec fn first_invalid(s: Seq<Pair>) -> Option<HeaderError>
    decreases s.len(),
{
    if s.len() == 0 {
        None
    } else {
        match first_invalid(s.drop_last()) {
            Some(e) => Some(e),
            None => if !is_name(s.last().0) {
                Some(HeaderError::Name)
            } else if !is_value(s.last().1) {
                Some(HeaderError::Value)
            } else {
                None
            },
        }
    }
}

/// The headers of a parsed block of `len` bytes.
pub open spec fn headers_of_spec(b: Block<Seq<Pair>>, len: nat) -> Result<Seq<Pair>, HeaderError> {
    match b {
        Ok(Some((n, s))) => if n != len {
            Err(HeaderError::Trailing)
        } else {
            match first_invalid(s) {
                Some(e) => Err(e),
                None => Ok(collected(s)),
            }
        },
        Ok(None) => Err(HeaderError::Unterminated),
        Err(e) => Err(HeaderError::Block(e)),
    }
}

/// Adding a header adds one.
proof fn lemma_appended_len(s: Seq<Pair>, name: Seq<u8>, value: Seq<u8>)
    ensures
        with_appended(s, name, value).len() == s.len() + 1,
{
    lemma_last_of(s, name);
}

/// The last header of a name is one of the headers.
proof fn lemma_last_of(s: Seq<Pair>, name: Seq<u8>)
    ensures
        -1 <= last_of(s, name) < s.len(),
    decreases s.len(),
{
    if s.len() > 0 && s.last().0 != name {
        lemma_last_of(s.drop_last(), name);
    }
}

/// Headers that are grouped are collected as they are.
pub proof fn lemma_collected_grouped(s: Seq<Pair>)
    requires
        is_grouped(s),
        forall|i: int| 0 <= i < s.len() ==> lower((#[trigger] s[i]).0) == s[i].0,
    ensures
        collected(s) == s,
    decreases s.len(),
{
    if s.len() > 0 {
        let t = s.drop_last();
        let p = s.last();
        assert(is_grouped(t)) by {
            assert forall|i: int, j: int, k: int|
                0 <= i < j < k < t.len() && (#[trigger] t[i]).0 == (#[trigger] t[k]).0 implies (
            #[trigger] t[j]).0 == t[i].0 by {
                assert(t[i] == s[i] && t[j] == s[j] && t[k] == s[k]);
            }
        }
        assert forall|i: int| 0 <= i < t.len() implies lower((#[trigger] t[i]).0) == t[i].0 by {
            assert(t[i] == s[i]);
        }
        lemma_collected_grouped(t);
        assert(s[s.len() - 1] == p);
        assert(lower(p.0) == p.0);
        lemma_last_of(t, p.0);
        let i = last_of(t, p.0);
        if i >= 0 {
            lemma_last_of_is(t, p.0);
            if t.last().0 != p.0 {
                let k = t.len() - 1;
                assert(i < k);
                assert(s[i].0 == s[t.len() as int].0);
                assert(s[k].0 == s[i].0);
                assert(false);
            }
            assert(i == t.len() - 1);
            assert(t.insert(i + 1, (p.0, p.1)) =~= s);
        } else {
            assert(t.push((p.0, p.1)) =~= s);
        }
    }
}

/// The last header of a name has that name.
proof fn lemma_last_of_is(s: Seq<Pair>, name: Seq<u8>)
    requires
        last_of(s, name) >= 0,
    ensures
        s[last_of(s, name)].0 == name,
        last_of(s, name) < s.len(),
    decreases s.len(),
{
    if s.last().0 != name {
        lemma_last_of_is(s.drop_last(), name);
    }
}

/// Whether valid headers have no invalid one among them.
pub proof fn lemma_none_invalid(s: Seq<Pair>)
    requires
        forall|i: int| 0 <= i < s.len() ==> is_name((#[trigger] s[i]).0) && is_value(s[i].1),
    ensures
        first_invalid(s) is None,
    decreases s.len(),
{
    if s.len() > 0 {
        let t = s.drop_last();
        assert forall|i: int| 0 <= i < t.len() implies is_name((#[trigger] t[i]).0) && is_value(t[i].1) by {
            assert(t[i] == s[i]);
        }
        lemma_none_invalid(t);
        assert(s[s.len() - 1] == s.last());
    }
}

/// Make a map of the headers of a parsed block of `len` bytes. The names and
/// values must be valid, and the block must be all of the bytes.
pub fn headers_of(block: Block<Vec<(Vec<u8>, Vec<u8>)>>, len: usize) -> (r: Result<
    HeaderMap<HeaderValue>,
    HeaderError,
>)
    requires
        block matches Ok(Some((_, v))) ==> v@.len() <= MAX_BLOCK_HEADERS,
    ensures
        forall|s: Block<Seq<Pair>>| #[trigger]
            same_block(block, s) ==> match headers_of_spec(s, len as nat) {
                Ok(h) => r is Ok && header_entries(r->Ok_0) == h,
                Err(e) => r == Err::<HeaderMap<HeaderValue>, HeaderError>(e),
            },
{
    match block {
        Ok(Some((n, v))) => {
            if n != len {
                return Err(HeaderError::Trailing);
            }
            let ghost pairs = pairs_view(v@);
            let mut map = HeaderMap::new();
            let mut i: usize = 0;
            while i < v.len()
                invariant
                    i <= v@.len() <= MAX_BLOCK_HEADERS,
                    pairs == pairs_view(v@),
                    block == Ok::<Option<(usize, Vec<(Vec<u8>, Vec<u8>)>)>, BlockError>(Some((n, v))),
                    n == len,
                    forall|s: Block<Seq<Pair>>| #[trigger]
                        same_block(block, s) ==> s == Ok::<Option<(usize, Seq<Pair>)>, BlockError>(
                            Some((n, pairs)),
                        ),
                    header_entries(map) == collected(pairs.take(i as int)),
                    header_entries(map).len() == i,
                    first_invalid(pairs.take(i as int)) is None,
                decreases v@.len() - i,
            {
                proof {
                    assert(pairs.take(i + 1).drop_last() =~= pairs.take(i as int));
                    assert(pairs.take(i + 1).last() == (v@[i as int].0@, v@[i as int].1@));
                }
                match HeaderName::from_bytes(v[i].0.as_slice()) {
                    Ok(name) => match HeaderValue::from_bytes(v[i].1.as_slice()) {
                        Ok(value) => {
                            proof {
                                lemma_appended_len(
                                    header_entries(map),
                                    header_name_bytes(name),
                                    header_value_bytes(value),
                                );
                            }
                            append_header(&mut map, name, value);
                        },
                        Err(_) => {
                            proof {
                                lemma_first_invalid_stays(pairs, i + 1);
                            }
                            return Err(HeaderError::Value);
                        },
                    },
                    Err(_) => {
                        proof {
                            lemma_first_invalid_stays(pairs, i + 1);
                        }
                        return Err(HeaderError::Name);
                    },
                }
                i += 1;
            }
            assert(pairs.take(i as int) =~= pairs);
            Ok(map)
        },
        Ok(None) => Err(HeaderError::Unterminated),
        Err(e) => Err(HeaderError::Block(e)),
    }
}

/// An invalid header among the first ones is the first of them all.
proof fn lemma_first_invalid_stays(s: Seq<Pair>, n: int)
    requires
        0 <= n <= s.len(),
        first_invalid(s.take(n)) is Some,
    ensures
        first_invalid(s) == first_invalid(s.take(n)),
    decreases s.len(),
{
    if n == s.len() {
        assert(s.take(n) =~= s);
    } else {
        assert(s.drop_last().take(n) =~= s.take(n));
        lemma_first_invalid_stays(s.drop_last(), n);
    }
}

/// Parse a block of header lines, which ends with an empty line, to a map.
pub fn parse_headers(buf: &[u8]) -> (r: Result<HeaderMap<HeaderValue>, HeaderError>)
    ensures
        match headers_of_spec(parsed_block(buf@), buf@.len()) {
            Ok(h) => r is Ok && header_entries(r->Ok_0) == h,
            Err(e) => r == Err::<HeaderMap<HeaderValue>, HeaderError>(e),
        },
        forall|s: Seq<Pair>|
            is_plain_list(s) && is_grouped(s) && buf@ == #[trigger] header_block(s) + crlf() ==> r is Ok
                && header_entries(r->Ok_0) == s,
{
    let block = parse_block(buf);
    let ghost b = block;
    let r = headers_of(block, buf.len());
    proof {
        assert(same_block(b, parsed_block(buf@)));
        assert forall|s: Seq<Pair>|
            is_plain_list(s) && is_grouped(s) && buf@ == #[trigger] header_block(s)
                + crlf() implies r is Ok && header_entries(r->Ok_0) == s by {
            let want: Block<Seq<Pair>> = Ok(Some((buf@.len() as usize, s)));
            assert(same_block(b, want));
            assert forall|i: int| 0 <= i < s.len() implies is_name((#[trigger] s[i]).0) && is_value(
                s[i].1,
            ) && lower(s[i].0) == s[i].0 by {
                assert(is_plain_pair(s[i]));
            }
            lemma_none_invalid(s);
            lemma_collected_grouped(s);
        }
    }
    r
}

/// The length of the lines of some headers.
pub proof fn lemma_header_block_len(s: Seq<Pair>)
    requires
        s.len() > 0,
    ensures
        header_block(s).len() == header_block(s.drop_last()).len() + s.last().0.len() + s.last().1.len() + 4,
{
}

/// The length of a map as a block of lines: for each header its name, its value,
/// the delimiter between them and the end of the line. `None` where that exceeds
/// the range of `u64`.
pub fn len_of_headers(headers: &HeaderMap<HeaderValue>) -> (r: Option<u64>)
    ensures
        r == (if header_block(header_entries(*headers)).len() <= u64::MAX {
            Some(header_block(header_entries(*headers)).len() as u64)
        } else {
            None
        }),
{
    let pairs = header_pairs(headers);
    let ghost all = header_entries(*headers);
    let mut size: u64 = 0;
    let mut i: usize = 0;
    while i < pairs.len()
        invariant
            i <= pairs@.len(),
            all == pairs_view(pairs@),
            all == header_entries(*headers),
            size == header_block(all.take(i as int)).len(),
        decreases pairs@.len() - i,
    {
        proof {
            assert(all.take(i + 1).drop_last() =~= all.take(i as int));
            lemma_header_block_len(all.take(i + 1));
            lemma_block_prefix_len(all, i + 1);
        }
        let line: u64 = match (pairs[i].0.len() as u64).checked_add(pairs[i].1.len() as u64) {
            Some(n) => match n.checked_add(4) {
                Some(n) => n,
                None => {
                    return None;
                },
            },
            None => {
                return None;
            },
        };
        match size.checked_add(line) {
            Some(n) => {
                size = n;
            },
            None => {
                return None;
            },
        }
        i += 1;
    }
    assert(all.take(i as int) =~= all);
    Some(size)
}

/// The lines of the first headers are no longer than those of all.
proof fn lemma_block_prefix_len(s: Seq<Pair>, n: int)
    requires
        0 <= n <= s.len(),
    ensures
        header_block(s.take(n)).len() <= header_block(s).len(),
    decreases s.len(),
{
    if n == s.len() {
        assert(s.take(n) =~= s);
    } else {
        lemma_block_prefix_len(s.drop_last(), n);
        assert(s.drop_last().take(n) =~= s.take(n));
    }
}

/// Each header is a line of its own: its name, a colon and a space, its value, and
/// the end of the line.
pub proof fn law_header_lines(s: Seq<Pair>, name: Seq<u8>, value: Seq<u8>)
    ensures
        header_block(Seq::<Pair>::empty()) == Seq::<u8>::empty(),
        header_block(s.push((name, value))) == header_block(s) + name + seq![0x3au8, 0x20] + value + seq![
            0x0du8,
            0x0a,
        ],
{
    assert(s.push((name, value)).drop_last() =~= s);
    assert(header_block(s.push((name, value))) =~= header_block(s) + name + seq![0x3au8, 0x20] + value + seq![
        0x0du8,
        0x0a,
    ]);
}

/// A header that is added comes after those of its name, or else last. No other
/// header is changed, and the values of other names stay as they are.
pub proof fn law_header_is_added(s: Seq<Pair>, name: Seq<u8>, value: Seq<u8>, other: Seq<u8>)
    ensures
        values_of(with_appended(s, name, value), name) == values_of(s, name).push(value),
        other != name ==> values_of(with_appended(s, name, value), other) == values_of(s, other),
        with_appended(s, name, value).len() == s.len() + 1,
    decreases s.len(),
{
    lemma_last_of(s, name);
    let i = last_of(s, name);
    let w = with_appended(s, name, value);
    if i < 0 {
        assert(w.drop_last() =~= s);
    } else if i == s.len() - 1 {
        assert(w =~= s.push((name, value)));
        assert(w.drop_last() =~= s);
    } else {
        let t = s.drop_last();
        law_header_is_added(t, name, value, other);
        assert(last_of(t, name) == i);
        assert(w.drop_last() =~= with_appended(t, name, value));
        assert(w.last() == s.last());
        assert(s.last().0 != name);
    }
}

/// The headers of a parsed block are those of the block, in order, with their names
/// in lower case. It is the first of them that is not valid that is reported.
pub proof fn law_collected_headers(s: Seq<Pair>, p: Pair, name: Seq<u8>)
    ensures
        collected(Seq::<Pair>::empty()).len() == 0,
        values_of(collected(s.push(p)), lower(p.0)) == values_of(collected(s), lower(p.0)).push(p.1),
        name != lower(p.0) ==> values_of(collected(s.push(p)), name) == values_of(collected(s), name),
        first_invalid(s) is Some ==> first_invalid(s.push(p)) == first_invalid(s),
        first_invalid(s) is None && !is_name(p.0) ==> first_invalid(s.push(p)) == Some(HeaderError::Name),
        first_invalid(s) is None && is_name(p.0) && !is_value(p.1) ==> first_invalid(s.push(p)) == Some(
            HeaderError::Value,
        ),
        first_invalid(s) is None && is_name(p.0) && is_value(p.1) ==> first_invalid(s.push(p)) is None,
{
    assert(s.push(p).drop_last() =~= s);
    assert(s.push(p).last() == p);
    law_header_is_added(collected(s), lower(p.0), p.1, name);
}

/// A block is accepted exactly if it can be parsed, ends with its empty line, and
/// has no header that is not valid. Then the map has the headers of the block.
pub proof fn law_block_is_accepted(
    n: usize,
    v: Vec<(Vec<u8>, Vec<u8>)>,
    e: BlockError,
    len: usize,
    r: Result<HeaderMap<HeaderValue>, HeaderError>,
    none: Result<HeaderMap<HeaderValue>, HeaderError>,
    bad: Result<HeaderMap<HeaderValue>, HeaderError>,
)
    requires
        call_ensures(headers_of, (Ok(Some((n, v))), len), r),
        call_ensures(headers_of, (Ok(None), len), none),
        call_ensures(headers_of, (Err(e), len), bad),
    ensures
        r is Ok <==> n == len && first_invalid(pairs_view(v@)) is None,
        r is Ok ==> header_entries(r->Ok_0) == collected(pairs_view(v@)),
        n != len ==> r matches Err(HeaderError::Trailing),
        n == len && first_invalid(pairs_view(v@)) is Some ==> r == Err::<HeaderMap<HeaderValue>, HeaderError>(
            first_invalid(pairs_view(v@))->0,
        ),
        none matches Err(HeaderError::Unterminated),
        bad == Err::<HeaderMap<HeaderValue>, HeaderError>(HeaderError::Block(e)),
{
    let b: Block<Vec<(Vec<u8>, Vec<u8>)>> = Ok(Some((n, v)));
    let s: Block<Seq<Pair>> = Ok(Some((n, pairs_view(v@))));
    assert(same_block(b, s));
    let nb: Block<Vec<(Vec<u8>, Vec<u8>)>> = Ok(None);
    let ns: Block<Seq<Pair>> = Ok(None);
    assert(same_block(nb, ns));
    let eb: Block<Vec<(Vec<u8>, Vec<u8>)>> = Err(e);
    let es: Block<Seq<Pair>> = Err(e);
    assert(same_block(eb, es));
}

/// The length of a map as a block is that of its lines.
pub proof fn law_len_of_headers(headers: &HeaderMap<HeaderValue>, r: Option<u64>)
    requires
        call_ensures(len_of_headers, (headers,), r),
    ensures
        r is Some <==> header_block(header_entries(*headers)).len() <= u64::MAX,
        r is Some ==> r->0 == header_block(header_entries(*headers)).len(),
{
}

/// A text is visible if it is all of characters of ASCII that print, spaces and
/// tabs.
pub proof fn law_visible(v: &[u8], b: bool)
    requires
        call_ensures(is_visible_slice, (v,), b),
    ensures
        b <==> forall|i: int| 0 <= i < v@.len() ==> #[trigger] v@[i] == 0x09 || 0x20 <= v@[i] <= 0x7e,
{
    if b {
        assert forall|i: int| 0 <= i < v@.len() implies #[trigger] v@[i] == 0x09 || 0x20 <= v@[i] <= 0x7e by {
            assert(is_value_byte(v@[i]) && v@[i] < 0x7f);
        }
    }
    if forall|i: int| 0 <= i < v@.len() ==> #[trigger] v@[i] == 0x09 || 0x20 <= v@[i] <= 0x7e {
        assert forall|i: int| 0 <= i < v@.len() implies is_value_byte(#[trigger] v@[i]) && v@[i] < 0x7f by {}
    }
}

/// What is said of each failure.
pub proof fn law_header_messages(e: &HeaderError, b: &BlockError, s: String, t: String)
    requires
        call_ensures(HeaderError::message, (e,), s),
        call_ensures(BlockError::message, (b,), t),
    ensures
        e is Name ==> s@ == "invalid HTTP header name"@,
        e is Value ==> s@ == "failed to parse header value"@,
        e is Unterminated ==> s@ == "Header block not CRLF terminated"@,
        e is Trailing ==> s@ == "Header block ends early"@,
        *e == HeaderError::Block(*b) ==> s@ == t@,
        b is InvalidName ==> t@ == "invalid header name"@,
        b is InvalidValue ==> t@ == "invalid header value"@,
        b is NewLine ==> t@ == "invalid new line"@,
        b is Status ==> t@ == "invalid response status"@,
        b is Token ==> t@ == "invalid token"@,
        b is TooManyHeaders ==> t@ == "too many headers"@,
        b is Version ==> t@ == "invalid HTTP version"@,
{
}

/// The name that is made of a text is that text.
pub proof fn law_header_name(name: &str, r: HeaderName)
    requires
        call_ensures(header_name, (name,), r),
    ensures
        header_name_bytes(r).len() == name@.len(),
        forall|i: int| 0 <= i < name@.len() ==> #[trigger] header_name_bytes(r)[i] == name@[i] as u8,
{
}

/// A block is parsed to the headers that it is found to have, or fails as these do.
/// The lines of plain headers with an empty line after them are these headers.
pub proof fn law_parsed_headers(
    buf: &[u8],
    len: usize,
    b: Block<Vec<(Vec<u8>, Vec<u8>)>>,
    q: Result<HeaderMap<HeaderValue>, HeaderError>,
    r: Result<HeaderMap<HeaderValue>, HeaderError>,
    s: Seq<Pair>,
)
    requires
        len == buf@.len(),
        same_block(b, parsed_block(buf@)),
        call_ensures(headers_of, (b, len), q),
        call_ensures(parse_headers, (buf,), r),
    ensures
        r is Ok <==> q is Ok,
        r is Ok ==> header_entries(r->Ok_0) == header_entries(q->Ok_0),
        r is Err ==> r->Err_0 == q->Err_0,
        is_plain_list(s) && is_grouped(s) && buf@ == header_block(s) + seq![0x0du8, 0x0a] ==> r is Ok
            && header_entries(r->Ok_0) == s,
{
    assert(crlf() =~= seq![0x0du8, 0x0a]);
}

/// Which bytes occur in names and in values of headers. Names are compared without
/// regard to case.
pub proof fn law_header_bytes(s: Seq<u8>)
    ensures
        is_name(s) <==> 1 <= s.len() <= 65_535 && forall|i: int|
            0 <= i < s.len() ==> {
                ||| 'A' <= #[trigger] s[i] as char <= 'Z'
                ||| 'a' <= s[i] as char <= 'z'
                ||| '0' <= s[i] as char <= '9'
                ||| '!' <= s[i] as char <= '\''
                ||| s[i] as char == '*' || s[i] as char == '+' || s[i] as char == '-' || s[i] as char == '.'
                ||| s[i] as char == '^' || s[i] as char == '_' || s[i] as char == '`' || s[i] as char == '|'
                ||| s[i] as char == '~'
            },
        is_value(s) <==> forall|i: int|
            0 <= i < s.len() ==> #[trigger] s[i] == 0x09 || (s[i] >= 0x20 && s[i] != 0x7f),
        lower(s).len() == s.len(),
        forall|i: int|
            0 <= i < s.len() ==> #[trigger] lower(s)[i] == (if 'A' <= s[i] as char <= 'Z' {
                s[i] + 32
            } else {
                s[i] as int
            }),
{
}

/// The bytes of ASCII text are its characters, in order.
pub proof fn law_ascii_bytes(s: Seq<char>, i: int)
    requires
        0 <= i < s.len(),
        '\0' <= s[i] <= '\u{7f}',
    ensures
        ascii_bytes(s).len() == s.len(),
        ascii_bytes(s)[i] as int == s[i] as int,
{
}

} // verus!
