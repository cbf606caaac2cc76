//! HTTP request and response dialogs.
use http::header::{HeaderMap, HeaderValue};
use vstd::prelude::*;

use crate::body::BodyImage;
use crate::buf::Buffers;
use crate::headers::{ascii_bytes, clone_headers, header_entries};
use crate::text::ascii_chars;

verus! {

/// `http::uri::InvalidUri`.
#[verifier::external_type_specification]
#[verifier::external_body]
pub struct ExInvalidUri(http::uri::InvalidUri);

/// `http::method::InvalidMethod`.
#[verifier::external_type_specification]
#[verifier::external_body]
pub struct ExInvalidMethod(http::method::InvalidMethod);

/// The text of the URI that `http::Uri` finds in some bytes. `None` where they
/// are not a URI.
pub uninterp spec fn uri_text(bytes: Seq<u8>) -> Option<Seq<char>>;

/// The longest text, in bytes, that `http::Uri` parses.
pub const MAX_URL: usize = 65534;

/// Whether all of a text is visible ASCII, without white space.
pub open spec fn is_plain_text(s: Seq<char>) -> bool {
    forall|i: int| #![trigger s[i]] 0 <= i < s.len() ==> '\u{21}' <= s[i] <= '\u{7e}'
}

/// Whether a text is that of a URI: it is plain, and unless it is too long it is
/// a URI with this text.
pub open spec fn is_url(s: Seq<char>) -> bool {
    &&& is_plain_text(s)
    &&& s.len() <= MAX_URL ==> uri_text(ascii_bytes(s)) == Some(s)
}

/// Parse a URI by `<http::Uri as TryFrom<&[u8]>>::try_from`, for its text by
/// `Display`. All the bytes of a URI are visible ASCII. Its text has the scheme
/// in lower case if it is a known one, always a path after an authority that
/// follows a scheme, and no fragment, so that the text is parsed as a URI with
/// the same text. It can be longer than what was parsed, for the path, and is
/// then not parsed if it exceeds the limit.
#[verifier::external_body]
fn parse_uri(bytes: &[u8]) -> (r: Result<String, http::uri::InvalidUri>)
    ensures
        r is Ok == uri_text(bytes@) is Some,
        r is Ok ==> uri_text(bytes@) == Some(r->Ok_0@) && is_url(r->Ok_0@),
{
    <http::Uri as std::convert::TryFrom<&[u8]>>::try_from(bytes).map(|u| u.to_string())
}

/// Whether a byte may occur in an HTTP method.
pub open spec fn is_method_byte(b: u8) -> bool {
    ||| 0x41 <= b <= 0x5a
    ||| 0x61 <= b <= 0x7a
    ||| 0x30 <= b <= 0x39
    ||| b == 0x21 || b == 0x2a || b == 0x2b || b == 0x2d || b == 0x2e
    ||| b == 0x5e || b == 0x5f || b == 0x60
    ||| b == 0x7c || b == 0x7e
}

/// Whether some bytes are an HTTP method.
pub open spec fn is_method(s: Seq<u8>) -> bool {
    &&& s.len() > 0
    &&& forall|i: int| 0 <= i < s.len() ==> is_method_byte(#[trigger] s[i])
}

/// Whether a text is an HTTP method.
pub open spec fn is_method_text(s: Seq<char>) -> bool {
    is_plain_text(s) && is_method(ascii_bytes(s))
}

/// Parse an HTTP method by `http::Method::from_bytes`, for its text by
/// `Method::as_str`, which is that of the bytes.
#[verifier::external_body]
fn parse_method(bytes: &[u8]) -> (r: Result<String, http::method::InvalidMethod>)
    ensures
        r is Ok == is_method(bytes@),
        r is Ok ==> r->Ok_0@ == ascii_chars(bytes@),
{
    http::Method::from_bytes(bytes).map(|m| m.as_str().to_owned())
}

/// An HTTP method, e.g. `GET`.
#[derive(Debug)]
pub struct Method {
    text: String,
}

impl View for Method {
    type V = Seq<char>;

    /// The text of the method.
    closed spec fn view(&self) -> Seq<char> {
        self.text@
    }
}

impl Method {
    /// The text is that of a method.
    #[verifier::type_invariant]
    pub open spec fn valid(self) -> bool {
        is_method_text(self@)
    }

    /// The method that some bytes are.
    pub fn from_bytes(src: &[u8]) -> (r: Result<Method, http::method::InvalidMethod>)
        ensures
            r is Ok == is_method(src@),
            r is Ok ==> r->Ok_0@ == ascii_chars(src@) && r->Ok_0.valid(),
    {
        match parse_method(src) {
            Ok(text) => {
                proof {
                    assert forall|i: int| #![trigger text@[i]] 0 <= i < text@.len() implies '\u{21}' <= text@[i]
                        <= '\u{7e}' by {
                        assert(is_method_byte(src@[i]));
                    }
                    assert forall|i: int| 0 <= i < src@.len() implies ascii_bytes(text@)[i] == src@[i] by {
                        assert(is_method_byte(src@[i]));
                    }
                    assert(ascii_bytes(text@) =~= src@);
                }
                Ok(Method { text })
            },
            Err(e) => Err(e),
        }
    }

    /// The text of the method.
    pub fn as_str(&self) -> (s: &str)
        ensures
            s@ == self@,
    {
        self.text.as_str()
    }
}

impl Clone for Method {
    fn clone(&self) -> (r: Method)
        ensures
            r@ == self@,
    {
        proof {
            use_type_invariant(self);
        }
        Method { text: self.text.clone() }
    }
}

/// The URL of a request.
#[derive(Debug)]
pub struct Url {
    text: String,
}

impl View for Url {
    type V = Seq<char>;

    /// The text of the URL.
    closed spec fn view(&self) -> Seq<char> {
        self.text@
    }
}

impl Url {
    /// The text is that of a URI.
    #[verifier::type_invariant]
    pub open spec fn valid(self) -> bool {
        is_url(self@)
    }

    /// The URL that some bytes are.
    pub fn from_bytes(src: &[u8]) -> (r: Result<Url, http::uri::InvalidUri>)
        ensures
            r is Ok == uri_text(src@) is Some,
            r is Ok ==> uri_text(src@) == Some(r->Ok_0@) && r->Ok_0.valid(),
    {
        match parse_uri(src) {
            Ok(text) => Ok(Url { text }),
            Err(e) => Err(e),
        }
    }

    /// The text of the URL.
    pub fn as_str(&self) -> (s: &str)
        ensures
            s@ == self@,
    {
        self.text.as_str()
    }
}

impl Clone for Url {
    fn clone(&self) -> (r: Url)
        ensures
            r@ == self@,
    {
        proof {
            use_type_invariant(self);
        }
        Url { text: self.text.clone() }
    }
}

/// What a recording needs to know of a body: its length in bytes.
pub trait Body: Sized {
    /// The length in bytes.
    spec fn size(&self) -> int;

    /// The length in bytes.
    fn body_len(&self) -> (n: u64)
        ensures
            n == self.size(),
    ;
}

impl Body for Buffers {
    open spec fn size(&self) -> int {
        self@.len() as int
    }

    fn body_len(&self) -> u64 {
        self.len()
    }
}

impl<F, M> Body for BodyImage<F, M> {
    open spec fn size(&self) -> int {
        self@.len() as int
    }

    fn body_len(&self) -> u64 {
        self.len()
    }
}

/// An HTTP version.
#[derive(Clone, Copy, Debug, PartialEq, Eq, Structural)]
pub enum Version {
    Http09,
    Http10,
    Http11,
    Http2,
    Http3,
}

impl Version {
    /// The text of the version.
    pub open spec fn spec_text(&self) -> Seq<char> {
        match *self {
            Version::Http09 => "HTTP/0.9"@,
            Version::Http10 => "HTTP/1.0"@,
            Version::Http11 => "HTTP/1.1"@,
            Version::Http2 => "HTTP/2.0"@,
            Version::Http3 => "HTTP/3.0"@,
        }
    }

    /// The text of the version.
    pub fn text(&self) -> (s: &'static str)
        ensures
            s@ == self.spec_text(),
    {
        match self {
            Version::Http09 => "HTTP/0.9",
            Version::Http10 => "HTTP/1.0",
            Version::Http11 => "HTTP/1.1",
            Version::Http2 => "HTTP/2.0",
            Version::Http3 => "HTTP/3.0",
        }
    }
}

/// A transfer or content encoding.
#[derive(Clone, Copy, Debug, PartialEq, Eq, PartialOrd, Structural)]
pub enum Encoding {
    Chunked,
    Compress,
    Deflate,
    Gzip,
    Brotli,
    Identity,
}

impl Encoding {
    /// The encoding as in an HTTP header value.
    pub open spec fn spec_text(&self) -> Seq<char> {
        match *self {
            Encoding::Chunked => "chunked"@,
            Encoding::Compress => "compress"@,
            Encoding::Deflate => "deflate"@,
            Encoding::Gzip => "gzip"@,
            Encoding::Brotli => "br"@,
            Encoding::Identity => "identity"@,
        }
    }

    /// The encoding as in an HTTP header value.
    pub fn text(&self) -> (s: &'static str)
        ensures
            s@ == self.spec_text(),
    {
        match self {
            Encoding::Chunked => "chunked",
            Encoding::Compress => "compress",
            Encoding::Deflate => "deflate",
            Encoding::Gzip => "gzip",
            Encoding::Brotli => "br",
            Encoding::Identity => "identity",
        }
    }
}

/// Extract of an HTTP request. An alternate spelling of _prologue_.
pub struct Prolog<B> {
    /// The method, e.g. `GET`.
    pub method: Method,
    /// The complete URL.
    pub url: Url,
    pub req_headers: HeaderMap<HeaderValue>,
    pub req_body: B,
}

/// Extract of an HTTP response.
pub struct Epilog<B> {
    pub version: Version,
    /// The status code, e.g. 200.
    pub status: u16,
    pub res_headers: HeaderMap<HeaderValue>,
    pub res_body: B,
    /// The encodings that were removed for this representation of the body.
    pub res_decoded: Vec<Encoding>,
}

/// A recording of an HTTP request and response.
pub struct Dialog<B> {
    pub pro: Prolog<B>,
    pub epi: Epilog<B>,
}

impl<B> Dialog<B> {
    /// The method and the URL are valid, as they are wherever they come from.
    pub open spec fn valid(self) -> bool {
        self.pro.method.valid() && self.pro.url.valid()
    }
}

/// Whether one extract of a request is a copy of another.
pub open spec fn same_prolog<B: Clone>(a: Prolog<B>, b: Prolog<B>) -> bool {
    &&& a.method@ == b.method@
    &&& a.url@ == b.url@
    &&& header_entries(a.req_headers) == header_entries(b.req_headers)
    &&& cloned::<B>(b.req_body, a.req_body)
}

/// Whether one extract of a response is a copy of another.
pub open spec fn same_epilog<B: Clone>(a: Epilog<B>, b: Epilog<B>) -> bool {
    &&& a.version == b.version
    &&& a.status == b.status
    &&& header_entries(a.res_headers) == header_entries(b.res_headers)
    &&& cloned::<B>(b.res_body, a.res_body)
    &&& a.res_decoded@ == b.res_decoded@
}

impl<B: Clone> Clone for Prolog<B> {
    fn clone(&self) -> (r: Prolog<B>)
        ensures
            same_prolog(r, *self),
    {
        Prolog {
            method: self.method.clone(),
            url: self.url.clone(),
            req_headers: clone_headers(&self.req_headers),
            req_body: self.req_body.clone(),
        }
    }
}

impl<B: Clone> Clone for Epilog<B> {
    fn clone(&self) -> (r: Epilog<B>)
        ensures
            same_epilog(r, *self),
    {
        let res_decoded = self.res_decoded.clone();
        assert(res_decoded@ =~= self.res_decoded@);
        Epilog {
            version: self.version,
            status: self.status,
            res_headers: clone_headers(&self.res_headers),
            res_body: self.res_body.clone(),
            res_decoded,
        }
    }
}

impl<B: Clone> Clone for Dialog<B> {
    fn clone(&self) -> (r: Dialog<B>)
        ensures
            same_prolog(r.pro, self.pro),
            same_epilog(r.epi, self.epi),
    {
        Dialog { pro: self.pro.clone(), epi: self.epi.clone() }
    }
}

/// Access by reference to what was recorded of a request.
pub trait RequestRecorded: Sized {
    /// The type of bodies.
    type B: Body;

    /// The request headers.
    spec fn spec_req_headers(&self) -> HeaderMap<HeaderValue>;

    /// The request body.
    spec fn spec_req_body(&self) -> Self::B;

    /// The request headers.
    fn req_headers(&self) -> (r: &HeaderMap<HeaderValue>)
        ensures
            *r == self.spec_req_headers(),
    ;

    /// The request body.
    fn req_body(&self) -> (r: &Self::B)
        ensures
            *r == self.spec_req_body(),
    ;
}

/// Access by reference to what was recorded of a request and response.
pub trait Recorded: RequestRecorded {
    /// The response headers.
    spec fn spec_res_headers(&self) -> HeaderMap<HeaderValue>;

    /// The response body.
    spec fn spec_res_body(&self) -> Self::B;

    /// The response headers.
    fn res_headers(&self) -> (r: &HeaderMap<HeaderValue>)
        ensures
            *r == self.spec_res_headers(),
    ;

    /// The response body.
    fn res_body(&self) -> (r: &Self::B)
        ensures
            *r == self.spec_res_body(),
    ;
}

impl<B> Dialog<B> {
    /// Construct from the two extracts.
    pub fn new(pro: Prolog<B>, epi: Epilog<B>) -> (r: Dialog<B>)
        ensures
            r.pro == pro,
            r.epi == epi,
    {
        Dialog { pro, epi }
    }

    /// The HTTP method, e.g. `GET`.
    pub fn method(&self) -> (r: &Method)
        ensures
            *r == self.pro.method,
    {
        &self.pro.method
    }

    /// The complete URL of the request.
    pub fn url(&self) -> (r: &Url)
        ensures
            *r == self.pro.url,
    {
        &self.pro.url
    }

    /// The request body, for changes of its state.
    pub fn req_body_mut(&mut self) -> (r: &mut B)
        ensures
            *r == old(self).pro.req_body,
            final(self).pro == (Prolog { req_body: *final(r), ..old(self).pro }),
            final(self).epi == old(self).epi,
    {
        &mut self.pro.req_body
    }

    /// The response status code.
    pub fn res_status(&self) -> (r: u16)
        ensures
            r == self.epi.status,
    {
        self.epi.status
    }

    /// The HTTP version of the response.
    pub fn res_version(&self) -> (r: Version)
        ensures
            r == self.epi.version,
    {
        self.epi.version
    }

    /// The encodings that were removed for this representation of the response
    /// body. May be empty.
    pub fn res_decoded(&self) -> (r: &Vec<Encoding>)
        ensures
            *r == self.epi.res_decoded,
    {
        &self.epi.res_decoded
    }

    /// The response body, for changes of its state.
    pub fn res_body_mut(&mut self) -> (r: &mut B)
        ensures
            *r == old(self).epi.res_body,
            final(self).epi == (Epilog { res_body: *final(r), ..old(self).epi }),
            final(self).pro == old(self).pro,
    {
        &mut self.epi.res_body
    }

    /// Replace the response body, and the encodings that were removed for it.
    pub fn set_res_body_decoded(&mut self, body: B, decoded: Vec<Encoding>)
        ensures
            final(self).pro == old(self).pro,
            final(self).epi == (Epilog { res_body: body, res_decoded: decoded, ..old(self).epi }),
    {
        self.epi.res_body = body;
        self.epi.res_decoded = decoded;
    }

    /// Replace the encodings that were removed for the response body.
    pub fn set_res_decoded(&mut self, decoded: Vec<Encoding>)
        ensures
            final(self).pro == old(self).pro,
            final(self).epi == (Epilog { res_decoded: decoded, ..old(self).epi }),
    {
        self.epi.res_decoded = decoded;
    }

    /// Consume the dialog, for the two extracts.
    pub fn explode(self) -> (r: (Prolog<B>, Epilog<B>))
        ensures
            r.0 == self.pro,
            r.1 == self.epi,
    {
        (self.pro, self.epi)
    }
}

impl<X: Body> RequestRecorded for Dialog<X> {
    type B = X;

    open spec fn spec_req_headers(&self) -> HeaderMap<HeaderValue> {
        self.pro.req_headers
    }

    open spec fn spec_req_body(&self) -> X {
        self.pro.req_body
    }

    fn req_headers(&self) -> &HeaderMap<HeaderValue> {
        &self.pro.req_headers
    }

    fn req_body(&self) -> &X {
        &self.pro.req_body
    }
}

impl<X: Body> Recorded for Dialog<X> {
    open spec fn spec_res_headers(&self) -> HeaderMap<HeaderValue> {
        self.epi.res_headers
    }

    open spec fn spec_res_body(&self) -> X {
        self.epi.res_body
    }

    fn res_headers(&self) -> &HeaderMap<HeaderValue> {
        &self.epi.res_headers
    }

    fn res_body(&self) -> &X {
        &self.epi.res_body
    }
}

/// The bytes of a method are those of a token, without `#`, `$`, `%`, `&` and `'`.
/// It has at least one, and its text is that of its bytes.
pub proof fn law_methods(src: &[u8], r: Result<Method, http::method::InvalidMethod>)
    requires
        call_ensures(Method::from_bytes, (src,), r),
    ensures
        r is Ok <==> src@.len() > 0 && forall|i: int|
            #![trigger src@[i]]
            0 <= i < src@.len() ==> {
                ||| 'A' <= src@[i] as char <= 'Z'
                ||| 'a' <= src@[i] as char <= 'z'
                ||| '0' <= src@[i] as char <= '9'
                ||| seq!['!', '*', '+', '-', '.', '^', '_', '`', '|', '~'].contains(src@[i] as char)
            },
        r matches Ok(m) ==> m@.len() == src@.len() && forall|i: int|
            #![trigger m@[i]]
            0 <= i < src@.len() ==> m@[i] == src@[i] as char,
{
    let others = seq!['!', '*', '+', '-', '.', '^', '_', '`', '|', '~'];
    assert(others[0] == '!' && others[1] == '*' && others[2] == '+' && others[3] == '-' && others[4] == '.');
    assert(others[5] == '^' && others[6] == '_' && others[7] == '`' && others[8] == '|' && others[9] == '~');
    assert forall|b: u8| is_method_byte(b) <==> {
        ||| 'A' <= b as char <= 'Z'
        ||| 'a' <= b as char <= 'z'
        ||| '0' <= b as char <= '9'
        ||| others.contains(b as char)
    } by {
        if others.contains(b as char) {
            let k = choose|k: int| 0 <= k < others.len() && others[k] == b as char;
            assert(others[k] == b as char);
        }
    }
}

/// A method and a URL are what they were made of, and so are their copies.
pub proof fn law_methods_and_urls(
    m: Method,
    u: Url,
    method_text: &str,
    url_text: &str,
    method_copy: Method,
    url_copy: Url,
    src: &[u8],
    r: Result<Url, http::uri::InvalidUri>,
)
    requires
        call_ensures(Method::as_str, (&m,), method_text),
        call_ensures(Url::as_str, (&u,), url_text),
        call_ensures(<Method as Clone>::clone, (&m,), method_copy),
        call_ensures(<Url as Clone>::clone, (&u,), url_copy),
        call_ensures(Url::from_bytes, (src,), r),
    ensures
        method_text@ == m@,
        method_copy@ == m@,
        url_text@ == u@,
        url_copy@ == u@,
        r is Ok <==> uri_text(src@) is Some,
        r matches Ok(found) ==> uri_text(src@) == Some(found@),
{
}

/// The text of each version.
pub proof fn law_version_texts(v: Version, s: &'static str)
    requires
        call_ensures(Version::text, (&v,), s),
    ensures
        v is Http09 <==> s@ == "HTTP/0.9"@,
        v is Http10 <==> s@ == "HTTP/1.0"@,
        v is Http11 <==> s@ == "HTTP/1.1"@,
        v is Http2 <==> s@ == "HTTP/2.0"@,
        v is Http3 <==> s@ == "HTTP/3.0"@,
{
    reveal_strlit("HTTP/0.9");
    reveal_strlit("HTTP/1.0");
    reveal_strlit("HTTP/1.1");
    reveal_strlit("HTTP/2.0");
    reveal_strlit("HTTP/3.0");
    assert("HTTP/0.9"@[5] == '0');
    assert("HTTP/1.0"@[5] == '1' && "HTTP/1.0"@[7] == '0');
    assert("HTTP/1.1"@[5] == '1' && "HTTP/1.1"@[7] == '1');
    assert("HTTP/2.0"@[5] == '2');
    assert("HTTP/3.0"@[5] == '3');
}

/// The text of each encoding.
pub proof fn law_encoding_texts(e: Encoding, s: &'static str)
    requires
        call_ensures(Encoding::text, (&e,), s),
    ensures
        e is Chunked <==> s@ == "chunked"@,
        e is Compress <==> s@ == "compress"@,
        e is Deflate <==> s@ == "deflate"@,
        e is Gzip <==> s@ == "gzip"@,
        e is Brotli <==> s@ == "br"@,
        e is Identity <==> s@ == "identity"@,
{
    reveal_strlit("chunked");
    reveal_strlit("compress");
    reveal_strlit("deflate");
    reveal_strlit("gzip");
    reveal_strlit("br");
    reveal_strlit("identity");
    assert("chunked"@.len() == 7 && "compress"@.len() == 8 && "deflate"@.len() == 7);
    assert("gzip"@.len() == 4 && "br"@.len() == 2 && "identity"@.len() == 8);
    assert("chunked"@[0] == 'c' && "deflate"@[0] == 'd');
    assert("compress"@[0] == 'c' && "identity"@[0] == 'i');
}

/// A dialog is made of two extracts, gives them back, and shows what they hold.
pub proof fn law_dialog_parts<X: Body>(
    pro: Prolog<X>,
    epi: Epilog<X>,
    d: Dialog<X>,
    parts: (Prolog<X>, Epilog<X>),
    method: &Method,
    url: &Url,
    req_headers: &HeaderMap<HeaderValue>,
    req_body: &X,
    version: Version,
    status: u16,
    res_headers: &HeaderMap<HeaderValue>,
    res_body: &X,
    decoded: &Vec<Encoding>,
)
    requires
        call_ensures(Dialog::<X>::new, (pro, epi), d),
        call_ensures(Dialog::<X>::explode, (d,), parts),
        call_ensures(Dialog::<X>::method, (&d,), method),
        call_ensures(Dialog::<X>::url, (&d,), url),
        call_ensures(<Dialog<X> as RequestRecorded>::req_headers, (&d,), req_headers),
        call_ensures(<Dialog<X> as RequestRecorded>::req_body, (&d,), req_body),
        call_ensures(Dialog::<X>::res_version, (&d,), version),
        call_ensures(Dialog::<X>::res_status, (&d,), status),
        call_ensures(<Dialog<X> as Recorded>::res_headers, (&d,), res_headers),
        call_ensures(<Dialog<X> as Recorded>::res_body, (&d,), res_body),
        call_ensures(Dialog::<X>::res_decoded, (&d,), decoded),
    ensures
        parts.0 == pro,
        parts.1 == epi,
        *method == pro.method,
        *url == pro.url,
        *req_headers == pro.req_headers,
        *req_body == pro.req_body,
        version == epi.version,
        status == epi.status,
        *res_headers == epi.res_headers,
        *res_body == epi.res_body,
        *decoded == epi.res_decoded,
{
}

/// Replacing the response body, or the encodings that were removed for it, leaves
/// everything else of a dialog as it was.
pub proof fn law_dialog_changes<X: Body>(d: &mut Dialog<X>, e: &mut Dialog<X>, body: X, decoded: Vec<Encoding>)
    requires
        call_ensures(Dialog::<X>::set_res_body_decoded, (d, body, decoded), ()),
        call_ensures(Dialog::<X>::set_res_decoded, (e, decoded), ()),
    ensures
        final(d).epi.res_body == body,
        final(d).epi.res_decoded == decoded,
        final(d).epi.version == old(d).epi.version,
        final(d).epi.status == old(d).epi.status,
        final(d).epi.res_headers == old(d).epi.res_headers,
        final(d).pro == old(d).pro,
        final(e).epi.res_decoded == decoded,
        final(e).epi.res_body == old(e).epi.res_body,
        final(e).epi.version == old(e).epi.version,
        final(e).epi.status == old(e).epi.status,
        final(e).epi.res_headers == old(e).epi.res_headers,
        final(e).pro == old(e).pro,
{
}

/// A copy of a dialog has the same method, URL, headers, version, status and
/// encodings, and copies of the bodies.
pub proof fn law_dialog_copy<X: Clone>(d: Dialog<X>, r: Dialog<X>)
    requires
        call_ensures(<Dialog<X> as Clone>::clone, (&d,), r),
    ensures
        r.pro.method@ == d.pro.method@,
        r.pro.url@ == d.pro.url@,
        header_entries(r.pro.req_headers) == header_entries(d.pro.req_headers),
        cloned::<X>(d.pro.req_body, r.pro.req_body),
        r.epi.version == d.epi.version,
        r.epi.status == d.epi.status,
        header_entries(r.epi.res_headers) == header_entries(d.epi.res_headers),
        cloned::<X>(d.epi.res_body, r.epi.res_body),
        r.epi.res_decoded@ == d.epi.res_decoded@,
{
}

/// The size of a body is the number of its bytes, wherever they are.
pub proof fn law_body_sizes<F, M>(b: Buffers, n: u64, image: BodyImage<F, M>, m: u64)
    requires
        call_ensures(<Buffers as Body>::body_len, (&b,), n),
        call_ensures(<BodyImage<F, M> as Body>::body_len, (&image,), m),
    ensures
        n == b@.len(),
        m == image@.len(),
{
}

/// What is made of a body of a dialog is all that changes of the dialog.
pub proof fn law_dialog_bodies_change<X>(d: &mut Dialog<X>, req: &mut X, e: &mut Dialog<X>, res: &mut X)
    requires
        call_ensures(Dialog::<X>::req_body_mut, (d,), req),
        call_ensures(Dialog::<X>::res_body_mut, (e,), res),
    ensures
        *old(req) == old(d).pro.req_body,
        final(d).pro.req_body == *final(req),
        final(d).pro.method == old(d).pro.method,
        final(d).pro.url == old(d).pro.url,
        final(d).pro.req_headers == old(d).pro.req_headers,
        final(d).epi == old(d).epi,
        *old(res) == old(e).epi.res_body,
        final(e).epi.res_body == *final(res),
        final(e).epi.version == old(e).epi.version,
        final(e).epi.status == old(e).epi.status,
        final(e).epi.res_headers == old(e).epi.res_headers,
        final(e).epi.res_decoded == old(e).epi.res_decoded,
        final(e).pro == old(e).pro,
{
}

/// A copy of an extract of a request, or of a response, has what that has.
pub proof fn law_extract_copies<X: Clone>(p: Prolog<X>, q: Prolog<X>, e: Epilog<X>, f: Epilog<X>)
    requires
        call_ensures(<Prolog<X> as Clone>::clone, (&p,), q),
        call_ensures(<Epilog<X> as Clone>::clone, (&e,), f),
    ensures
        q.method@ == p.method@,
        q.url@ == p.url@,
        header_entries(q.req_headers) == header_entries(p.req_headers),
        cloned::<X>(p.req_body, q.req_body),
        f.version == e.version,
        f.status == e.status,
        header_entries(f.res_headers) == header_entries(e.res_headers),
        cloned::<X>(e.res_body, f.res_body),
        f.res_decoded@ == e.res_decoded@,
{
}

} // verus!
