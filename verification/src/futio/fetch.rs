//! Requests, and the responses to them.
use bytes::Bytes;
use http::header::{HeaderMap, HeaderValue};
use hyperx::header::{ContentLength, Header, Raw};
use vstd::prelude::*;
use vstd::string::*;

use crate::body::{BodyImage, BodySink};
use crate::buf::bytes_content;
use crate::dialog::{Body, Dialog, Encoding, Epilog, Method, Prolog, RequestRecorded, Url, Version};
use crate::futio::decode::{find_chunked, is_chunked};
use crate::futio::FutioError;
use crate::headers::{ascii_bytes, get_all_headers, header_entries, header_name, strings_view, values_of};
use crate::text::{concat, decimal, law_decimal_digits, trimmed};
use crate::tune::{Timeout, Tunables};

verus! {

/// The version of this library.
pub const VERSION: &'static str = "3.0.0";

/// An appropriate value for the accept-encoding header of a request.
pub const ACCEPT_ENCODINGS: &'static str = "br, gzip, deflate";

/// A value for the accept header of a request as a browser has it, with
/// preference for hypertext.
pub const BROWSE_ACCEPT: &'static str = "text/html, application/xhtml+xml, application/xml;q=0.9, */*;q=0.8";

/// A generic value for the user-agent header of a request, with the version of
/// this library.
pub fn user_agent() -> (s: String)
    ensures
        s@ == "Mozilla/5.0 (compatible; body-image "@ + VERSION@
            + "; +https://crates.io/crates/body-image)"@,
{
    let mut s = concat("Mozilla/5.0 (compatible; body-image ", VERSION);
    s.append("; +https://crates.io/crates/body-image)");
    s
}

/// Whether all characters are decimal digits.
pub open spec fn all_digits(s: Seq<char>) -> bool {
    forall|i: int| #![trigger s[i]] 0 <= i < s.len() ==> '0' <= s[i] <= '9'
}

/// The value of some decimal digits.
pub open spec fn digits_value(s: Seq<char>) -> int
    decreases s.len(),
{
    if s.len() == 0 {
        0
    } else {
        digits_value(s.drop_last()) * 10 + (s.last() as int - '0' as int)
    }
}

/// The number that a text stands for: decimal digits, which may follow a plus
/// sign, in the range of `u64`.
pub open spec fn number_in(s: Seq<char>) -> Option<u64> {
    let d = if s.len() > 0 && s[0] == '+' {
        s.skip(1)
    } else {
        s
    };
    if d.len() > 0 && all_digits(d) && digits_value(d) <= u64::MAX {
        Some(digits_value(d) as u64)
    } else {
        None
    }
}

/// The length that a value of a content-length header gives.
pub open spec fn value_length(value: Seq<u8>) -> Option<u64> {
    if vstd::utf8::valid_utf8(value) {
        number_in(trimmed(vstd::utf8::decode_utf8(value)))
    } else {
        None
    }
}

/// Whether the values of a content-length header all give the same length.
pub open spec fn give_length(values: Seq<Seq<u8>>, n: u64) -> bool {
    forall|i: int| 0 <= i < values.len() ==> #[trigger] value_length(values[i]) == Some(n)
}

/// The text of the failure of `hyperx::header::ContentLength::parse_header` on the
/// values of a header.
pub uninterp spec fn length_fault(values: Seq<Seq<u8>>) -> Seq<char>;

/// The length that the values of a content-length header give, by
/// `hyperx::header::ContentLength::parse_header`, which fails unless there is a
/// value and all of them give the same number. A failure is given by its text.
#[verifier::external_body]
fn parse_content_length(values: &Vec<Vec<u8>>) -> (r: Result<u64, String>)
    ensures
        r is Ok ==> values@.len() > 0 && give_length(strings_view(values@), r->Ok_0),
        r is Err ==> values@.len() == 0 || forall|n: u64| !#[trigger] give_length(strings_view(values@), n),
        r is Err ==> r->Err_0@ == length_fault(strings_view(values@)),
{
    let raw = Raw::from(values.clone());
    ContentLength::parse_header(&raw).map(|l| l.0).map_err(|e| e.to_string())
}

/// The content-length header of a response.
#[derive(Debug)]
pub enum ResponseLength {
    /// There is no such header.
    Unknown,
    /// The header gives this length.
    Known(u64),
    /// The header is not valid, as described.
    Invalid(String),
}

/// Whether there is no length that all the values of a content-length header give.
pub open spec fn give_no_length(values: Seq<Seq<u8>>) -> bool {
    forall|n: u64| !#[trigger] give_length(values, n)
}

/// The values of the content-length header of some headers.
pub open spec fn lengths_in(headers: HeaderMap<HeaderValue>) -> Seq<Seq<u8>> {
    values_of(header_entries(headers), ascii_bytes("content-length"@))
}

/// The content-length header of some headers.
pub fn response_length(headers: &HeaderMap<HeaderValue>) -> (r: ResponseLength)
    ensures
        match r {
            ResponseLength::Unknown => lengths_in(*headers).len() == 0,
            ResponseLength::Known(n) => lengths_in(*headers).len() > 0 && give_length(lengths_in(*headers), n),
            ResponseLength::Invalid(e) => {
                &&& lengths_in(*headers).len() > 0
                &&& give_no_length(lengths_in(*headers))
                &&& e@ == length_fault(lengths_in(*headers))
            },
        },
{
    proof {
        reveal_strlit("content-length");
    }
    let values = get_all_headers(headers, &header_name("content-length"));
    assert(strings_view(values@).len() == values@.len());
    if values.len() == 0 {
        return ResponseLength::Unknown;
    }
    match parse_content_length(&values) {
        Ok(n) => ResponseLength::Known(n),
        Err(e) => ResponseLength::Invalid(e),
    }
}

/// Where the body of a response is to be written to.
pub enum ResponseSink<F> {
    /// To this sink, which is in RAM.
    Ram(BodySink<F>),
    /// To a new file, for which to use [`BodySink::with_fs`].
    Fs,
}

/// Decide where the body of a response is to be written to. A length that is
/// not known is assumed to fit in RAM.
pub fn response_sink<F>(length: ResponseLength, tune: &Tunables) -> (r: Result<ResponseSink<F>, FutioError>)
    ensures
        match length {
            ResponseLength::Unknown => r is Ok && r->Ok_0 is Ram,
            ResponseLength::Invalid(e) => r == Err::<ResponseSink<F>, FutioError>(FutioError::Other(e)),
            ResponseLength::Known(n) => if n > tune.max_body {
                r == Err::<ResponseSink<F>, FutioError>(FutioError::ContentLengthTooLong(n))
            } else if n > tune.max_body_ram {
                r == Ok::<ResponseSink<F>, FutioError>(ResponseSink::Fs)
            } else {
                r is Ok && r->Ok_0 is Ram
            },
        },
        r is Ok && r->Ok_0 is Ram ==> r->Ok_0->Ram_0.in_ram() && r->Ok_0->Ram_0@ == Seq::<u8>::empty(),
{
    match length {
        ResponseLength::Unknown => Ok(ResponseSink::Ram(BodySink::with_ram(tune.max_body_ram()))),
        ResponseLength::Invalid(e) => Err(FutioError::Other(e)),
        ResponseLength::Known(n) => {
            if n > tune.max_body() {
                Err(FutioError::ContentLengthTooLong(n))
            } else if n > tune.max_body_ram() {
                Ok(ResponseSink::Fs)
            } else {
                Ok(ResponseSink::Ram(BodySink::with_ram(n)))
            }
        },
    }
}

/// The outcome of an operation with a limit of time.
pub enum Timed<T> {
    /// The operation was completed in time.
    Completed(Result<T, FutioError>),
    /// The time was over before.
    Elapsed(Timeout),
}

/// The outcome of waiting for the initial response.
pub fn response_in_time<T>(outcome: Timed<T>) -> (r: Result<T, FutioError>)
    ensures
        r == (match outcome {
            Timed::Completed(r) => r,
            Timed::Elapsed(t) => Err(FutioError::ResponseTimeout(t)),
        }),
{
    match outcome {
        Timed::Completed(r) => r,
        Timed::Elapsed(t) => Err(FutioError::ResponseTimeout(t)),
    }
}

/// The outcome of waiting for the complete response body.
pub fn body_in_time<T>(outcome: Timed<T>) -> (r: Result<T, FutioError>)
    ensures
        r == (match outcome {
            Timed::Completed(r) => r,
            Timed::Elapsed(t) => Err(FutioError::BodyTimeout(t)),
        }),
{
    match outcome {
        Timed::Completed(r) => r,
        Timed::Elapsed(t) => Err(FutioError::BodyTimeout(t)),
    }
}

/// A request `R`, and what is recorded of it.
pub struct RequestRecord<R, B> {
    request: R,
    prolog: Prolog<B>,
}

impl<R, B> RequestRecord<R, B> {
    /// The request itself.
    pub closed spec fn the_request(&self) -> R {
        self.request
    }

    /// What is recorded.
    pub closed spec fn recorded(&self) -> Prolog<B> {
        self.prolog
    }

    /// A request, and what is recorded of it.
    pub fn new(request: R, prolog: Prolog<B>) -> (r: Self)
        ensures
            r.the_request() == request,
            r.recorded() == prolog,
    {
        RequestRecord { request, prolog }
    }

    /// The HTTP method, e.g. `GET`.
    pub fn method(&self) -> (r: &Method)
        ensures
            *r == self.recorded().method,
    {
        &self.prolog.method
    }

    /// The complete URL of the request.
    pub fn url(&self) -> (r: &Url)
        ensures
            *r == self.recorded().url,
    {
        &self.prolog.url
    }

    /// The request itself.
    pub fn request(&self) -> (r: &R)
        ensures
            *r == self.the_request(),
    {
        &self.request
    }

    /// The request itself, and what is recorded of it.
    pub fn explode(self) -> (r: (R, Prolog<B>))
        ensures
            r.0 == self.the_request(),
            r.1 == self.recorded(),
    {
        (self.request, self.prolog)
    }
}

impl<R, X: Body> RequestRecorded for RequestRecord<R, X> {
    type B = X;

    open spec fn spec_req_headers(&self) -> HeaderMap<HeaderValue> {
        self.recorded().req_headers
    }

    open spec fn spec_req_body(&self) -> X {
        self.recorded().req_body
    }

    fn req_headers(&self) -> &HeaderMap<HeaderValue> {
        &self.prolog.req_headers
    }

    fn req_body(&self) -> &X {
        &self.prolog.req_body
    }
}

/// The head of a request, as it is recorded.
pub struct RequestHead {
    /// The method, e.g. `GET`.
    pub method: Method,
    /// The complete URL.
    pub url: Url,
    pub headers: HeaderMap<HeaderValue>,
}

/// Recording of a request, with or without a body.
pub trait RequestRecorder<F, M>: Sized {
    /// The head of the request.
    spec fn head(&self) -> RequestHead;

    /// The record of a request without a body.
    fn record(self) -> (r: Prolog<BodyImage<F, M>>)
        ensures
            is_record_of(self.head(), r),
            r.req_body.in_ram(),
            r.req_body@ == Seq::<u8>::empty(),
    ;

    /// The record of a request with a body in RAM.
    fn record_body(self, body: Bytes) -> (r: Prolog<BodyImage<F, M>>)
        ensures
            is_record_of(self.head(), r),
            r.req_body.in_ram(),
            r.req_body@ == bytes_content(body),
    ;

    /// The record of a request with a body.
    fn record_body_image(self, body: BodyImage<F, M>) -> (r: Prolog<BodyImage<F, M>>)
        ensures
            is_record_of(self.head(), r),
            r.req_body == body,
    ;
}

/// Whether the head of a request is recorded.
pub open spec fn is_record_of<B>(head: RequestHead, r: Prolog<B>) -> bool {
    &&& r.method == head.method
    &&& r.url == head.url
    &&& r.req_headers == head.headers
}

impl<F, M> RequestRecorder<F, M> for RequestHead {
    open spec fn head(&self) -> RequestHead {
        *self
    }

    fn record(self) -> Prolog<BodyImage<F, M>> {
        self.record_body_image(BodyImage::empty())
    }

    fn record_body(self, body: Bytes) -> Prolog<BodyImage<F, M>> {
        let req_body = if body.len() == 0 {
            assert(bytes_content(body) =~= Seq::<u8>::empty());
            BodyImage::empty()
        } else {
            BodyImage::from_slice(body)
        };
        self.record_body_image(req_body)
    }

    fn record_body_image(self, body: BodyImage<F, M>) -> Prolog<BodyImage<F, M>> {
        Prolog { method: self.method, url: self.url, req_headers: self.headers, req_body: body }
    }
}

/// A request, with the response to it while it is received.
pub struct InDialog<F, M> {
    pub prolog: Prolog<BodyImage<F, M>>,
    pub version: Version,
    /// The status code, e.g. 200.
    pub status: u16,
    pub res_headers: HeaderMap<HeaderValue>,
    pub res_body: BodySink<F>,
}

impl<F, M> InDialog<F, M> {
    /// The dialog, once the response body is complete, and flushed if it is in a
    /// file. A chunked transfer encoding, which was removed while receiving, is
    /// recorded as such.
    pub fn prepare(self) -> (r: Dialog<BodyImage<F, M>>)
        ensures
            r.pro == self.prolog,
            r.epi == (Epilog {
                version: self.version,
                status: self.status,
                res_headers: self.res_headers,
                res_body: r.epi.res_body,
                res_decoded: r.epi.res_decoded,
            }),
            r.epi.res_decoded@ == (if is_chunked(self.res_headers) {
                seq![Encoding::Chunked]
            } else {
                Seq::empty()
            }),
            r.epi.res_body@ == self.res_body@,
            r.epi.res_body.in_ram() == (self.res_body.in_ram() || self.res_body@.len() == 0),
            !r.epi.res_body.in_ram() ==> r.epi.res_body.in_file() && r.epi.res_body.the_file()
                == self.res_body.the_file(),
    {
        let mut res_decoded: Vec<Encoding> = Vec::with_capacity(1);
        if find_chunked(&self.res_headers) {
            res_decoded.push(Encoding::Chunked);
        }
        assert(res_decoded@ =~= if is_chunked(self.res_headers) {
            seq![Encoding::Chunked]
        } else {
            Seq::empty()
        });
        Dialog::new(
            self.prolog,
            Epilog {
                version: self.version,
                status: self.status,
                res_headers: self.res_headers,
                res_body: self.res_body.prepare(),
                res_decoded,
            },
        )
    }
}

/// The decimal digits of a number in the range of `u64`, with or without a plus
/// sign, stand for that number, and a text with any other character for none.
pub proof fn law_numbers(v: u64, s: Seq<char>, i: int)
    ensures
        number_in(decimal(v as nat)) == Some(v),
        number_in(seq!['+'] + decimal(v as nat)) == Some(v),
        number_in(Seq::<char>::empty()) is None,
        0 <= i < s.len() && !('0' <= s[i] <= '9') && !(i == 0 && s[i] == '+') ==> number_in(s) is None,
{
    lemma_digits_value(v as nat);
    law_decimal_digits(v as nat);
    let d = decimal(v as nat);
    assert('0' <= d[0] <= '9');
    assert((seq!['+'] + d).skip(1) =~= d);
    if 0 <= i < s.len() && !('0' <= s[i] <= '9') && !(i == 0 && s[i] == '+') {
        if s[0] == '+' {
            assert(s.skip(1)[i - 1] == s[i]);
        }
    }
}

/// The value of the digits of a number is the number.
proof fn lemma_digits_value(v: nat)
    ensures
        digits_value(decimal(v)) == v,
    decreases v,
{
    law_decimal_digits(v);
    let d = decimal(v);
    assert(digits_value(d) == digits_value(d.drop_last()) * 10 + (d.last() as int - '0' as int));
    if v >= 10 {
        lemma_digits_value(v / 10);
    } else {
        assert(d.drop_last() =~= Seq::<char>::empty());
        assert(digits_value(d.drop_last()) == 0);
    }
}

/// The length of a response is that which all values of its content-length header
/// agree on. It is not known without such a header, and is not valid where a value
/// is not a number or two of them differ.
pub proof fn law_response_length(
    headers: &HeaderMap<HeaderValue>,
    values: Seq<Seq<u8>>,
    i: int,
    n: u64,
    r: ResponseLength,
)
    requires
        values == values_of(header_entries(*headers), ascii_bytes("content-length"@)),
        call_ensures(response_length, (headers,), r),
    ensures
        r is Unknown <==> values.len() == 0,
        r is Known && 0 <= i < values.len() ==> vstd::utf8::valid_utf8(values[i]) && number_in(
            trimmed(vstd::utf8::decode_utf8(values[i])),
        ) == Some(r->Known_0),
        values.len() > 0 && (forall|k: int|
            0 <= k < values.len() ==> vstd::utf8::valid_utf8(#[trigger] values[k]) && number_in(
                trimmed(vstd::utf8::decode_utf8(values[k])),
            ) == Some(n)) ==> r == ResponseLength::Known(n),
{
    if r is Known && 0 <= i < values.len() {
        assert(value_length(values[i]) == Some(r->Known_0));
    }
    if values.len() > 0 && (forall|k: int|
        0 <= k < values.len() ==> vstd::utf8::valid_utf8(#[trigger] values[k]) && number_in(
            trimmed(vstd::utf8::decode_utf8(values[k])),
        ) == Some(n)) {
        assert(give_length(values, n)) by {
            assert forall|k: int| 0 <= k < values.len() implies #[trigger] value_length(values[k]) == Some(n) by {
                assert(vstd::utf8::valid_utf8(values[k]));
            }
        }
        if let ResponseLength::Known(m) = r {
            assert(value_length(values[0]) == Some(m));
            assert(value_length(values[0]) == Some(n));
        }
    }
}

/// A response that is longer than the maximum length of a body is refused before
/// it is received. Otherwise one that is longer than the maximum in RAM goes to a
/// file, and any other, or one of unknown length, to RAM, with nothing in it yet.
pub proof fn law_response_sink<F>(
    length: ResponseLength,
    tune: &Tunables,
    r: Result<ResponseSink<F>, FutioError>,
)
    requires
        call_ensures(response_sink::<F>, (length, tune), r),
    ensures
        length matches ResponseLength::Known(n) ==> {
            &&& r is Err <==> n > tune.max_body
            &&& r is Err ==> r == Err::<ResponseSink<F>, FutioError>(FutioError::ContentLengthTooLong(n))
            &&& n <= tune.max_body && n > tune.max_body_ram ==> r->Ok_0 is Fs
            &&& n <= tune.max_body && n <= tune.max_body_ram ==> r->Ok_0 is Ram
        },
        length is Unknown ==> r is Ok && r->Ok_0 is Ram,
        length matches ResponseLength::Invalid(e) ==> r == Err::<ResponseSink<F>, FutioError>(FutioError::Other(e)),
        r is Ok && r->Ok_0 is Ram ==> r->Ok_0->Ram_0.in_ram() && r->Ok_0->Ram_0@.len() == 0,
{
}

/// What is completed in time has its own outcome. What is not fails with the limit
/// that was exceeded, which is told apart for the response and for the body.
pub proof fn law_limits_of_time<T>(outcome: Timed<T>, a: Result<T, FutioError>, b: Result<T, FutioError>)
    requires
        call_ensures(response_in_time::<T>, (outcome,), a),
        call_ensures(body_in_time::<T>, (outcome,), b),
    ensures
        outcome matches Timed::Completed(r) ==> a == r && b == r,
        outcome matches Timed::Elapsed(t)
            ==> a == Err::<T, FutioError>(FutioError::ResponseTimeout(t)) && b == Err::<
            T,
            FutioError,
        >(FutioError::BodyTimeout(t)),
{
}

/// A response that is complete becomes a dialog with what was received: nothing of
/// the request, the head or the body of the response is changed, and chunked is
/// recorded as removed exactly if it was in use.
pub proof fn law_received_dialog<F, M>(d: InDialog<F, M>, r: Dialog<BodyImage<F, M>>, chunked: bool)
    requires
        call_ensures(find_chunked, (&d.res_headers,), chunked),
        call_ensures(InDialog::<F, M>::prepare, (d,), r),
    ensures
        r.pro == d.prolog,
        r.epi.version == d.version,
        r.epi.status == d.status,
        r.epi.res_headers == d.res_headers,
        r.epi.res_body@ == d.res_body@,
        d.res_body.in_ram() ==> r.epi.res_body.in_ram(),
        !d.res_body.in_ram() && d.res_body@.len() > 0 ==> r.epi.res_body.in_file() && r.epi.res_body.the_file()
            == d.res_body.the_file(),
        chunked ==> r.epi.res_decoded@ == seq![Encoding::Chunked],
        !chunked ==> r.epi.res_decoded@.len() == 0,
{
}

/// What is recorded of a request is its method, URL, headers and body, with or
/// without one.
pub proof fn law_recorded_request<F, M>(
    head: RequestHead,
    bytes: Bytes,
    body: BodyImage<F, M>,
    a: Prolog<BodyImage<F, M>>,
    b: Prolog<BodyImage<F, M>>,
    c: Prolog<BodyImage<F, M>>,
)
    requires
        call_ensures(<RequestHead as RequestRecorder<F, M>>::record, (head,), a),
        call_ensures(<RequestHead as RequestRecorder<F, M>>::record_body, (head, bytes), b),
        call_ensures(<RequestHead as RequestRecorder<F, M>>::record_body_image, (head, body), c),
    ensures
        a.method == head.method && a.url == head.url && a.req_headers == head.headers && a.req_body@.len() == 0,
        b.method == head.method && b.url == head.url && b.req_headers == head.headers && b.req_body@
            == bytes_content(bytes),
        c.method == head.method && c.url == head.url && c.req_headers == head.headers && c.req_body == body,
{
}

/// A request and what is recorded of it are given back as they were.
pub proof fn law_request_record<R, B>(
    request: R,
    prolog: Prolog<B>,
    rec: RequestRecord<R, B>,
    m: &Method,
    u: &Url,
    q: &R,
    parts: (R, Prolog<B>),
)
    requires
        call_ensures(RequestRecord::<R, B>::new, (request, prolog), rec),
        call_ensures(RequestRecord::<R, B>::method, (&rec,), m),
        call_ensures(RequestRecord::<R, B>::url, (&rec,), u),
        call_ensures(RequestRecord::<R, B>::request, (&rec,), q),
        call_ensures(RequestRecord::<R, B>::explode, (rec,), parts),
    ensures
        *m == prolog.method && *u == prolog.url && *q == request,
        parts == (request, prolog),
{
}

/// The values for the headers of a request.
pub proof fn law_request_values(s: String)
    requires
        call_ensures(user_agent, (), s),
    ensures
        ACCEPT_ENCODINGS@ == "br, gzip, deflate"@,
        BROWSE_ACCEPT@ == "text/html, application/xhtml+xml, application/xml;q=0.9, */*;q=0.8"@,
        s@ == "Mozilla/5.0 (compatible; body-image "@ + VERSION@ + "; +https://crates.io/crates/body-image)"@,
{
}

/// A record of a request shows what was recorded of it.
pub proof fn law_request_record_parts<R, X: Body>(
    rec: RequestRecord<R, X>,
    headers: &HeaderMap<HeaderValue>,
    body: &X,
)
    requires
        call_ensures(<RequestRecord<R, X> as RequestRecorded>::req_headers, (&rec,), headers),
        call_ensures(<RequestRecord<R, X> as RequestRecorded>::req_body, (&rec,), body),
    ensures
        *headers == rec.recorded().req_headers,
        *body == rec.recorded().req_body,
{
}

/// A digit after a number makes it ten times as large and adds to it, zeros at the
/// start or not, unless it is then too large. A digit alone is its value.
pub proof fn law_number_grows(s: Seq<char>, c: char)
    requires
        '0' <= c <= '9',
    ensures
        number_in(seq![c]) == Some((c as int - '0' as int) as u64),
        number_in(s) matches Some(v) ==> {
            let next = v * 10 + (c as int - '0' as int);
            &&& next <= u64::MAX ==> number_in(s.push(c)) == Some(next as u64)
            &&& next > u64::MAX ==> number_in(s.push(c)) is None
        },
{
    assert(seq![c].drop_last() =~= Seq::<char>::empty());
    assert(digits_value(seq![c].drop_last()) == 0);
    if number_in(s) is Some {
        let t = s.push(c);
        assert(t[0] == s[0]);
        let d = if s[0] == '+' {
            s.skip(1)
        } else {
            s
        };
        if s[0] == '+' {
            assert(t.skip(1) =~= d.push(c));
        }
        let e = d.push(c);
        assert(e.drop_last() =~= d);
        lemma_digits_positive(d);
        assert(digits_value(e) == digits_value(d) * 10 + (c as int - '0' as int));
        assert forall|i: int| #![trigger e[i]] 0 <= i < e.len() implies '0' <= e[i] <= '9' by {
            if i < d.len() {
                assert(e[i] == d[i]);
            }
        }
    }
}

/// The value of digits is not negative.
proof fn lemma_digits_positive(s: Seq<char>)
    requires
        all_digits(s),
    ensures
        digits_value(s) >= 0,
    decreases s.len(),
{
    if s.len() > 0 {
        let t = s.drop_last();
        assert forall|i: int| #![trigger t[i]] 0 <= i < t.len() implies '0' <= t[i] <= '9' by {
            assert(t[i] == s[i]);
        }
        lemma_digits_positive(t);
        assert('0' <= s[s.len() - 1] <= '9');
    }
}

} // verus!
