//! Bodies and dialogs for asynchronous input and output.
//!
//! Streams of a [`BodyImage`](crate::body::BodyImage) and sinks to a
//! [`BodySink`](crate::body::BodySink) are state machines. A poll returns what
//! the caller has to do next: wait, hand on an item, or read, write or map a
//! file and report the outcome. Executors, permits and thread pools belong to
//! the caller.
use vstd::prelude::*;
use vstd::std_specs::convert::FromSpecImpl;
use vstd::string::*;

use crate::body::{BodyError, IoError};
use crate::dialog::Encoding;
use crate::text::{concat, decimal, lemma_prefix_of_sum, with_decimal};
use crate::tune::Timeout;

pub mod buf;
pub mod decode;
pub mod fetch;
pub mod sink;
pub mod stream;
pub mod uni;
pub mod wrappers;

verus! {

/// `http::Error`.
#[verifier::external_type_specification]
#[verifier::external_body]
pub struct ExHttpError(http::Error);

/// `hyper::Error`.
#[verifier::external_type_specification]
#[verifier::external_body]
pub struct ExHyperError(hyper::Error);

/// `blocking_permit::Canceled`.
#[verifier::external_type_specification]
#[verifier::external_body]
pub struct ExCanceled(blocking_permit::Canceled);

/// The text of a duration, as `std::time::Duration` is formatted for debugging.
pub uninterp spec fn duration_debug(secs: u64, nanos: u32) -> Seq<char>;

/// The text of an `http::Error`, which goes by the part of a message that is
/// not valid, and by what is wrong with it.
pub uninterp spec fn http_error_display(e: http::Error) -> Seq<char>;

/// The text of an `http::Error`, by its `Display` implementation.
#[verifier::external_body]
fn http_error_text(e: &http::Error) -> (s: String)
    ensures
        s@ == http_error_display(*e),
{
    format!("{}", e)
}

/// The text of a `hyper::Error`, by its `Display` implementation. Nothing is
/// claimed of it, as it ends with the text of a cause, which can be any error,
/// such as one of the operating system.
#[verifier::external_body]
fn hyper_error_text(e: &hyper::Error) -> (s: String) {
    format!("{}", e)
}

/// The text of a `blocking_permit::Canceled`, by its `Display` implementation,
/// which is always the same.
#[verifier::external_body]
fn canceled_text(e: &blocking_permit::Canceled) -> (s: String)
    ensures
        s@ == "Waiting for a blocking permit or dispatch was canceled"@,
{
    format!("{}", e)
}

/// The text of a duration, by the `Debug` implementation of
/// `std::time::Duration`.
#[verifier::external_body]
fn duration_text(secs: u64, nanos: u32) -> (s: String)
    requires
        nanos < 1_000_000_000,
    ensures
        s@ == duration_debug(secs, nanos),
{
    format!("{:?}", std::time::Duration::new(secs, nanos))
}

/// Failures of asynchronous input and output.
#[derive(Debug)]
#[non_exhaustive]
pub enum FutioError {
    /// A failure with a body.
    Body(BodyError),
    /// The time limit was reached before the initial response.
    ResponseTimeout(Timeout),
    /// The time limit was reached before the complete response body.
    BodyTimeout(Timeout),
    /// The content-length header exceeds the maximum length of a body.
    ContentLengthTooLong(u64),
    /// A failure reported by _http_.
    Http(http::Error),
    /// A failure reported by _hyper_.
    Hyper(hyper::Error),
    /// An encoding that cannot be decoded.
    UnsupportedEncoding(Encoding),
    /// A permit to block or a dispatched operation was canceled.
    OpCanceled(blocking_permit::Canceled),
    /// Other failures, by their description.
    Other(String),
}

impl FutioError {
    /// A description for the user.
    pub fn message(&self) -> (s: String)
        requires
            *self is ResponseTimeout ==> self->ResponseTimeout_0.wf(),
            *self is BodyTimeout ==> self->BodyTimeout_0.wf(),
        ensures
            match *self {
                FutioError::Body(BodyError::BodyTooLong(l)) => s@ == "With body: "@ + (
                "Body length of "@ + decimal(l as nat) + "+ bytes exceeds Tunables::max_body"@),
                FutioError::Body(BodyError::Io(IoError::UnexpectedEof)) => s@ == "With body: "@ + (
                "Body I/O: "@ + "failed to fill whole buffer"@),
                FutioError::Body(BodyError::Io(_)) => ("With body: "@ + "Body I/O: "@).is_prefix_of(s@),
                FutioError::ResponseTimeout(t) => s@ == "Timeout before initial response ("@
                    + duration_debug(t.secs, t.nanos) + ")"@,
                FutioError::BodyTimeout(t) => s@ == "Timeout before streaming body complete ("@
                    + duration_debug(t.secs, t.nanos) + ")"@,
                FutioError::ContentLengthTooLong(l) => s@ == "Response Content-Length too long: "@
                    + decimal(l as nat),
                FutioError::Http(e) => s@ == "Http error: "@ + http_error_display(e),
                FutioError::Hyper(_) => "Hyper error: "@.is_prefix_of(s@),
                FutioError::UnsupportedEncoding(e) => s@ == "Unsupported encoding: "@ + e.spec_text(),
                FutioError::OpCanceled(_) => s@ == "Error: "@
                    + "Waiting for a blocking permit or dispatch was canceled"@,
                FutioError::Other(t) => s@ == "Other error: "@ + t@,
            },
    {
        match self {
            FutioError::Body(e) => {
                let m = e.message();
                let s = concat("With body: ", m.as_str());
                proof {
                    lemma_prefix_of_sum("With body: "@, "Body I/O: "@, m@);
                }
                s
            },
            FutioError::ResponseTimeout(t) => {
                let m = duration_text(t.secs, t.nanos);
                let mut s = concat("Timeout before initial response (", m.as_str());
                s.append(")");
                s
            },
            FutioError::BodyTimeout(t) => {
                let m = duration_text(t.secs, t.nanos);
                let mut s = concat("Timeout before streaming body complete (", m.as_str());
                s.append(")");
                s
            },
            FutioError::ContentLengthTooLong(l) => {
                proof {
                    reveal_strlit("");
                }
                let s = with_decimal("Response Content-Length too long: ", *l, "");
                assert(s@ =~= "Response Content-Length too long: "@ + decimal(*l as nat));
                s
            },
            FutioError::Http(e) => {
                let m = http_error_text(e);
                concat("Http error: ", m.as_str())
            },
            FutioError::Hyper(e) => {
                let m = hyper_error_text(e);
                concat("Hyper error: ", m.as_str())
            },
            FutioError::UnsupportedEncoding(e) => concat("Unsupported encoding: ", e.text()),
            FutioError::OpCanceled(e) => {
                let m = canceled_text(e);
                concat("Error: ", m.as_str())
            },
            FutioError::Other(t) => concat("Other error: ", t.as_str()),
        }
    }
}

impl From<BodyError> for FutioError {
    fn from(err: BodyError) -> (r: FutioError) {
        FutioError::Body(err)
    }
}

impl FromSpecImpl<BodyError> for FutioError {
    open spec fn obeys_from_spec() -> bool {
        true
    }

    open spec fn from_spec(err: BodyError) -> FutioError {
        FutioError::Body(err)
    }
}

impl From<http::Error> for FutioError {
    fn from(err: http::Error) -> (r: FutioError) {
        FutioError::Http(err)
    }
}

impl FromSpecImpl<http::Error> for FutioError {
    open spec fn obeys_from_spec() -> bool {
        true
    }

    open spec fn from_spec(err: http::Error) -> FutioError {
        FutioError::Http(err)
    }
}

impl From<hyper::Error> for FutioError {
    fn from(err: hyper::Error) -> (r: FutioError) {
        FutioError::Hyper(err)
    }
}

impl FromSpecImpl<hyper::Error> for FutioError {
    open spec fn obeys_from_spec() -> bool {
        true
    }

    open spec fn from_spec(err: hyper::Error) -> FutioError {
        FutioError::Hyper(err)
    }
}

impl From<std::io::Error> for FutioError {
    fn from(err: std::io::Error) -> (r: FutioError) {
        FutioError::Body(BodyError::Io(IoError::Outside(err)))
    }
}

impl FromSpecImpl<std::io::Error> for FutioError {
    open spec fn obeys_from_spec() -> bool {
        true
    }

    open spec fn from_spec(err: std::io::Error) -> FutioError {
        FutioError::Body(BodyError::Io(IoError::Outside(err)))
    }
}

/// The description of each failure.
pub proof fn law_futio_messages(e: FutioError, s: String)
    requires
        call_ensures(FutioError::message, (&e,), s),
    ensures
        e matches FutioError::Body(BodyError::BodyTooLong(l))
            ==> s@ == "With body: "@ + ("Body length of "@ + decimal(
            l as nat,
        ) + "+ bytes exceeds Tunables::max_body"@),
        e matches FutioError::Body(BodyError::Io(IoError::UnexpectedEof)) ==> s@ == "With body: "@ + (
        "Body I/O: "@ + "failed to fill whole buffer"@),
        e matches FutioError::Body(BodyError::Io(_)) ==> ("With body: "@ + "Body I/O: "@).is_prefix_of(s@),
        e matches FutioError::ResponseTimeout(t) ==> s@ == "Timeout before initial response ("@ + duration_debug(
            t.secs,
            t.nanos,
        ) + ")"@,
        e matches FutioError::BodyTimeout(t) ==> s@ == "Timeout before streaming body complete ("@ + duration_debug(
            t.secs,
            t.nanos,
        ) + ")"@,
        e matches FutioError::ContentLengthTooLong(l) ==> s@ == "Response Content-Length too long: "@ + decimal(
            l as nat,
        ),
        e matches FutioError::Http(h) ==> s@ == "Http error: "@ + http_error_display(h),
        e is Hyper ==> "Hyper error: "@.is_prefix_of(s@),
        e == FutioError::UnsupportedEncoding(Encoding::Compress) ==> s@ == "Unsupported encoding: "@ + "compress"@,
        e == FutioError::UnsupportedEncoding(Encoding::Brotli) ==> s@ == "Unsupported encoding: "@ + "br"@,
        e is OpCanceled ==> s@ == "Error: "@ + "Waiting for a blocking permit or dispatch was canceled"@,
        e matches FutioError::Other(t) ==> s@ == "Other error: "@ + t@,
{
    if e is Body && e->Body_0 is Io && e->Body_0->Io_0 is UnexpectedEof {
        lemma_prefix_of_sum("With body: "@, "Body I/O: "@, "Body I/O: "@ + "failed to fill whole buffer"@);
    }
}

/// A failure of a part is kept as what it was.
pub proof fn law_failures_are_kept(
    body: BodyError,
    http: http::Error,
    hyper: hyper::Error,
    io: std::io::Error,
    a: FutioError,
    b: FutioError,
    c: FutioError,
    d: FutioError,
)
    requires
        call_ensures(<FutioError as From<BodyError>>::from, (body,), a),
        call_ensures(<FutioError as From<http::Error>>::from, (http,), b),
        call_ensures(<FutioError as From<hyper::Error>>::from, (hyper,), c),
        call_ensures(<FutioError as From<std::io::Error>>::from, (io,), d),
    ensures
        a == FutioError::Body(body),
        b == FutioError::Http(http),
        c == FutioError::Hyper(hyper),
        d == FutioError::Body(BodyError::Io(IoError::Outside(io))),
{
}

} // verus!
