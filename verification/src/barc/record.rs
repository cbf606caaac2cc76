//! Records, and the names of the meta headers.
use http::header::{HeaderMap, HeaderName, HeaderValue};
use vstd::prelude::*;
use vstd::string::*;

use crate::barc::head::RecordType;
use crate::buf::Buffers;
use crate::dialog::{Body, Dialog, Recorded, RequestRecorded};
use crate::headers::{ascii_bytes, clone_headers, header_entries, header_name, header_name_bytes};

verus! {

/// A BARC record.
pub struct Record<B> {
    /// The record type.
    pub rec_type: RecordType,
    /// Headers for values that are not part of the HTTP request or response.
    pub meta: HeaderMap<HeaderValue>,
    /// The request headers.
    pub req_headers: HeaderMap<HeaderValue>,
    /// The request body.
    pub req_body: B,
    /// The response headers.
    pub res_headers: HeaderMap<HeaderValue>,
    /// The response body.
    pub res_body: B,
}

impl<B: Clone> Clone for Record<B> {
    fn clone(&self) -> (r: Record<B>)
        ensures
            r.rec_type == self.rec_type,
            header_entries(r.meta) == header_entries(self.meta),
            header_entries(r.req_headers) == header_entries(self.req_headers),
            cloned::<B>(self.req_body, r.req_body),
            header_entries(r.res_headers) == header_entries(self.res_headers),
            cloned::<B>(self.res_body, r.res_body),
    {
        Record {
            rec_type: self.rec_type,
            meta: clone_headers(&self.meta),
            req_headers: clone_headers(&self.req_headers),
            req_body: self.req_body.clone(),
            res_headers: clone_headers(&self.res_headers),
            res_body: self.res_body.clone(),
        }
    }
}

impl Default for Record<Buffers> {
    /// A record of a dialog, with no headers and empty bodies.
    fn default() -> (r: Record<Buffers>)
        ensures
            r.rec_type == RecordType::Dialog,
            header_entries(r.meta) == Seq::<(Seq<u8>, Seq<u8>)>::empty(),
            header_entries(r.req_headers) == Seq::<(Seq<u8>, Seq<u8>)>::empty(),
            header_entries(r.res_headers) == Seq::<(Seq<u8>, Seq<u8>)>::empty(),
            r.req_body@ == Seq::<u8>::empty(),
            r.res_body@ == Seq::<u8>::empty(),
    {
        Record {
            rec_type: RecordType::Dialog,
            meta: HeaderMap::new(),
            req_headers: HeaderMap::new(),
            req_body: Buffers::with_capacity(0),
            res_headers: HeaderMap::new(),
            res_body: Buffers::with_capacity(0),
        }
    }
}

/// Access by reference to a recording with a record type.
pub trait RecordedType: Recorded {
    /// The record type.
    spec fn spec_rec_type(&self) -> RecordType;

    /// The record type.
    fn rec_type(&self) -> (r: RecordType)
        ensures
            r == self.spec_rec_type(),
    ;
}

/// Access by reference to a recording with meta headers and a record type.
pub trait MetaRecorded: RecordedType {
    /// The meta headers.
    spec fn spec_meta(&self) -> HeaderMap<HeaderValue>;

    /// The meta headers.
    fn meta(&self) -> (r: &HeaderMap<HeaderValue>)
        ensures
            *r == self.spec_meta(),
    ;
}

impl<X: Body> RequestRecorded for Record<X> {
    type B = X;

    open spec fn spec_req_headers(&self) -> HeaderMap<HeaderValue> {
        self.req_headers
    }

    open spec fn spec_req_body(&self) -> X {
        self.req_body
    }

    fn req_headers(&self) -> &HeaderMap<HeaderValue> {
        &self.req_headers
    }

    fn req_body(&self) -> &X {
        &self.req_body
    }
}

impl<X: Body> Recorded for Record<X> {
    open spec fn spec_res_headers(&self) -> HeaderMap<HeaderValue> {
        self.res_headers
    }

    open spec fn spec_res_body(&self) -> X {
        self.res_body
    }

    fn res_headers(&self) -> &HeaderMap<HeaderValue> {
        &self.res_headers
    }

    fn res_body(&self) -> &X {
        &self.res_body
    }
}

impl<X: Body> RecordedType for Record<X> {
    open spec fn spec_rec_type(&self) -> RecordType {
        self.rec_type
    }

    fn rec_type(&self) -> RecordType {
        self.rec_type
    }
}

impl<X: Body> RecordedType for Dialog<X> {
    open spec fn spec_rec_type(&self) -> RecordType {
        RecordType::Dialog
    }

    fn rec_type(&self) -> RecordType {
        RecordType::Dialog
    }
}

impl<X: Body> MetaRecorded for Record<X> {
    open spec fn spec_meta(&self) -> HeaderMap<HeaderValue> {
        self.meta
    }

    fn meta(&self) -> &HeaderMap<HeaderValue> {
        &self.meta
    }
}

/// The name of the meta header for the complete URL of the request.
pub fn hname_meta_url() -> (r: HeaderName)
    ensures
        header_name_bytes(r) == ascii_bytes("url"@),
{
    proof {
        reveal_strlit("url");
    }
    header_name("url")
}

/// The name of the meta header for the method of the request, e.g. "GET".
pub fn hname_meta_method() -> (r: HeaderName)
    ensures
        header_name_bytes(r) == ascii_bytes("method"@),
{
    proof {
        reveal_strlit("method");
    }
    header_name("method")
}

/// The name of the meta header for the version of the response, e.g.
/// "HTTP/1.1".
pub fn hname_meta_res_version() -> (r: HeaderName)
    ensures
        header_name_bytes(r) == ascii_bytes("response-version"@),
{
    proof {
        reveal_strlit("response-version");
    }
    header_name("response-version")
}

/// The name of the meta header for the status code of the response, and its
/// reason phrase, e.g. "200 OK".
pub fn hname_meta_res_status() -> (r: HeaderName)
    ensures
        header_name_bytes(r) == ascii_bytes("response-status"@),
{
    proof {
        reveal_strlit("response-status");
    }
    header_name("response-status")
}

/// The name of the meta header for the encodings that were removed for the
/// response body, e.g. "chunked, gzip".
pub fn hname_meta_res_decoded() -> (r: HeaderName)
    ensures
        header_name_bytes(r) == ascii_bytes("response-decoded"@),
{
    proof {
        reveal_strlit("response-decoded");
    }
    header_name("response-decoded")
}

/// The names of the meta headers.
pub proof fn law_meta_names(
    url: HeaderName,
    method: HeaderName,
    version: HeaderName,
    status: HeaderName,
    decoded: HeaderName,
)
    requires
        call_ensures(hname_meta_url, (), url),
        call_ensures(hname_meta_method, (), method),
        call_ensures(hname_meta_res_version, (), version),
        call_ensures(hname_meta_res_status, (), status),
        call_ensures(hname_meta_res_decoded, (), decoded),
    ensures
        header_name_bytes(url) == ascii_bytes("url"@),
        header_name_bytes(method) == ascii_bytes("method"@),
        header_name_bytes(version) == ascii_bytes("response-version"@),
        header_name_bytes(status) == ascii_bytes("response-status"@),
        header_name_bytes(decoded) == ascii_bytes("response-decoded"@),
{
}

/// A record shows what it holds.
pub proof fn law_record_parts<X: Body>(
    rec: Record<X>,
    rec_type: RecordType,
    meta: &HeaderMap<HeaderValue>,
    req_headers: &HeaderMap<HeaderValue>,
    req_body: &X,
    res_headers: &HeaderMap<HeaderValue>,
    res_body: &X,
)
    requires
        call_ensures(<Record<X> as RecordedType>::rec_type, (&rec,), rec_type),
        call_ensures(<Record<X> as MetaRecorded>::meta, (&rec,), meta),
        call_ensures(<Record<X> as RequestRecorded>::req_headers, (&rec,), req_headers),
        call_ensures(<Record<X> as RequestRecorded>::req_body, (&rec,), req_body),
        call_ensures(<Record<X> as Recorded>::res_headers, (&rec,), res_headers),
        call_ensures(<Record<X> as Recorded>::res_body, (&rec,), res_body),
    ensures
        rec_type == rec.rec_type,
        *meta == rec.meta,
        *req_headers == rec.req_headers,
        *req_body == rec.req_body,
        *res_headers == rec.res_headers,
        *res_body == rec.res_body,
{
}

/// A dialog is of the record type for these.
pub proof fn law_dialog_type<X: Body>(d: Dialog<X>, rec_type: RecordType)
    requires
        call_ensures(<Dialog<X> as RecordedType>::rec_type, (&d,), rec_type),
    ensures
        rec_type is Dialog,
{
}

/// A copy of a record has the same type and headers, and copies of the bodies. One
/// without anything to copy is that of an empty dialog.
pub proof fn law_record_copy<X: Clone>(rec: Record<X>, r: Record<X>, none: Record<Buffers>)
    requires
        call_ensures(<Record<X> as Clone>::clone, (&rec,), r),
        call_ensures(<Record<Buffers> as Default>::default, (), none),
    ensures
        r.rec_type == rec.rec_type,
        header_entries(r.meta) == header_entries(rec.meta),
        header_entries(r.req_headers) == header_entries(rec.req_headers),
        cloned::<X>(rec.req_body, r.req_body),
        header_entries(r.res_headers) == header_entries(rec.res_headers),
        cloned::<X>(rec.res_body, r.res_body),
        none.rec_type is Dialog,
        header_entries(none.meta).len() == 0,
        header_entries(none.req_headers).len() == 0,
        header_entries(none.res_headers).len() == 0,
        none.req_body@.len() == 0,
        none.res_body@.len() == 0,
{
}

} // verus!
