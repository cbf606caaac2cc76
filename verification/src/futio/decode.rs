//! Finding and removing the encodings of a response body.
use http::header::{HeaderMap, HeaderValue};
use hyperx::header::{ContentEncoding, Header, Raw, TransferEncoding};
use vstd::prelude::*;
use vstd::string::*;

use crate::body::{BodyError, BodyImage, BodyPlan, IoError, WriteBack};
use crate::buf::from_vec;
use crate::codec::{
    brotli, gunzip, gunzip_head, gunzipped, gzip, inflate, inflate_head, inflated, unbrotli, unbrotli_head,
    unbrotlied,
};
use crate::dialog::{Dialog, Encoding, Epilog};
use crate::futio::FutioError;
use crate::headers::{ascii_bytes, get_all_headers, header_entries, header_name, strings_view, values_of};
use crate::read_from::{enough, is_planned, law_enough_decides, most_read, plan_body};
use crate::text::{str_eq, trimmed};
use crate::tune::Tunables;

verus! {

/// The position of the first comma, or the end.
pub open spec fn first_comma(s: Seq<char>) -> int
    decreases s.len(),
{
    if s.len() == 0 || s[0] == ',' {
        0
    } else {
        1 + first_comma(s.skip(1))
    }
}

/// The first comma is within the text, or the end.
proof fn lemma_first_comma(s: Seq<char>)
    ensures
        0 <= first_comma(s) <= s.len(),
    decreases s.len(),
{
    if s.len() > 0 && s[0] != ',' {
        lemma_first_comma(s.skip(1));
    }
}

/// The items of a list that is separated by commas, without the white space
/// around them. Empty items are left out.
pub open spec fn list_items(s: Seq<char>) -> Seq<Seq<char>>
    decreases s.len(),
    via list_items_decreases
{
    let i = first_comma(s);
    let item = trimmed(s.take(i));
    let first = if item.len() == 0 {
        Seq::empty()
    } else {
        seq![item]
    };
    if i >= s.len() {
        first
    } else {
        first + list_items(s.skip(i + 1))
    }
}

#[via_fn]
proof fn list_items_decreases(s: Seq<char>) {
    lemma_first_comma(s);
}

/// The items of a header value, which is a list. `None` where it is not UTF-8.
pub open spec fn value_items(value: Seq<u8>) -> Option<Seq<Seq<char>>> {
    if vstd::utf8::valid_utf8(value) {
        Some(list_items(vstd::utf8::decode_utf8(value)))
    } else {
        None
    }
}

/// The items of all the values of a header. `None` where one of them is not
/// UTF-8.
pub open spec fn header_items(values: Seq<Seq<u8>>) -> Option<Seq<Seq<char>>>
    decreases values.len(),
{
    if values.len() == 0 {
        Some(Seq::empty())
    } else {
        match (value_items(values[0]), header_items(values.skip(1))) {
            (Some(first), Some(rest)) => Some(first + rest),
            _ => None,
        }
    }
}

/// The texts of a vector of strings.
pub open spec fn texts_view(v: Seq<String>) -> Seq<Seq<char>> {
    v.map_values(|s: String| s@)
}

/// The texts of a vector of strings, if there is one.
pub open spec fn option_texts(v: Option<Vec<String>>) -> Option<Seq<Seq<char>>> {
    match v {
        Some(v) => Some(texts_view(v@)),
        None => None,
    }
}

/// The encodings that the values of a header list, by
/// `hyperx::header::ContentEncoding::parse_header`. They are given by the texts
/// that `Display` writes of them, which are those of the items as they are.
#[verifier::external_body]
fn content_codings(values: &Vec<Vec<u8>>) -> (r: Option<Vec<String>>)
    ensures
        option_texts(r) == header_items(strings_view(values@)),
{
    let list = ContentEncoding::parse_header(&Raw::from(values.clone()));
    list.ok().map(|l| l.iter().map(|e| e.to_string()).collect())
}

/// The encodings that a header value lists, by
/// `hyperx::header::TransferEncoding::parse_header`. They are given by the
/// texts that `Display` writes of them, which are those of the items as they
/// are.
#[verifier::external_body]
fn transfer_codings(value: &[u8]) -> (r: Option<Vec<String>>)
    ensures
        option_texts(r) == value_items(value@),
{
    let list = TransferEncoding::parse_header(&Raw::from(value));
    list.ok().map(|l| l.iter().map(|e| e.to_string()).collect())
}

/// The compression that an item of a list stands for.
pub open spec fn compression_named(s: Seq<char>) -> Option<Encoding> {
    if s == "deflate"@ {
        Some(Encoding::Deflate)
    } else if s == "gzip"@ || s == "x-gzip"@ {
        Some(Encoding::Gzip)
    } else if s == "br"@ {
        Some(Encoding::Brotli)
    } else if s == "compress"@ {
        Some(Encoding::Compress)
    } else {
        None
    }
}

/// The last compression in a list: encodings are listed in the order in which
/// they were applied.
pub open spec fn last_compression(items: Seq<Seq<char>>) -> Option<Encoding>
    decreases items.len(),
{
    if items.len() == 0 {
        None
    } else {
        match compression_named(items.last()) {
            Some(e) => Some(e),
            None => last_compression(items.drop_last()),
        }
    }
}

/// The items of a list, or none where it could not be parsed.
pub open spec fn items_or_none(items: Option<Seq<Seq<char>>>) -> Seq<Seq<char>> {
    match items {
        Some(items) => items,
        None => Seq::empty(),
    }
}

/// The compression in the lists of transfer and content encodings.
pub open spec fn compression_in(
    transfer: Option<Seq<Seq<char>>>,
    content: Option<Seq<Seq<char>>>,
) -> Option<Encoding> {
    match last_compression(items_or_none(transfer)) {
        Some(e) => Some(e),
        None => last_compression(items_or_none(content)),
    }
}

/// The relevant encodings in the lists of transfer and content encodings:
/// chunked, if listed, and then the compression, if there is one.
pub open spec fn relevant_encodings(
    transfer: Option<Seq<Seq<char>>>,
    content: Option<Seq<Seq<char>>>,
) -> Seq<Encoding> {
    let chunked = items_or_none(transfer).contains("chunked"@) || items_or_none(content).contains(
        "chunked"@,
    );
    (if chunked {
        seq![Encoding::Chunked]
    } else {
        Seq::empty()
    }) + (match compression_in(transfer, content) {
        Some(e) => seq![e],
        None => Seq::empty(),
    })
}

/// A compression is neither the chunked encoding nor none at all.
proof fn lemma_last_compression(items: Seq<Seq<char>>)
    ensures
        last_compression(items) != Some(Encoding::Chunked),
        last_compression(items) != Some(Encoding::Identity),
    decreases items.len(),
{
    if items.len() > 0 {
        lemma_last_compression(items.drop_last());
    }
}

/// Of the relevant encodings there are at most two. The chunked encoding is
/// first, a compression is last, and there is no identity encoding.
pub proof fn law_relevant_encodings(
    transfer: Option<Seq<Seq<char>>>,
    content: Option<Seq<Seq<char>>>,
    i: int,
)
    requires
        0 <= i < relevant_encodings(transfer, content).len(),
    ensures
        relevant_encodings(transfer, content).len() <= 2,
        relevant_encodings(transfer, content)[i] is Chunked ==> i == 0,
        !(relevant_encodings(transfer, content)[i] is Chunked) ==> i == relevant_encodings(
            transfer,
            content,
        ).len() - 1,
        !(relevant_encodings(transfer, content)[i] is Identity),
{
    lemma_last_compression(items_or_none(transfer));
    lemma_last_compression(items_or_none(content));
}

/// The compression that an item of a list stands for.
fn compression_of(item: &str) -> (r: Option<Encoding>)
    ensures
        r == compression_named(item@),
{
    if str_eq(item, "deflate") {
        Some(Encoding::Deflate)
    } else if str_eq(item, "gzip") || str_eq(item, "x-gzip") {
        Some(Encoding::Gzip)
    } else if str_eq(item, "br") {
        Some(Encoding::Brotli)
    } else if str_eq(item, "compress") {
        Some(Encoding::Compress)
    } else {
        None
    }
}

/// The last compression in a list.
fn find_compression(items: &Option<Vec<String>>) -> (r: Option<Encoding>)
    ensures
        r == last_compression(items_or_none(option_texts(*items))),
{
    match items {
        None => None,
        Some(v) => {
            let ghost all = texts_view(v@);
            let mut i: usize = v.len();
            assert(all.take(i as int) =~= all);
            while i > 0
                invariant
                    i <= v@.len(),
                    all == texts_view(v@),
                    all == items_or_none(option_texts(*items)),
                    last_compression(all) == last_compression(all.take(i as int)),
                decreases i,
            {
                i -= 1;
                assert(all.take(i + 1).drop_last() =~= all.take(i as int));
                let e = compression_of(v[i].as_str());
                if e.is_some() {
                    return e;
                }
            }
            None
        },
    }
}

/// Whether a list has an item for the chunked encoding.
fn has_chunked(items: &Option<Vec<String>>) -> (b: bool)
    ensures
        b == items_or_none(option_texts(*items)).contains("chunked"@),
{
    match items {
        None => false,
        Some(v) => {
            let ghost all = texts_view(v@);
            let mut i: usize = 0;
            while i < v.len()
                invariant
                    i <= v@.len(),
                    all == texts_view(v@),
                    all == items_or_none(option_texts(*items)),
                    forall|k: int| 0 <= k < i ==> #[trigger] all[k] != "chunked"@,
                decreases v@.len() - i,
            {
                if str_eq(v[i].as_str(), "chunked") {
                    assert(all[i as int] == "chunked"@);
                    return true;
                }
                i += 1;
            }
            false
        },
    }
}

/// The relevant encodings in the lists of transfer and content encodings, each
/// of which is `None` if it could not be parsed. The chunked encoding comes
/// first, if it is listed, and at most one compression last.
pub fn encodings_listed(transfer: &Option<Vec<String>>, content: &Option<Vec<String>>) -> (r: Vec<Encoding>)
    ensures
        r@ == relevant_encodings(option_texts(*transfer), option_texts(*content)),
{
    let mut r: Vec<Encoding> = Vec::with_capacity(2);
    if has_chunked(transfer) || has_chunked(content) {
        r.push(Encoding::Chunked);
    }
    let compression = match find_compression(transfer) {
        Some(e) => Some(e),
        None => find_compression(content),
    };
    if let Some(e) = compression {
        r.push(e);
    }
    assert(r@ =~= relevant_encodings(option_texts(*transfer), option_texts(*content)));
    r
}

/// The items of all the values of a header of some headers.
pub open spec fn items_of(headers: HeaderMap<HeaderValue>, name: Seq<char>) -> Option<Seq<Seq<char>>> {
    header_items(values_of(header_entries(headers), ascii_bytes(name)))
}

/// The relevant encodings in some headers.
pub open spec fn encodings_of(headers: HeaderMap<HeaderValue>) -> Seq<Encoding> {
    relevant_encodings(items_of(headers, "transfer-encoding"@), items_of(headers, "content-encoding"@))
}

/// The relevant encodings from the headers Transfer-Encoding and
/// Content-Encoding. The chunked encoding comes first, if it is found. At most
/// one compression comes last.
pub fn find_encodings(headers: &HeaderMap<HeaderValue>) -> (r: Vec<Encoding>)
    ensures
        r@ == encodings_of(*headers),
{
    proof {
        reveal_strlit("transfer-encoding");
        reveal_strlit("content-encoding");
    }
    let transfer = content_codings(&get_all_headers(headers, &header_name("transfer-encoding")));
    let content = content_codings(&get_all_headers(headers, &header_name("content-encoding")));
    encodings_listed(&transfer, &content)
}

/// Whether the value of a header lists the chunked encoding.
pub open spec fn lists_chunked(value: Seq<u8>) -> bool {
    items_or_none(value_items(value)).contains("chunked"@)
}

/// Whether the header Transfer-Encoding lists the chunked encoding in one of its
/// values.
pub open spec fn is_chunked(headers: HeaderMap<HeaderValue>) -> bool {
    exists|i: int|
        0 <= i < values_of(header_entries(headers), ascii_bytes("transfer-encoding"@)).len()
            && #[trigger] lists_chunked(
            values_of(header_entries(headers), ascii_bytes("transfer-encoding"@))[i],
        )
}

/// Whether the chunked Transfer-Encoding can be found in the headers.
pub fn find_chunked(headers: &HeaderMap<HeaderValue>) -> (b: bool)
    ensures
        b == is_chunked(*headers),
{
    proof {
        reveal_strlit("transfer-encoding");
    }
    let values = get_all_headers(headers, &header_name("transfer-encoding"));
    let ghost all = values_of(header_entries(*headers), ascii_bytes("transfer-encoding"@));
    let mut i: usize = 0;
    while i < values.len()
        invariant
            i <= values@.len(),
            all == strings_view(values@),
            all == values_of(header_entries(*headers), ascii_bytes("transfer-encoding"@)),
            forall|k: int| 0 <= k < i ==> !#[trigger] lists_chunked(all[k]),
        decreases values@.len() - i,
    {
        let items = transfer_codings(values[i].as_slice());
        assert(values@[i as int]@ == all[i as int]);
        if has_chunked(&items) {
            assert(lists_chunked(all[i as int]));
            return true;
        }
        i += 1;
    }
    false
}

/// What an encoding makes of some bytes: `None` where it cannot be removed, and
/// `Some(None)` where the bytes are not a stream of it.
pub open spec fn decompressed(compression: Encoding, data: Seq<u8>) -> Option<Option<Seq<u8>>> {
    match compression {
        Encoding::Gzip => Some(gunzipped(data)),
        Encoding::Deflate => Some(inflated(data)),
        Encoding::Brotli => Some(unbrotlied(data)),
        _ => None,
    }
}

/// What an encoding makes of some bytes, up to a limit: `None` where it cannot be
/// removed, and `Some(None)` where the decoder fails.
pub open spec fn decompressed_head(compression: Encoding, data: Seq<u8>, limit: u64) -> Option<Option<Seq<u8>>> {
    match compression {
        Encoding::Gzip => Some(gunzip_head(data, limit)),
        Encoding::Deflate => Some(inflate_head(data, limit)),
        Encoding::Brotli => Some(unbrotli_head(data, limit)),
        _ => None,
    }
}

/// By how much a compressed body is expected to grow.
pub open spec fn growth(compression: Encoding, tune: Tunables) -> u16 {
    match compression {
        Encoding::Gzip => tune.size_estimate_gzip,
        Encoding::Deflate => tune.size_estimate_deflate,
        _ => tune.size_estimate_brotli,
    }
}

/// The expected length of a body.
pub open spec fn expected_len(len: int, growth: u16) -> u64 {
    if len * growth <= u64::MAX {
        (len * growth) as u64
    } else {
        u64::MAX
    }
}

/// Whether an outcome is that of deciding where what was decompressed is to be
/// kept.
pub open spec fn is_kept(
    out: Seq<u8>,
    data: Seq<u8>,
    compression: Encoding,
    tune: Tunables,
    r: Result<BodyPlan, FutioError>,
) -> bool {
    is_planned(
        out,
        expected_len(data.len() as int, growth(compression, tune)),
        tune,
        match r {
            Ok(p) => Ok(p),
            Err(e) => Err(e->Body_0),
        },
    ) && (r is Err ==> r->Err_0 is Body)
}

/// The outcome of removing a compression from some bytes. Where they have a fault
/// this is a failure to decode them, unless enough comes before the fault for the
/// body to be too long. Bytes after the end of a stream are left alone.
pub open spec fn is_decompressed(
    data: Seq<u8>,
    compression: Encoding,
    tune: Tunables,
    r: Result<BodyPlan, FutioError>,
) -> bool {
    &&& match decompressed_head(compression, data, most_read(tune)) {
        None => r == Err::<BodyPlan, FutioError>(FutioError::UnsupportedEncoding(compression)),
        Some(None) => r matches Err(FutioError::Body(BodyError::Io(IoError::Outside(_)))),
        Some(Some(out)) => is_kept(out, data, compression, tune, r),
    }
    &&& match decompressed(compression, data) {
        None => true,
        Some(None) => r is Err,
        Some(Some(all)) => is_kept(all, data, compression, tune, r),
    }
}

/// Remove a compression from the bytes of a body, and decide where the outcome
/// is to be kept.
pub fn decompress(data: &[u8], compression: Encoding, tune: &Tunables) -> (r: Result<BodyPlan, FutioError>)
    requires
        tune.buffer_size_ram > 0,
        tune.buffer_size_fs > 0,
    ensures
        is_decompressed(data@, compression, *tune, r),
{
    let limit: u64 = enough(tune);
    let (outcome, growth) = match compression {
        Encoding::Gzip => (gunzip(data, limit), tune.size_estimate_gzip()),
        Encoding::Deflate => (inflate(data, limit), tune.size_estimate_deflate()),
        Encoding::Brotli => (unbrotli(data, limit), tune.size_estimate_brotli()),
        _ => {
            return Err(FutioError::UnsupportedEncoding(compression));
        },
    };
    let estimate: u64 = match (data.len() as u64).checked_mul(growth as u64) {
        Some(n) => n,
        None => u64::MAX,
    };
    match outcome {
        Ok(out) => {
            let ghost got = out@;
            let plan = plan_body(from_vec(out), estimate, tune);
            proof {
                if let Some(Some(all)) = decompressed(compression, data@) {
                    if all.len() <= limit {
                        assert(all.take(all.len() as int) =~= all);
                    } else {
                        law_enough_decides(all, limit as int, estimate, *tune, plan);
                    }
                }
            }
            match plan {
                Ok(plan) => Ok(plan),
                Err(e) => Err(FutioError::Body(e)),
            }
        },
        Err(e) => Err(FutioError::Body(BodyError::Io(e))),
    }
}

/// A decoded response body on its way to a file.
pub struct DecodedBody {
    /// The bytes that are to be written to a new file.
    pub back: WriteBack,
    /// The encodings that were removed.
    pub encodings: Vec<Encoding>,
}

/// What was done to decode a response body.
pub enum DecodeStep {
    /// The dialog was updated. Holds whether the body was decoded.
    Done(bool),
    /// The decoded body is too long to be kept in RAM. The dialog is unchanged,
    /// until [`decoded_to`] is called with an image of the new file.
    Write(DecodedBody),
}

/// Decode the response body of a dialog, whose bytes are `data`, if it has a
/// supported compression, and update the dialog accordingly. If there is none,
/// this is recorded, and the body is kept. It is up to the caller to read the
/// bytes of a body that is in a file or a memory map.
pub fn decode_res_body<F, M>(dialog: &mut Dialog<BodyImage<F, M>>, data: &[u8], tune: &Tunables) -> (r: Result<
    DecodeStep,
    FutioError,
>)
    requires
        old(dialog).epi.res_body.in_ram() ==> data@ == old(dialog).epi.res_body@,
        tune.buffer_size_ram > 0,
        tune.buffer_size_fs > 0,
    ensures
        ({
            let headers = old(dialog).epi.res_headers;
            let encodings = encodings_of(headers).push(Encoding::Identity);
            match compression_in(
                items_of(headers, "transfer-encoding"@),
                items_of(headers, "content-encoding"@),
            ) {
                None => {
                    &&& r == Ok::<DecodeStep, FutioError>(DecodeStep::Done(false))
                    &&& final(dialog).pro == old(dialog).pro
                    &&& final(dialog).epi.res_decoded@ == encodings
                    &&& final(dialog).epi == (Epilog {
                        res_decoded: final(dialog).epi.res_decoded,
                        ..old(dialog).epi
                    })
                },
                Some(compression) => exists|plan: Result<BodyPlan, FutioError>|
                    {
                        &&& #[trigger] is_decompressed(data@, compression, *tune, plan)
                        &&& match plan {
                            Ok(BodyPlan::Ram(bufs)) => {
                                &&& r == Ok::<DecodeStep, FutioError>(DecodeStep::Done(true))
                                &&& final(dialog).pro == old(dialog).pro
                                &&& final(dialog).epi.res_body.in_ram()
                                &&& final(dialog).epi.res_body@ == bufs@
                                &&& final(dialog).epi.res_decoded@ == encodings
                                &&& final(dialog).epi == (Epilog {
                                    res_decoded: final(dialog).epi.res_decoded,
                                    res_body: final(dialog).epi.res_body,
                                    ..old(dialog).epi
                                })
                            },
                            Ok(BodyPlan::Fs(bufs)) => {
                                &&& r is Ok
                                &&& r->Ok_0 is Write
                                &&& r->Ok_0->Write_0.back@ == bufs@
                                &&& r->Ok_0->Write_0.encodings@ == encodings
                                &&& *final(dialog) == *old(dialog)
                            },
                            Ok(BodyPlan::Slice { .. }) => false,
                            Err(e) => r == Err::<DecodeStep, FutioError>(e) && *final(dialog) == *old(
                                dialog,
                            ),
                        }
                    },
            }
        }),
{
    let mut encodings = find_encodings(&dialog.epi.res_headers);
    let ghost found = encodings@;
    let compression = if encodings.len() > 0 {
        match encodings[encodings.len() - 1] {
            Encoding::Chunked => None,
            e => Some(e),
        }
    } else {
        None
    };
    proof {
        let h = dialog.epi.res_headers;
        lemma_last_compression(items_or_none(items_of(h, "transfer-encoding"@)));
        lemma_last_compression(items_or_none(items_of(h, "content-encoding"@)));
    }
    let plan = match compression {
        None => {
            encodings.push(Encoding::Identity);
            dialog.set_res_decoded(encodings);
            return Ok(DecodeStep::Done(false));
        },
        Some(e) => {
            decompress(data, e, tune)
        },
    };
    match plan {
        Err(e) => {
            assert(is_decompressed(data@, compression->0, *tune, Err(e)));
            Err(e)
        },
        Ok(plan) => {
            assert(is_decompressed(data@, compression->0, *tune, Ok(plan)));
            encodings.push(Encoding::Identity);
            match plan {
                BodyPlan::Fs(bufs) => Ok(
                    DecodeStep::Write(DecodedBody { back: WriteBack::new(bufs), encodings }),
                ),
                BodyPlan::Ram(bufs) => {
                    dialog.set_res_body_decoded(BodyImage::from_buffers(bufs), encodings);
                    Ok(DecodeStep::Done(true))
                },
                BodyPlan::Slice { .. } => Ok(DecodeStep::Done(false)),
            }
        },
    }
}

/// Update a dialog with the image of a file to which the decoded response body
/// was written.
pub fn decoded_to<F, M>(dialog: &mut Dialog<BodyImage<F, M>>, encodings: Vec<Encoding>, image: BodyImage<F, M>)
    ensures
        final(dialog).pro == old(dialog).pro,
        final(dialog).epi == (Epilog { res_body: image, res_decoded: encodings, ..old(dialog).epi }),
{
    dialog.set_res_body_decoded(image, encodings);
}


/// What each item of a list stands for, as a compression: only these five names
/// stand for one.
pub proof fn law_compression_names(item: Seq<char>)
    ensures
        item == "gzip"@ || item == "x-gzip"@ <==> compression_named(item) == Some(Encoding::Gzip),
        item == "deflate"@ <==> compression_named(item) == Some(Encoding::Deflate),
        item == "br"@ <==> compression_named(item) == Some(Encoding::Brotli),
        item == "compress"@ <==> compression_named(item) == Some(Encoding::Compress),
        compression_named(item) is None <==> item != "gzip"@ && item != "x-gzip"@ && item != "deflate"@
            && item != "br"@ && item != "compress"@,
{
    reveal_strlit("deflate");
    reveal_strlit("gzip");
    reveal_strlit("x-gzip");
    reveal_strlit("br");
    reveal_strlit("compress");
    assert("deflate"@.len() == 7 && "gzip"@.len() == 4 && "x-gzip"@.len() == 6);
    assert("br"@.len() == 2 && "compress"@.len() == 8);
}

/// The last compression is found at the last item that stands for one.
proof fn lemma_last_compression_at(items: Seq<Seq<char>>, i: int)
    requires
        0 <= i < items.len(),
        compression_named(items[i]) is Some,
        forall|j: int| i < j < items.len() ==> compression_named(#[trigger] items[j]) is None,
    ensures
        last_compression(items) == compression_named(items[i]),
    decreases items.len(),
{
    if i < items.len() - 1 {
        assert(compression_named(items[items.len() - 1]) is None);
        let t = items.drop_last();
        assert forall|j: int| i < j < t.len() implies compression_named(#[trigger] t[j]) is None by {
            assert(t[j] == items[j]);
        }
        lemma_last_compression_at(t, i);
    }
}

/// Without an item that stands for a compression there is none.
proof fn lemma_no_compression(items: Seq<Seq<char>>)
    requires
        forall|j: int| 0 <= j < items.len() ==> compression_named(#[trigger] items[j]) is None,
    ensures
        last_compression(items) is None,
    decreases items.len(),
{
    if items.len() > 0 {
        let t = items.drop_last();
        assert forall|j: int| 0 <= j < t.len() implies compression_named(#[trigger] t[j]) is None by {
            assert(t[j] == items[j]);
        }
        assert(compression_named(items[items.len() - 1]) is None);
        lemma_no_compression(t);
    }
}

/// The encodings of a response are those that its headers list. Chunked is among
/// them exactly if it is listed. Of the compressions it is the one that was applied
/// last: the last one that Transfer-Encoding lists, or if it lists none the last
/// one that Content-Encoding lists.
pub proof fn law_listed_encodings(
    transfer: Vec<String>,
    content: Vec<String>,
    r: Vec<Encoding>,
    i: int,
    e: Encoding,
)
    requires
        call_ensures(encodings_listed, (&Some(transfer), &Some(content)), r),
    ensures
        r@.contains(Encoding::Chunked) <==> (exists|k: int|
            0 <= k < transfer@.len() && (#[trigger] transfer@[k])@ == "chunked"@) || (exists|k: int|
            0 <= k < content@.len() && (#[trigger] content@[k])@ == "chunked"@),
        0 <= i < transfer@.len() && compression_named(transfer@[i]@) == Some(e) && (forall|j: int|
            i < j < transfer@.len() ==> compression_named((#[trigger] transfer@[j])@) is None) ==> r@.len() > 0
            && r@.last() == e,
        (forall|j: int| 0 <= j < transfer@.len()
            ==> compression_named((#[trigger] transfer@[j])@) is None) && 0 <= i
            < content@.len() && compression_named(content@[i]@) == Some(e) && (forall|j: int|
            i < j < content@.len() ==> compression_named((#[trigger] content@[j])@) is None) ==> r@.len() > 0
            && r@.last() == e,
        (forall|j: int| 0 <= j < transfer@.len() ==> compression_named((#[trigger] transfer@[j])@) is None) && (
        forall|j: int| 0 <= j < content@.len() ==> compression_named((#[trigger] content@[j])@) is None)
            ==> forall|k: int| 0 <= k < r@.len() ==> #[trigger] r@[k] is Chunked,
{
    let t = texts_view(transfer@);
    let c = texts_view(content@);
    assert(r@ == relevant_encodings(Some(t), Some(c)));
    lemma_last_compression(t);
    lemma_last_compression(c);
    assert(t.contains("chunked"@) <==> exists|k: int|
        0 <= k < transfer@.len() && (#[trigger] transfer@[k])@ == "chunked"@) by {
        if t.contains("chunked"@) {
            let k = choose|k: int| 0 <= k < t.len() && t[k] == "chunked"@;
            assert(transfer@[k]@ == "chunked"@);
        }
        if exists|k: int| 0 <= k < transfer@.len() && (#[trigger] transfer@[k])@ == "chunked"@ {
            let k = choose|k: int| 0 <= k < transfer@.len() && (#[trigger] transfer@[k])@ == "chunked"@;
            assert(t[k] == "chunked"@);
        }
    }
    assert(c.contains("chunked"@) <==> exists|k: int|
        0 <= k < content@.len() && (#[trigger] content@[k])@ == "chunked"@) by {
        if c.contains("chunked"@) {
            let k = choose|k: int| 0 <= k < c.len() && c[k] == "chunked"@;
            assert(content@[k]@ == "chunked"@);
        }
        if exists|k: int| 0 <= k < content@.len() && (#[trigger] content@[k])@ == "chunked"@ {
            let k = choose|k: int| 0 <= k < content@.len() && (#[trigger] content@[k])@ == "chunked"@;
            assert(c[k] == "chunked"@);
        }
    }
    let chunked = t.contains("chunked"@) || c.contains("chunked"@);
    assert(chunked ==> r@[0] == Encoding::Chunked);
    if r@.contains(Encoding::Chunked) {
        let k = choose|k: int| 0 <= k < r@.len() && r@[k] == Encoding::Chunked;
        assert(chunked);
    }
    if 0 <= i < transfer@.len() && compression_named(transfer@[i]@) == Some(e) && (forall|j: int|
        i < j < transfer@.len() ==> compression_named((#[trigger] transfer@[j])@) is None) {
        assert forall|j: int| i < j < t.len() implies compression_named(#[trigger] t[j]) is None by {
            assert(t[j] == transfer@[j]@);
        }
        lemma_last_compression_at(t, i);
    }
    if forall|j: int| 0 <= j < transfer@.len() ==> compression_named((#[trigger] transfer@[j])@) is None {
        assert forall|j: int| 0 <= j < t.len() implies compression_named(#[trigger] t[j]) is None by {
            assert(t[j] == transfer@[j]@);
        }
        lemma_no_compression(t);
        if 0 <= i < content@.len() && compression_named(content@[i]@) == Some(e) && (forall|j: int|
            i < j < content@.len() ==> compression_named((#[trigger] content@[j])@) is None) {
            assert forall|j: int| i < j < c.len() implies compression_named(#[trigger] c[j]) is None by {
                assert(c[j] == content@[j]@);
            }
            lemma_last_compression_at(c, i);
        }
        if forall|j: int| 0 <= j < content@.len() ==> compression_named((#[trigger] content@[j])@) is None {
            assert forall|j: int| 0 <= j < c.len() implies compression_named(#[trigger] c[j]) is None by {
                assert(c[j] == content@[j]@);
            }
            lemma_no_compression(c);
        }
    }
}

/// Removing a compression gives all that the decoder of it makes of the bytes, up
/// to their end, and nothing else. That succeeds exactly if the decoder does and
/// the outcome is within the maximum length of a body. The estimate of the length
/// decides no more than where the body is kept, which is never in RAM beyond the
/// maximum for that. No other encoding can be removed.
pub proof fn law_decompressed_is_complete(
    data: &[u8],
    compression: Encoding,
    tune: &Tunables,
    r: Result<BodyPlan, FutioError>,
)
    requires
        call_ensures(decompress, (data, compression, tune), r),
    ensures
        compression is Gzip || compression is Deflate || compression is Brotli ==> {
            let all = match compression {
                Encoding::Gzip => gunzip_head(data@, u64::MAX),
                Encoding::Deflate => inflate_head(data@, u64::MAX),
                _ => unbrotli_head(data@, u64::MAX),
            };
            &&& r is Ok <==> all is Some && all->0.len() <= tune.max_body
            &&& r is Ok ==> match r->Ok_0 {
                BodyPlan::Ram(b) => b@ == all->0 && b@.len() <= tune.max_body_ram,
                BodyPlan::Fs(b) => b@ == all->0,
                BodyPlan::Slice { .. } => false,
            }
            &&& all is Some && all->0.len() > tune.max_body ==> (r matches Err(
                FutioError::Body(BodyError::BodyTooLong(l)),
            ) && tune.max_body < l <= all->0.len())
        },
        compression is Chunked || compression is Compress || compression is Identity ==> r == Err::<
            BodyPlan,
            FutioError,
        >(FutioError::UnsupportedEncoding(compression)),
        r is Ok && r->Ok_0 is Fs ==> {
            ||| r->Ok_0->Fs_0@.len() > tune.max_body_ram
            ||| compression is Gzip && data@.len() * tune.size_estimate_gzip > tune.max_body_ram
            ||| compression is Deflate && data@.len() * tune.size_estimate_deflate > tune.max_body_ram
            ||| compression is Brotli && data@.len() * tune.size_estimate_brotli > tune.max_body_ram
        },
{
}

/// What is compressed with Brotli or gzip, and is within the maximum length of a
/// body, is decompressed to what it was.
pub proof fn law_compressed_body_comes_back(
    level: u32,
    body: &[u8],
    packed: &[u8],
    compression: Encoding,
    c: Result<Vec<u8>, IoError>,
    tune: &Tunables,
    r: Result<BodyPlan, FutioError>,
)
    requires
        compression is Brotli ==> call_ensures(brotli, (level, body), c),
        compression is Gzip ==> call_ensures(gzip, (level, body), c),
        compression is Brotli || compression is Gzip,
        packed@ == c->Ok_0@,
        body@.len() <= tune.max_body,
        call_ensures(decompress, (packed, compression, tune), r),
    ensures
        c is Ok,
        r is Ok,
        match r->Ok_0 {
            BodyPlan::Ram(b) => b@ == body@,
            BodyPlan::Fs(b) => b@ == body@,
            BodyPlan::Slice { .. } => false,
        },
{
    law_decompressed_is_complete(packed, compression, tune, r);
}

/// Decoding the body of a response changes nothing of the dialog but that body and
/// the encodings that were removed for it, and those only where it succeeds. The
/// body then is all that the decoder makes of it, and the encodings are those that
/// were found in the headers, and identity last. Without a compression the body is
/// kept.
pub proof fn law_decoded_response<F, M>(
    dialog: &mut Dialog<BodyImage<F, M>>,
    data: &[u8],
    tune: &Tunables,
    found: Vec<Encoding>,
    r: Result<DecodeStep, FutioError>,
)
    requires
        call_ensures(find_encodings, (&old(dialog).epi.res_headers,), found),
        call_ensures(decode_res_body::<F, M>, (dialog, data, tune), r),
    ensures
        final(dialog).pro == old(dialog).pro,
        final(dialog).epi.res_headers == old(dialog).epi.res_headers,
        final(dialog).epi.status == old(dialog).epi.status,
        final(dialog).epi.version == old(dialog).epi.version,
        r is Err ==> *final(dialog) == *old(dialog),
        ({
            let plain = found@.len() == 0 || found@.last() is Chunked;
            let all = match found@.last() {
                Encoding::Gzip => gunzip_head(data@, u64::MAX),
                Encoding::Deflate => inflate_head(data@, u64::MAX),
                Encoding::Brotli => unbrotli_head(data@, u64::MAX),
                _ => None,
            };
            &&& plain ==> {
                &&& r == Ok::<DecodeStep, FutioError>(DecodeStep::Done(false))
                &&& final(dialog).epi.res_body == old(dialog).epi.res_body
                &&& final(dialog).epi.res_decoded@ == found@.push(Encoding::Identity)
            }
            &&& !plain ==> {
                &&& r is Ok <==> all is Some && all->0.len() <= tune.max_body
                &&& r is Ok ==> match r->Ok_0 {
                    DecodeStep::Done(b) => {
                        &&& b
                        &&& final(dialog).epi.res_body@ == all->0
                        &&& final(dialog).epi.res_decoded@ == found@.push(Encoding::Identity)
                    },
                    DecodeStep::Write(d) => {
                        &&& d.back@ == all->0
                        &&& d.encodings@ == found@.push(Encoding::Identity)
                        &&& *final(dialog) == *old(dialog)
                    },
                }
            }
        }),
{
    let h = old(dialog).epi.res_headers;
    let t = items_of(h, "transfer-encoding"@);
    let c = items_of(h, "content-encoding"@);
    lemma_last_compression(items_or_none(t));
    lemma_last_compression(items_or_none(c));
    assert(found@ == relevant_encodings(t, c));
    let none = compression_in(t, c) is None;
    assert(none <==> (found@.len() == 0 || found@.last() is Chunked));
    assert(!none ==> found@.last() == compression_in(t, c)->0);
}

/// The encodings of a response are those that the two headers for them list, and
/// no other header is looked at.
pub proof fn law_encodings_of_headers(
    headers: &HeaderMap<HeaderValue>,
    transfer: &Option<Vec<String>>,
    content: &Option<Vec<String>>,
    listed: Vec<Encoding>,
    r: Vec<Encoding>,
)
    requires
        option_texts(*transfer) == header_items(
            values_of(header_entries(*headers), ascii_bytes("transfer-encoding"@)),
        ),
        option_texts(*content) == header_items(
            values_of(header_entries(*headers), ascii_bytes("content-encoding"@)),
        ),
        call_ensures(encodings_listed, (transfer, content), listed),
        call_ensures(find_encodings, (headers,), r),
    ensures
        r@ == listed@,
{
}

/// A response is chunked exactly if a value of its Transfer-Encoding lists that.
pub proof fn law_chunked_is_found(headers: &HeaderMap<HeaderValue>, values: Seq<Seq<u8>>, b: bool)
    requires
        values == values_of(header_entries(*headers), ascii_bytes("transfer-encoding"@)),
        call_ensures(find_chunked, (headers,), b),
    ensures
        b <==> exists|i: int, k: int|
            0 <= i < values.len() && value_items(values[i]) is Some && 0 <= k < value_items(values[i])->0.len()
                && #[trigger] value_items(values[i])->0[k] == "chunked"@,
{
    if b {
        let i = choose|i: int| 0 <= i < values.len() && #[trigger] lists_chunked(values[i]);
        let items = items_or_none(value_items(values[i]));
        let k = choose|k: int| 0 <= k < items.len() && items[k] == "chunked"@;
        assert(value_items(values[i])->0[k] == "chunked"@);
    }
    if exists|i: int, k: int|
        0 <= i < values.len() && value_items(values[i]) is Some && 0 <= k < value_items(values[i])->0.len()
            && #[trigger] value_items(values[i])->0[k] == "chunked"@ {
        let (i, k) = choose|i: int, k: int|
            0 <= i < values.len() && value_items(values[i]) is Some && 0 <= k < value_items(values[i])->0.len()
                && #[trigger] value_items(values[i])->0[k] == "chunked"@;
        assert(lists_chunked(values[i]));
    }
}

/// A list is separated at its commas: what is before and after one are lists of
/// their own. White space around an item is not part of it, and without anything
/// else there is no item.
pub proof fn law_list_items(a: Seq<char>, b: Seq<char>)
    ensures
        list_items(a + seq![','] + b) == list_items(a) + list_items(b),
        !a.contains(',') ==> list_items(a) == (if trimmed(a).len() == 0 {
            Seq::<Seq<char>>::empty()
        } else {
            seq![trimmed(a)]
        }),
    decreases a.len(),
{
    lemma_first_comma_is(a);
    let s = a + seq![','] + b;
    let i = first_comma(a);
    lemma_first_comma_is(s);
    if i < a.len() {
        assert(s[i] == ',');
        if first_comma(s) < i {
            assert(a[first_comma(s)] == s[first_comma(s)]);
        }
        assert(first_comma(s) == i) by {
            if first_comma(s) > i {
                assert(s[i] != ',');
            }
        }
        assert(s.take(i) =~= a.take(i));
        let rest = a.skip(i + 1);
        assert(s.skip(i + 1) =~= rest + seq![','] + b);
        law_list_items(rest, b);
        assert(a.contains(',')) by {
            assert(a[i] == ',');
        }
        let item = trimmed(a.take(i));
        let first = if item.len() == 0 {
            Seq::<Seq<char>>::empty()
        } else {
            seq![item]
        };
        assert(list_items(s) == first + list_items(rest + seq![','] + b));
        assert(list_items(a) == first + list_items(rest));
        assert(first + (list_items(rest) + list_items(b)) =~= (first + list_items(rest)) + list_items(b));
    } else {
        assert(s[a.len() as int] == ',');
        assert(first_comma(s) == a.len()) by {
            if first_comma(s) < a.len() {
                assert(s[first_comma(s)] == ',');
                assert(a[first_comma(s)] == ',');
            }
            if first_comma(s) > a.len() {
                assert(s[a.len() as int] != ',');
            }
        }
        assert(s.take(a.len() as int) =~= a);
        assert(a.take(i) =~= a);
        assert(s.skip(a.len() as int + 1) =~= b);
    }
}

/// The first comma is a comma, and there is none before it.
proof fn lemma_first_comma_is(s: Seq<char>)
    ensures
        0 <= first_comma(s) <= s.len(),
        forall|j: int| 0 <= j < first_comma(s) ==> s[j] != ',',
        first_comma(s) < s.len() ==> s[first_comma(s)] == ',',
    decreases s.len(),
{
    if s.len() > 0 && s[0] != ',' {
        lemma_first_comma_is(s.skip(1));
        assert forall|j: int| 0 <= j < first_comma(s) implies s[j] != ',' by {
            if j > 0 {
                assert(s.skip(1)[j - 1] == s[j]);
            }
        }
    }
}

/// A response that was decoded to a file has the image of that file for a body, and
/// the encodings that were removed. Nothing else of the dialog changes.
pub proof fn law_decoded_to_file<F, M>(
    dialog: &mut Dialog<BodyImage<F, M>>,
    encodings: Vec<Encoding>,
    image: BodyImage<F, M>,
)
    requires
        call_ensures(decoded_to::<F, M>, (dialog, encodings, image), ()),
    ensures
        final(dialog).epi.res_body == image,
        final(dialog).epi.res_decoded == encodings,
        final(dialog).epi.res_headers == old(dialog).epi.res_headers,
        final(dialog).epi.status == old(dialog).epi.status,
        final(dialog).epi.version == old(dialog).epi.version,
        final(dialog).pro == old(dialog).pro,
{
}

/// The items of a header value are those of its text, and those of a header are the
/// items of its values, one after the other. There are none to be had where a value is
/// not text.
pub proof fn law_items_of_header(first: Seq<u8>, rest: Seq<Seq<u8>>)
    ensures
        vstd::utf8::valid_utf8(first) ==> value_items(first) == Some(list_items(vstd::utf8::decode_utf8(first))),
        !vstd::utf8::valid_utf8(first) ==> value_items(first) is None && header_items(seq![first] + rest) is None,
        header_items(Seq::<Seq<u8>>::empty()) == Some(Seq::<Seq<char>>::empty()),
        header_items(rest) is None ==> header_items(seq![first] + rest) is None,
        value_items(first) is Some && header_items(rest) is Some ==> header_items(seq![first] + rest) == Some(
            value_items(first)->0 + header_items(rest)->0,
        ),
{
    let all = seq![first] + rest;
    assert(all[0] == first);
    assert(all.skip(1) =~= rest);
}

} // verus!
