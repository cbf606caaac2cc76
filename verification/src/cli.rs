//! The decisions of the `barc` command line tool.
use vstd::prelude::*;
use vstd::string::*;

use crate::futio::fetch::{
    law_numbers, number_in, user_agent, ACCEPT_ENCODINGS, BROWSE_ACCEPT, VERSION,
};
use crate::text::{
    append_hex, append_padded, concat, decimal, hex_digits, law_decimal_digits, law_hex_digits, padded_end,
    padded_start, repeated, starts_with, str_eq,
};

verus! {

/// The value of some hexadecimal digits, or -1 if there is another character.
pub open spec fn hex_value(s: Seq<char>) -> int
    decreases s.len(),
{
    if s.len() == 0 {
        0
    } else {
        let c = s.last();
        let d = if '0' <= c <= '9' {
            c as int - '0' as int
        } else if 'a' <= c <= 'f' {
            c as int - 'a' as int + 10
        } else if 'A' <= c <= 'F' {
            c as int - 'A' as int + 10
        } else {
            -1
        };
        let v = hex_value(s.drop_last());
        if v < 0 || d < 0 {
            -1
        } else {
            v * 16 + d
        }
    }
}

/// The number that a text stands for in hexadecimal: digits, which may follow a
/// plus sign, in the range of `u64`.
pub open spec fn hex_number_in(s: Seq<char>) -> Option<u64> {
    let d = if s.len() > 0 && s[0] == '+' {
        s.skip(1)
    } else {
        s
    };
    if d.len() > 0 && 0 <= hex_value(d) <= u64::MAX {
        Some(hex_value(d) as u64)
    } else {
        None
    }
}

/// The text of the failure of `<u64 as FromStr>::from_str` on a text that is not
/// a number in its range.
pub uninterp spec fn number_fault(s: Seq<char>) -> Seq<char>;

/// The text of the failure of `<usize as FromStr>::from_str` on a text that is not
/// a number in its range.
pub uninterp spec fn size_fault(s: Seq<char>) -> Seq<char>;

/// The text of the failure of `u64::from_str_radix` on a text that is not a
/// number in hexadecimal in its range.
pub uninterp spec fn hex_fault(s: Seq<char>) -> Seq<char>;

/// Parse a decimal number by `<u64 as FromStr>::from_str`. A failure is given by
/// its text.
#[verifier::external_body]
fn parse_u64(s: &str) -> (r: Result<u64, String>)
    ensures
        is_parsed(r, number_in(s@), number_fault(s@)),
{
    s.parse::<u64>().map_err(|e| e.to_string())
}

/// Parse a decimal number by `<usize as FromStr>::from_str`. A failure is given by
/// its text.
#[verifier::external_body]
fn parse_size(s: &str) -> (r: Result<usize, String>)
    ensures
        is_parsed(r, size_in(s@), size_fault(s@)),
{
    s.parse::<usize>().map_err(|e| e.to_string())
}

/// Parse a hexadecimal number by `u64::from_str_radix`. A failure is given by its
/// text.
#[verifier::external_body]
fn parse_hex_u64(s: &str) -> (r: Result<u64, String>)
    ensures
        is_parsed(r, hex_number_in(s@), hex_fault(s@)),
{
    u64::from_str_radix(s, 16).map_err(|e| e.to_string())
}

/// Whether the outcome of parsing is a number, or if there is none the text of a
/// fault.
pub open spec fn is_parsed<N>(r: Result<N, String>, n: Option<N>, fault: Seq<char>) -> bool {
    match n {
        Some(n) => r == Ok::<N, String>(n),
        None => r is Err && r->Err_0@ == fault,
    }
}

/// What a start flag or a count flag is for.
#[derive(Clone, Copy, Debug, PartialEq, Eq, Structural)]
pub enum Flag {
    Index,
    Offset,
    Count,
}

impl Flag {
    /// The name of the flag.
    pub open spec fn spec_name(&self) -> Seq<char> {
        match *self {
            Flag::Index => "--index"@,
            Flag::Offset => "--offset"@,
            Flag::Count => "--count"@,
        }
    }

    /// The name of the flag.
    pub fn name(&self) -> (s: &'static str)
        ensures
            s@ == self.spec_name(),
    {
        match self {
            Flag::Index => "--index",
            Flag::Offset => "--offset",
            Flag::Count => "--count",
        }
    }
}

/// Why a command cannot be carried out.
#[derive(Clone, Debug, PartialEq, Eq)]
pub enum CliError {
    /// The flag can only be used with a single input file.
    SingleFile(Flag),
    /// The value of a flag is not a number, as described.
    Number(String),
    /// The input and output are the same file.
    SameFile,
}

/// What a [`CliError`] says.
pub enum CliFault {
    SingleFile(Flag),
    Number(Seq<char>),
    SameFile,
}

impl View for CliError {
    type V = CliFault;

    open spec fn view(&self) -> CliFault {
        match *self {
            CliError::SingleFile(f) => CliFault::SingleFile(f),
            CliError::Number(t) => CliFault::Number(t@),
            CliError::SameFile => CliFault::SameFile,
        }
    }
}

impl CliError {
    /// A description for the user.
    pub fn message(&self) -> (s: String)
        ensures
            s@ == (match *self {
                CliError::SingleFile(f) => f.spec_name()
                    + " flag can't be applied to more than one input file"@,
                CliError::Number(t) => t@,
                CliError::SameFile => "BARC input and output must be different files"@,
            }),
    {
        match self {
            CliError::SingleFile(f) => concat(
                f.name(),
                " flag can't be applied to more than one input file",
            ),
            CliError::Number(t) => t.as_str().to_owned(),
            CliError::SameFile => "BARC input and output must be different files".to_owned(),
        }
    }
}

/// The first record to process.
#[derive(Clone, Copy, Debug, PartialEq, Eq, Structural)]
pub enum StartPos {
    /// The record at an offset in bytes.
    Offset(u64),
    /// The record of a number, counted from 0.
    Index(usize),
}

impl Default for StartPos {
    fn default() -> (r: StartPos)
        ensures
            r == StartPos::Index(0),
    {
        StartPos::Index(0)
    }
}

/// Which records to process.
#[derive(Clone, Copy, Debug, PartialEq, Eq, Structural)]
pub struct Filter {
    /// The first one.
    pub start: StartPos,
    /// How many of them, at most.
    pub count: usize,
}

/// A number in the range of `usize`.
pub open spec fn size_in(s: Seq<char>) -> Option<usize> {
    match number_in(s) {
        Some(n) => if n <= usize::MAX {
            Some(n as usize)
        } else {
            None
        },
        None => None,
    }
}

/// The offset that a text stands for: a number in decimal, or in hexadecimal
/// after "0x".
pub open spec fn offset_in(s: Seq<char>) -> Option<u64> {
    if "0x"@.is_prefix_of(s) {
        hex_number_in(s.skip(2))
    } else {
        number_in(s)
    }
}

/// The text of the failure to parse an offset.
pub open spec fn offset_fault(s: Seq<char>) -> Seq<char> {
    if "0x"@.is_prefix_of(s) {
        hex_fault(s.skip(2))
    } else {
        number_fault(s)
    }
}

/// Parse an offset.
fn parse_offset(s: &str) -> (r: Result<u64, String>)
    ensures
        is_parsed(r, offset_in(s@), offset_fault(s@)),
{
    proof {
        reveal_strlit("0x");
    }
    if starts_with(s, "0x") {
        let n: usize = s.unicode_len();
        let digits = s.substring_char(2, n);
        assert(digits@ =~= s@.skip(2));
        parse_hex_u64(digits)
    } else {
        parse_u64(s)
    }
}

/// Which records to process, by the values of the flags, if they are given.
pub open spec fn filter_for(
    files: int,
    index: Option<Seq<char>>,
    offset: Option<Seq<char>>,
    count: Option<Seq<char>>,
) -> Result<Filter, CliFault> {
    if index is Some && files > 1 {
        Err(CliFault::SingleFile(Flag::Index))
    } else if index is Some && size_in(index->0) is None {
        Err(CliFault::Number(size_fault(index->0)))
    } else if offset is Some && files > 1 {
        Err(CliFault::SingleFile(Flag::Offset))
    } else if offset is Some && offset_in(offset->0) is None {
        Err(CliFault::Number(offset_fault(offset->0)))
    } else if count is Some && files > 1 {
        Err(CliFault::SingleFile(Flag::Count))
    } else if count is Some && size_in(count->0) is None {
        Err(CliFault::Number(size_fault(count->0)))
    } else {
        Ok(
            Filter {
                start: match (offset, index) {
                    (Some(o), _) => StartPos::Offset(offset_in(o)->0),
                    (None, Some(i)) => StartPos::Index(size_in(i)->0),
                    (None, None) => StartPos::Index(0),
                },
                count: match count {
                    Some(c) => size_in(c)->0,
                    None => usize::MAX,
                },
            },
        )
    }
}

/// The text of an argument, if it is given.
pub open spec fn argument(a: Option<&str>) -> Option<Seq<char>> {
    match a {
        Some(s) => Some(s@),
        None => None,
    }
}

/// Which records to process, by the number of input files and the values of the
/// flags, if they are given. An offset, if there is one, wins over an index.
pub fn filter_flags(files: usize, index: Option<&str>, offset: Option<&str>, count: Option<&str>) -> (r: Result<
    Filter,
    CliError,
>)
    ensures
        match filter_for(files as int, argument(index), argument(offset), argument(count)) {
            Ok(f) => r == Ok::<Filter, CliError>(f),
            Err(e) => r is Err && r->Err_0@ == e,
        },
{
    let mut filter = Filter { start: StartPos::Index(0), count: usize::MAX };
    if let Some(v) = index {
        if files > 1 {
            return Err(CliError::SingleFile(Flag::Index));
        }
        match parse_size(v) {
            Ok(n) => {
                filter.start = StartPos::Index(n);
            },
            Err(e) => {
                return Err(CliError::Number(e));
            },
        }
    }
    if let Some(v) = offset {
        if files > 1 {
            return Err(CliError::SingleFile(Flag::Offset));
        }
        match parse_offset(v) {
            Ok(n) => {
                filter.start = StartPos::Offset(n);
            },
            Err(e) => {
                return Err(CliError::Number(e));
            },
        }
    }
    if let Some(v) = count {
        if files > 1 {
            return Err(CliError::SingleFile(Flag::Count));
        }
        match parse_size(v) {
            Ok(n) => {
                filter.count = n;
            },
            Err(e) => {
                return Err(CliError::Number(e));
            },
        }
    }
    Ok(filter)
}

/// What to do with a record.
#[derive(Clone, Copy, Debug, PartialEq, Eq, Structural)]
pub enum Selected {
    /// Read on without it.
    Skip,
    /// Process it.
    Take,
    /// Stop.
    Stop,
}

/// The records of a file that are processed.
#[derive(Clone, Copy, Debug, PartialEq, Eq, Structural)]
pub struct Selection {
    filter: Filter,
    skipped: usize,
    taken: usize,
}

impl Selection {
    /// The filter.
    pub closed spec fn by(&self) -> Filter {
        self.filter
    }

    /// The number of records that are still to be skipped.
    pub closed spec fn to_skip(&self) -> int {
        match self.filter.start {
            StartPos::Index(n) => n - self.skipped,
            StartPos::Offset(_) => 0,
        }
    }

    /// The number of records that may still be processed.
    pub closed spec fn to_take(&self) -> int {
        self.filter.count - self.taken
    }

    /// No more records were skipped or processed than there are to be.
    #[verifier::type_invariant]
    spec fn inv(self) -> bool {
        &&& self.taken <= self.filter.count
        &&& self.filter.start matches StartPos::Index(n) ==> self.skipped <= n
    }

    /// Start with the first record of a file, or the one at the offset.
    pub fn new(filter: Filter) -> (r: Selection)
        ensures
            r.by() == filter,
            (r.to_skip(), r.to_take()) == selection_after(filter, 0),
    {
        Selection { filter, skipped: 0, taken: 0 }
    }

    /// The offset to start at, if there is one.
    pub fn offset(&self) -> (r: Option<u64>)
        ensures
            r == (match self.by().start {
                StartPos::Offset(o) => Some(o),
                StartPos::Index(_) => None,
            }),
    {
        match self.filter.start {
            StartPos::Offset(o) => Some(o),
            StartPos::Index(_) => None,
        }
    }

    /// What to do with the next record.
    pub fn select(&mut self) -> (r: Selected)
        ensures
            final(self).by() == old(self).by(),
            (r, final(self).to_skip(), final(self).to_take()) == selection_step(
                old(self).to_skip(),
                old(self).to_take(),
            ),
    {
        proof {
            use_type_invariant(&*self);
        }
        if let StartPos::Index(n) = self.filter.start {
            if self.skipped < n {
                self.skipped = self.skipped + 1;
                return Selected::Skip;
            }
        }
        if self.taken < self.filter.count {
            self.taken = self.taken + 1;
            Selected::Take
        } else {
            Selected::Stop
        }
    }
}

/// Whether the record of some number, counted from that at which reading
/// starts, is processed.
pub open spec fn is_selected(filter: Filter, i: int) -> bool {
    match filter.start {
        StartPos::Index(n) => n <= i < n + filter.count,
        StartPos::Offset(_) => 0 <= i < filter.count,
    }
}

/// What to do with a record, where some are still to be skipped and some may
/// still be processed, and how many these then are.
pub open spec fn selection_step(to_skip: int, to_take: int) -> (Selected, int, int) {
    if to_skip > 0 {
        (Selected::Skip, to_skip - 1, to_take)
    } else if to_take > 0 {
        (Selected::Take, to_skip, to_take - 1)
    } else {
        (Selected::Stop, to_skip, to_take)
    }
}

/// How many records are still to be skipped, and may still be processed, after
/// the first `i` of them.
pub open spec fn selection_after(filter: Filter, i: int) -> (int, int)
    decreases i,
{
    if i <= 0 {
        (
            match filter.start {
                StartPos::Index(n) => n as int,
                StartPos::Offset(_) => 0,
            },
            filter.count as int,
        )
    } else {
        let (to_skip, to_take) = selection_after(filter, i - 1);
        let (_, skip, take) = selection_step(to_skip, to_take);
        (skip, take)
    }
}

/// How many records are still to be skipped or processed, in terms of the filter
/// alone.
proof fn lemma_selection_after(filter: Filter, i: int)
    requires
        i >= 0,
    ensures
        ({
            let first = match filter.start {
                StartPos::Index(n) => n as int,
                StartPos::Offset(_) => 0,
            };
            let (to_skip, to_take) = selection_after(filter, i);
            &&& to_skip == (if i < first {
                first - i
            } else {
                0
            })
            &&& to_take == (if i < first {
                filter.count as int
            } else if i - first < filter.count {
                filter.count - (i - first)
            } else {
                0
            })
        }),
    decreases i,
{
    if i > 0 {
        lemma_selection_after(filter, i - 1);
    }
}

/// Of the records of a file exactly those that the filter selects are processed,
/// and reading stops only where none of those to come is selected.
pub proof fn law_selection(filter: Filter, i: int, j: int)
    requires
        0 <= i <= j,
    ensures
        ({
            let (to_skip, to_take) = selection_after(filter, i);
            let what = selection_step(to_skip, to_take).0;
            &&& what is Take <==> is_selected(filter, i)
            &&& what is Stop ==> !is_selected(filter, j)
        }),
{
    lemma_selection_after(filter, i);
}

/// The parts of a record to print.
#[derive(Clone, Copy, Debug, PartialEq, Eq, Structural)]
pub struct Parts {
    pub meta: bool,
    pub req_head: bool,
    pub req_body: bool,
    pub res_head: bool,
    pub res_body: bool,
}

impl Parts {
    /// No parts.
    pub fn falsie() -> (r: Parts)
        ensures
            r == (Parts {
                meta: false,
                req_head: false,
                req_body: false,
                res_head: false,
                res_body: false,
            }),
    {
        Parts { meta: false, req_head: false, req_body: false, res_head: false, res_body: false }
    }

    /// Whether there is no part.
    pub open spec fn is_none(&self) -> bool {
        !self.meta && !self.req_head && !self.req_body && !self.res_head && !self.res_body
    }
}

impl Default for Parts {
    /// All parts.
    fn default() -> (r: Parts)
        ensures
            r == (Parts {
                meta: true,
                req_head: true,
                req_body: true,
                res_head: true,
                res_body: true,
            }),
    {
        Parts { meta: true, req_head: true, req_body: true, res_head: true, res_body: true }
    }
}

/// The parts of a record to print: those asked for, or all of them if none is.
pub fn part_flags(asked: Parts) -> (r: Parts)
    ensures
        r == (if asked.is_none() {
            Parts { meta: true, req_head: true, req_body: true, res_head: true, res_body: true }
        } else {
            asked
        }),
{
    if asked.meta || asked.req_head || asked.req_body || asked.res_head || asked.res_body {
        asked
    } else {
        Parts::default()
    }
}

/// A choice of how records are compressed.
#[derive(Clone, Copy, Debug, PartialEq, Eq, Structural)]
pub enum StrategyChoice {
    Plain,
    Gzip,
    Brotli,
}

/// How records are compressed, by the flags that are given. They exclude each
/// other, and gzip wins otherwise.
pub fn compress_flags(brotli: bool, gzip: bool) -> (r: StrategyChoice)
    ensures
        r == (if gzip {
            StrategyChoice::Gzip
        } else if brotli {
            StrategyChoice::Brotli
        } else {
            StrategyChoice::Plain
        }),
{
    if gzip {
        StrategyChoice::Gzip
    } else if brotli {
        StrategyChoice::Brotli
    } else {
        StrategyChoice::Plain
    }
}

/// Check that records are not copied to the file that they come from.
pub fn check_copy(barc_in: &str, barc_out: &str) -> (r: Result<(), CliError>)
    ensures
        r == (if barc_in@ == barc_out@ {
            Err(CliError::SameFile)
        } else {
            Ok(())
        }),
{
    if str_eq(barc_in, barc_out) {
        Err(CliError::SameFile)
    } else {
        Ok(())
    }
}

/// The line that is printed before each record, with the path of the file and
/// the offset of the record.
pub fn separator(path: &str, offset: u64) -> (s: String)
    ensures
        s@ == "====== file "@ + padded_end(path@, '-', 38) + " offset 0x"@ + padded_start(
            hex_digits(offset as nat),
            '0',
            10,
        ) + " ======"@,
{
    let mut s: String = "====== file ".to_owned();
    append_padded(&mut s, path, '-', 38);
    s.append(" offset 0x");
    append_hex(&mut s, offset, 10);
    s.append(" ======");
    s
}

/// A header of the request that the tool makes.
pub struct RequestHeader {
    pub name: &'static str,
    pub value: String,
}

/// The headers of the request that the tool makes: with the accept header that
/// is given, or else that of a browser.
pub fn request_headers(accept: Option<&str>) -> (r: Vec<RequestHeader>)
    ensures
        r@.len() == 4,
        r@[0].name@ == "accept"@ && r@[0].value@ == (match accept {
            Some(a) => a@,
            None => BROWSE_ACCEPT@,
        }),
        r@[1].name@ == "accept-language"@ && r@[1].value@ == "en"@,
        r@[2].name@ == "accept-encoding"@ && r@[2].value@ == ACCEPT_ENCODINGS@,
        r@[3].name@ == "user-agent"@ && r@[3].value@ == "Mozilla/5.0 (compatible; body-image "@ + VERSION@
            + "; +https://crates.io/crates/body-image)"@,
{
    let accept = match accept {
        Some(a) => a.to_owned(),
        None => BROWSE_ACCEPT.to_owned(),
    };
    let mut r: Vec<RequestHeader> = Vec::with_capacity(4);
    r.push(RequestHeader { name: "accept", value: accept });
    r.push(RequestHeader { name: "accept-language", value: "en".to_owned() });
    r.push(RequestHeader { name: "accept-encoding", value: ACCEPT_ENCODINGS.to_owned() });
    r.push(RequestHeader { name: "user-agent", value: user_agent() });
    r
}

/// The hexadecimal digits of a number stand for it, and so they do as an offset
/// after "0x". Without that an offset is in decimal.
pub proof fn law_hex_numbers(v: u64)
    ensures
        hex_number_in(hex_digits(v as nat)) == Some(v),
        offset_in("0x"@ + hex_digits(v as nat)) == Some(v),
        offset_in(decimal(v as nat)) == Some(v),
{
    lemma_hex_value(v as nat);
    law_hex_digits(v as nat);
    law_decimal_digits(v as nat);
    law_numbers(v, Seq::empty(), 0);
    reveal_strlit("0x");
    let d = hex_digits(v as nat);
    let s = "0x"@ + d;
    assert(s.subrange(0, 2) =~= "0x"@);
    assert(s.skip(2) =~= d);
    lemma_hex_first(v as nat);
    let n = decimal(v as nat);
    if "0x"@.is_prefix_of(n) {
        assert(n.subrange(0, 2)[1] == 'x');
        assert('0' <= n[1] <= '9');
    }
}

/// The value of the hexadecimal digits of a number is the number.
proof fn lemma_hex_value(v: nat)
    ensures
        hex_value(hex_digits(v)) == v,
    decreases v,
{
    law_hex_digits(v);
    let d = hex_digits(v);
    if v >= 16 {
        lemma_hex_value(v / 16);
    } else {
        assert(d.drop_last() =~= Seq::<char>::empty());
        assert(hex_value(d.drop_last()) == 0);
    }
}

/// The first digit of a number is not a sign.
proof fn lemma_hex_first(v: nat)
    ensures
        hex_digits(v)[0] != '+',
    decreases v,
{
    law_hex_digits(v);
    if v >= 16 {
        lemma_hex_first(v / 16);
        law_hex_digits(v / 16);
        assert(hex_digits(v)[0] == hex_digits(v).drop_last()[0]);
    }
}

/// How many records are processed goes by the count alone: it is the number that
/// is given, whatever the first record is, and all of them if none is given.
pub proof fn law_count_flag(
    files: usize,
    index: Option<&str>,
    offset: Option<&str>,
    other_index: Option<&str>,
    other_offset: Option<&str>,
    count: Option<&str>,
    r: Result<Filter, CliError>,
    other: Result<Filter, CliError>,
)
    requires
        call_ensures(filter_flags, (files, index, offset, count), r),
        call_ensures(filter_flags, (files, other_index, other_offset, count), other),
    ensures
        r is Ok && count is Some ==> number_in(count->0@) == Some(r->Ok_0.count as u64),
        r is Ok && count is None ==> r->Ok_0.count == usize::MAX,
        r is Ok && other is Ok ==> r->Ok_0.count == other->Ok_0.count,
{
}

/// The first record that is processed goes by the offset, if there is one, or else
/// by the index, whatever the count is. Without either it is the first one of the
/// file. An offset after "0x" is in hexadecimal.
pub proof fn law_start_flags(
    files: usize,
    index: Option<&str>,
    offset: Option<&str>,
    count: Option<&str>,
    digits: Seq<char>,
    r: Result<Filter, CliError>,
)
    requires
        call_ensures(filter_flags, (files, index, offset, count), r),
        r is Ok,
    ensures
        offset is Some <==> r->Ok_0.start is Offset,
        offset is Some && offset->0@ == "0x"@ + digits ==> hex_number_in(digits) == Some(r->Ok_0.start->Offset_0),
        offset is Some && !"0x"@.is_prefix_of(offset->0@) ==> number_in(offset->0@) == Some(
            r->Ok_0.start->Offset_0,
        ),
        offset is None && index is Some ==> number_in(index->0@) == Some(r->Ok_0.start->Index_0 as u64),
        offset is None && index is None ==> r->Ok_0.start == StartPos::Index(0),
{
    if offset is Some && offset->0@ == "0x"@ + digits {
        let s = offset->0@;
        reveal_strlit("0x");
        assert(s.subrange(0, 2) =~= "0x"@);
        assert(s.skip(2) =~= digits);
    }
}

/// The flags are accepted exactly if there are none, or if there is no more than
/// one file and each of them is a number. With more than one file it is the first
/// of the flags that is refused.
pub proof fn law_flags_accepted(
    files: usize,
    index: Option<&str>,
    offset: Option<&str>,
    count: Option<&str>,
    r: Result<Filter, CliError>,
)
    requires
        call_ensures(filter_flags, (files, index, offset, count), r),
    ensures
        index is None && offset is None && count is None ==> r is Ok,
        files > 1 && index is Some ==> r == Err::<Filter, CliError>(CliError::SingleFile(Flag::Index)),
        files > 1 && index is None && offset is Some ==> r == Err::<Filter, CliError>(
            CliError::SingleFile(Flag::Offset),
        ),
        files > 1 && index is None && offset is None && count is Some ==> r == Err::<Filter, CliError>(
            CliError::SingleFile(Flag::Count),
        ),
        files <= 1 ==> (r is Ok <==> {
            &&& index is Some ==> number_in(index->0@) is Some && number_in(index->0@)->0 <= usize::MAX
            &&& offset is Some ==> offset_in(offset->0@) is Some
            &&& count is Some ==> number_in(count->0@) is Some && number_in(count->0@)->0 <= usize::MAX
        }),
        files <= 1 && r is Err ==> r->Err_0 is Number,
{
}

/// Each record is skipped as long as some are to be skipped, then processed as long
/// as some may be processed, and then reading stops. With an index that many
/// records are skipped, with an offset none.
pub proof fn law_selecting(filter: Filter, new: Selection, s: &mut Selection, r: Selected, at: Option<u64>)
    requires
        call_ensures(Selection::new, (filter,), new),
        call_ensures(Selection::select, (s,), r),
        call_ensures(Selection::offset, (&new,), at),
    ensures
        filter.start matches StartPos::Index(n) ==> new.to_skip() == n && at is None,
        filter.start matches StartPos::Offset(o) ==> new.to_skip() == 0 && at == Some(o),
        new.to_take() == filter.count,
        old(s).to_skip() > 0 ==> r is Skip && final(s).to_skip() == old(s).to_skip() - 1 && final(s).to_take()
            == old(s).to_take(),
        old(s).to_skip() <= 0 && old(s).to_take() > 0 ==> r is Take && final(s).to_take() == old(s).to_take() - 1
            && final(s).to_skip() == old(s).to_skip(),
        old(s).to_skip() <= 0 && old(s).to_take() <= 0 ==> r is Stop && final(s).to_take() == old(s).to_take()
            && final(s).to_skip() == old(s).to_skip(),
        final(s).by() == old(s).by(),
{
}

/// With an index of `n` and a count of `c` it is the records from `n` to `n + c`
/// that are processed, counted from 0, and with an offset the first `c` from there.
pub proof fn law_selected_range(filter: Filter, i: int)
    requires
        0 <= i,
    ensures
        ({
            let (to_skip, to_take) = selection_after(filter, i);
            let what = selection_step(to_skip, to_take).0;
            &&& filter.start matches StartPos::Index(n) ==> {
                &&& what is Skip <==> i < n
                &&& what is Take <==> n <= i < n + filter.count
                &&& what is Stop <==> i >= n + filter.count
            }
            &&& filter.start is Offset ==> {
                &&& what is Take <==> i < filter.count
                &&& what is Stop <==> i >= filter.count
            }
        }),
{
    lemma_selection_after(filter, i);
}

/// The parts to print are exactly those that are asked for, or all of them if none
/// is asked for.
pub proof fn law_parts(asked: Parts, r: Parts)
    requires
        call_ensures(part_flags, (asked,), r),
    ensures
        asked.meta || asked.req_head || asked.req_body || asked.res_head || asked.res_body ==> r.meta == asked.meta
            && r.req_head == asked.req_head && r.req_body == asked.req_body && r.res_head == asked.res_head
            && r.res_body == asked.res_body,
        !asked.meta && !asked.req_head && !asked.req_body && !asked.res_head && !asked.res_body ==> r.meta
            && r.req_head && r.req_body && r.res_head && r.res_body,
{
}

/// Records are compressed as the flag says, and not at all without one.
pub proof fn law_compress_flags(brotli: bool, gzip: bool, r: StrategyChoice)
    requires
        call_ensures(compress_flags, (brotli, gzip), r),
    ensures
        r is Gzip <==> gzip,
        r is Brotli <==> brotli && !gzip,
        r is Plain <==> !brotli && !gzip,
{
}

/// A copy is refused exactly if it is to the file that it comes from.
pub proof fn law_copy_to_other_file(barc_in: &str, barc_out: &str, r: Result<(), CliError>)
    requires
        call_ensures(check_copy, (barc_in, barc_out), r),
    ensures
        r is Err <==> barc_in@ == barc_out@,
        r is Err ==> r->Err_0 is SameFile,
{
}

/// The line before a record has the path of the file and, in hexadecimal, the
/// offset of the record.
pub proof fn law_separator(path: &str, offset: u64, s: String)
    requires
        call_ensures(separator, (path, offset), s),
    ensures
        exists|dashes: Seq<char>, zeros: Seq<char>|
            {
                &&& s@ == #[trigger] ("====== file "@ + (path@ + dashes) + " offset 0x"@ + (zeros + hex_digits(
                    offset as nat,
                )) + " ======"@)
                &&& forall|i: int| #![trigger dashes[i]] 0 <= i < dashes.len() ==> dashes[i] == '-'
                &&& forall|i: int| #![trigger zeros[i]] 0 <= i < zeros.len() ==> zeros[i] == '0'
                &&& path@.len() + dashes.len() >= 38
                &&& zeros.len() + hex_digits(offset as nat).len() >= 10
            },
{
    let dashes = repeated('-', 38 - path@.len());
    let zeros = repeated('0', 10 - hex_digits(offset as nat).len());
    assert(s@ == "====== file "@ + (path@ + dashes) + " offset 0x"@ + (zeros + hex_digits(offset as nat))
        + " ======"@);
}

/// The accept header of a request is the one that is given, or else that of a
/// browser. The other headers do not depend on it.
pub proof fn law_request_headers(accept: &str, r: Vec<RequestHeader>, d: Vec<RequestHeader>, i: int)
    requires
        call_ensures(request_headers, (Some(accept),), r),
        call_ensures(request_headers, (None::<&str>,), d),
    ensures
        r@.len() == d@.len() && r@.len() == 4,
        r@[0].name@ == "accept"@ && r@[0].value@ == accept@,
        d@[0].name@ == "accept"@ && d@[0].value@ == BROWSE_ACCEPT@,
        r@[1].name@ == "accept-language"@ && r@[1].value@ == "en"@,
        r@[2].name@ == "accept-encoding"@ && r@[2].value@ == ACCEPT_ENCODINGS@,
        r@[3].name@ == "user-agent"@,
        1 <= i < 4 ==> r@[i].name@ == d@[i].name@ && r@[i].value@ == d@[i].value@,
{
}

/// The names of the flags.
pub proof fn law_flag_names(f: &Flag, s: &'static str)
    requires
        call_ensures(Flag::name, (f,), s),
    ensures
        f is Index ==> s@ == "--index"@,
        f is Offset ==> s@ == "--offset"@,
        f is Count ==> s@ == "--count"@,
{
}

/// No parts are none of them.
pub proof fn law_no_parts(r: Parts)
    requires
        call_ensures(Parts::falsie, (), r),
    ensures
        !r.meta,
        !r.req_head,
        !r.req_body,
        !r.res_head,
        !r.res_body,
{
}

/// Without flags the first record is where to start, and all parts are printed.
pub proof fn law_cli_defaults(start: StartPos, parts: Parts)
    requires
        call_ensures(<StartPos as Default>::default, (), start),
        call_ensures(<Parts as Default>::default, (), parts),
    ensures
        start == StartPos::Index(0),
        parts.meta && parts.req_head && parts.req_body && parts.res_head && parts.res_body,
{
}

/// The description of each failure with arguments.
pub proof fn law_cli_messages(e: CliError, s: String, f: Flag, name: &'static str)
    requires
        call_ensures(CliError::message, (&e,), s),
        call_ensures(Flag::name, (&f,), name),
    ensures
        e == CliError::SingleFile(f) ==> s@ == name@ + " flag can't be applied to more than one input file"@,
        e matches CliError::Number(t) ==> s@ == t@,
        e is SameFile ==> s@ == "BARC input and output must be different files"@,
{
}

/// An offset alone is accepted exactly if it is a number: in hexadecimal after "0x",
/// and otherwise in decimal. It fails as the number does.
pub proof fn law_offsets_accepted(
    files: usize,
    hex: &str,
    plain: &str,
    digits: Seq<char>,
    r: Result<Filter, CliError>,
    q: Result<Filter, CliError>,
)
    requires
        files <= 1,
        hex@ == seq!['0', 'x'] + digits,
        !(plain@.len() >= 2 && plain@[0] == '0' && plain@[1] == 'x'),
        call_ensures(filter_flags, (files, None, Some(hex), None), r),
        call_ensures(filter_flags, (files, None, Some(plain), None), q),
    ensures
        r is Ok <==> hex_number_in(digits) is Some,
        r is Ok ==> r->Ok_0.start == StartPos::Offset(hex_number_in(digits)->0),
        r is Err ==> (r->Err_0 matches CliError::Number(t) && t@ == hex_fault(digits)),
        q is Ok <==> number_in(plain@) is Some,
        q is Ok ==> q->Ok_0.start == StartPos::Offset(number_in(plain@)->0),
        q is Err ==> (q->Err_0 matches CliError::Number(t) && t@ == number_fault(plain@)),
{
    reveal_strlit("0x");
    assert("0x"@ =~= seq!['0', 'x']);
    assert(hex@.subrange(0, 2) =~= "0x"@);
    assert(hex@.skip(2) =~= digits);
    if "0x"@.is_prefix_of(plain@) {
        assert(plain@[0] == "0x"@[0]);
        assert(plain@[1] == "0x"@[1]);
    }
}

/// An index and a count that are not numbers fail as the number does, the index
/// first.
pub proof fn law_number_faults(
    files: usize,
    index: &str,
    count: &str,
    offset: Option<&str>,
    other: Option<&str>,
    r: Result<Filter, CliError>,
    q: Result<Filter, CliError>,
)
    requires
        files <= 1,
        number_in(index@) is None,
        number_in(count@) is None,
        call_ensures(filter_flags, (files, Some(index), offset, other), r),
        call_ensures(filter_flags, (files, None, None, Some(count)), q),
    ensures
        r matches Err(CliError::Number(t)) && t@ == size_fault(index@),
        q matches Err(CliError::Number(t)) && t@ == size_fault(count@),
{
}

/// A hexadecimal digit after a number makes it sixteen times as large and adds to it,
/// unless it is then too large. Letters are digits in either case, and after any other
/// character there is no number.
pub proof fn law_hex_number_grows(s: Seq<char>, c: char, d: int)
    requires
        'a' <= c <= 'f' ==> d == 10 + (c as int - 'a' as int),
        'A' <= c <= 'F' ==> d == 10 + (c as int - 'A' as int),
        '0' <= c <= '9' ==> d == c as int - '0' as int,
        !('0' <= c <= '9') && !('a' <= c <= 'f') && !('A' <= c <= 'F') ==> d == -1,
    ensures
        d >= 0 ==> hex_number_in(seq![c]) == Some(d as u64),
        d < 0 ==> hex_number_in(seq![c]) is None,
        hex_number_in(s) matches Some(v) ==> {
            &&& 0 <= d && v * 16 + d <= u64::MAX ==> hex_number_in(s.push(c)) == Some((v * 16 + d) as u64)
            &&& d < 0 || v * 16 + d > u64::MAX ==> hex_number_in(s.push(c)) is None
        },
{
    assert(seq![c].drop_last() =~= Seq::<char>::empty());
    assert(hex_value(seq![c].drop_last()) == 0);
    assert(hex_value(seq![c]) == d);
    if c == '+' {
        assert(seq![c].skip(1).len() == 0);
    }
    if hex_number_in(s) is Some {
        let t = s.push(c);
        assert(t[0] == s[0]);
        let n = if s[0] == '+' {
            s.skip(1)
        } else {
            s
        };
        if s[0] == '+' {
            assert(t.skip(1) =~= n.push(c));
        }
        assert(n.push(c).drop_last() =~= n);
    }
}

} // verus!
