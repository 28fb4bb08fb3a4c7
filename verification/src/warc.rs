//! Web archives (`.warc`): the records of a stream, the paths that they are
//! materialized at, and what listing, testing, copying and extracting give.
//!
//! Each record is one regular file. A record with a `WARC-Target-URI` takes its
//! normalized target path; a record without one takes a stable path under
//! `records/`. The bytes are the record body exactly as stored, HTTP framing of
//! response records included.
use crate::failure::{IoFailure, unfilled_buffer};
#[allow(unused_imports)]
use crate::failure::{IoFailureView, unfilled};
use crate::bytes::copy_range;
use crate::disk_extract::EntryDecision;
use crate::report::{BackendReport, BackendView, TestOptions, contains_text};
use crate::text::{
    all_digits, chars_of, concat2, concat4, decimal, decimal_text, digits_value, has_prefix,
    is_digit, is_space, lemma_decimal_round_trip, lossy_text, lossy_utf8, lower_all, lower_text,
    padded, padded_text, parse_unsigned, parse_unsigned_text, same_text, slice_to_chars,
    starts_with, text_of, text_option, texts, trim, trim_end, trim_start, trimmed,
    unsigned_digits, zero_digits,
};
use vstd::prelude::*;
use vstd::utf8::{decode_utf8, valid_utf8};

verus! {

/// The most bytes that the body of a record may declare.
pub const MAX_WARC_RECORD_BYTES: u64 = 536_870_912;

/// One normalized WARC record entry.
#[derive(Debug, PartialEq, Eq)]
pub struct WarcEntry {
    /// The number of the record in the stream.
    pub index: usize,
    /// Stable normalized materialization path.
    pub path: String,
    /// WARC record body length.
    pub size: u64,
    /// WARC record type.
    pub record_type: String,
}

/// A record entry with its texts taken as sequences.
pub struct WarcEntryView {
    pub index: int,
    pub path: Seq<char>,
    pub size: u64,
    pub record_type: Seq<char>,
}

impl View for WarcEntry {
    type V = WarcEntryView;

    open spec fn view(&self) -> WarcEntryView {
        WarcEntryView {
            index: self.index as int,
            path: self.path@,
            size: self.size,
            record_type: self.record_type@,
        }
    }
}

/// WARC operation error.
#[derive(Debug, PartialEq, Eq)]
pub enum WarcError {
    /// Filesystem I/O failed.
    Io {
        /// The file that was worked on.
        path: String,
        /// What went wrong.
        source: IoFailure,
    },
    /// The WARC stream or record is malformed.
    Invalid {
        /// The file that was read.
        path: String,
        /// What is wrong with it.
        message: String,
    },
    /// Extraction safety rejected an entry.
    Safety(String),
    /// The caller cancelled the operation.
    Cancelled,
}

/// A WARC error with its texts taken as sequences.
pub enum WarcFault {
    Io { path: Seq<char>, source: IoFailureView },
    Invalid { path: Seq<char>, message: Seq<char> },
    Safety(Seq<char>),
    Cancelled,
}

impl View for WarcError {
    type V = WarcFault;

    open spec fn view(&self) -> WarcFault {
        match self {
            WarcError::Io { path, source } => WarcFault::Io { path: path@, source: source@ },
            WarcError::Invalid { path, message } => WarcFault::Invalid {
                path: path@,
                message: message@,
            },
            WarcError::Safety(m) => WarcFault::Safety(m@),
            WarcError::Cancelled => WarcFault::Cancelled,
        }
    }
}

/// What a user reads of an error.
pub open spec fn warc_message(fault: WarcFault) -> Seq<char> {
    match fault {
        WarcFault::Io { path, source } => "I/O failed for "@ + path + ": "@ + source.message,
        WarcFault::Invalid { path, message } => "invalid WARC "@ + path + ": "@ + message,
        WarcFault::Safety(m) => "extraction safety rejected WARC entry: "@ + m,
        WarcFault::Cancelled => "job cancelled"@,
    }
}

impl WarcError {
    /// What a user reads of the error.
    pub fn message(&self) -> (text: String)
        ensures
            text@ == warc_message(self@),
    {
        match self {
            WarcError::Io { path, source } => concat4(
                "I/O failed for ",
                path.as_str(),
                ": ",
                source.message.as_str(),
            ),
            WarcError::Invalid { path, message } => concat4(
                "invalid WARC ",
                path.as_str(),
                ": ",
                message.as_str(),
            ),
            WarcError::Safety(m) => concat2("extraction safety rejected WARC entry: ", m.as_str()),
            WarcError::Cancelled => "job cancelled".to_owned(),
        }
    }
}

/// The error of a malformed stream.
pub fn invalid(path: &str, message: &str) -> (error: WarcError)
    ensures
        error@ == (WarcFault::Invalid { path: path@, message: message@ }),
{
    WarcError::Invalid { path: path.to_owned(), message: message.to_owned() }
}

/// The error of a failed read or write.
pub fn io_failed(path: &str, source: &IoFailure) -> (error: WarcError)
    ensures
        error@ == (WarcFault::Io { path: path@, source: source@ }),
{
    WarcError::Io { path: path.to_owned(), source: source.copy() }
}

/// Where the line at `pos` ends: behind its line feed, or at the end of the
/// file.
pub open spec fn line_end(file: Seq<u8>, pos: int) -> int
    decreases file.len() - pos,
{
    if pos >= file.len() {
        file.len() as int
    } else if file[pos] == 10 {
        pos + 1
    } else {
        line_end(file, pos + 1)
    }
}

/// A line without the line feeds and carriage returns at its end.
pub open spec fn stripped(line: Seq<u8>) -> Seq<u8>
    decreases line.len(),
{
    if line.len() > 0 && (line.last() == 10 || line.last() == 13) {
        stripped(line.drop_last())
    } else {
        line
    }
}

/// The line at `pos`.
pub open spec fn line_at(file: Seq<u8>, pos: int) -> Seq<u8> {
    stripped(file.subrange(pos, line_end(file, pos)))
}

/// Whether `b` is ASCII white space.
pub open spec fn is_ascii_space(b: u8) -> bool {
    b == 32 || b == 9 || b == 10 || b == 12 || b == 13
}

/// Whether a line holds only ASCII white space.
pub open spec fn all_space(line: Seq<u8>) -> bool {
    forall|k: int| 0 <= k < line.len() ==> is_ascii_space(#[trigger] line[k])
}

/// The next line with something on it, and where it ends; an empty line, like
/// the end of the file, ends the stream.
pub open spec fn first_line(file: Seq<u8>, pos: int) -> Option<(Seq<u8>, int)>
    decreases file.len() - pos,
{
    let line = line_at(file, pos);
    let next = line_end(file, pos);
    if line.len() == 0 || !(pos < next <= file.len()) {
        None
    } else if !all_space(line) {
        Some((line, next))
    } else {
        first_line(file, next)
    }
}

/// The position of the first colon of a line, or its length.
pub open spec fn colon_at(line: Seq<u8>) -> int
    decreases line.len(),
{
    if line.len() == 0 || line[0] == 58 {
        0
    } else {
        1 + colon_at(line.subrange(1, line.len() as int))
    }
}

/// Bytes without the ASCII white space at their start.
pub open spec fn ascii_trim_start(s: Seq<u8>) -> Seq<u8>
    decreases s.len(),
{
    if s.len() > 0 && is_ascii_space(s[0]) {
        ascii_trim_start(s.subrange(1, s.len() as int))
    } else {
        s
    }
}

/// Bytes without the ASCII white space at their end.
pub open spec fn ascii_trim_end(s: Seq<u8>) -> Seq<u8>
    decreases s.len(),
{
    if s.len() > 0 && is_ascii_space(s.last()) {
        ascii_trim_end(s.drop_last())
    } else {
        s
    }
}

/// Bytes without the ASCII white space at either end.
pub open spec fn ascii_trimmed(s: Seq<u8>) -> Seq<u8> {
    ascii_trim_end(ascii_trim_start(s))
}

/// What the headers of a record said so far; a later header wins.
pub struct HeaderView {
    pub record_type: Option<Seq<char>>,
    pub target: Option<Seq<char>>,
    pub length: Option<u64>,
}

/// A header line: its name in lower case and its value.
pub open spec fn header_of(line: Seq<u8>) -> Result<(Seq<char>, Seq<char>), Seq<char>> {
    let colon = colon_at(line);
    if colon >= line.len() {
        Err("WARC header is missing a colon"@)
    } else {
        let value = ascii_trimmed(line.subrange(colon + 1, line.len() as int));
        if valid_utf8(value) {
            Ok((lower_all(lossy_utf8(line.take(colon))), decode_utf8(value)))
        } else {
            Err("WARC header is not UTF-8"@)
        }
    }
}

/// One more header.
pub open spec fn apply_header(h: HeaderView, name: Seq<char>, value: Seq<char>) -> Result<
    HeaderView,
    Seq<char>,
> {
    if name == "warc-type"@ {
        Ok(HeaderView { record_type: Some(value), ..h })
    } else if name == "warc-target-uri"@ {
        Ok(HeaderView { target: Some(value), ..h })
    } else if name == "content-length"@ {
        match parse_unsigned(value, u64::MAX as nat) {
            Some(n) => Ok(HeaderView { length: Some(n as u64), ..h }),
            None => Err("WARC content length is invalid"@),
        }
    } else {
        Ok(h)
    }
}

/// The headers from `pos` up to an empty line, and where the body starts.
pub open spec fn headers_at(file: Seq<u8>, pos: int, h: HeaderView) -> Result<
    (HeaderView, int),
    Seq<char>,
>
    decreases file.len() - pos,
{
    let line = line_at(file, pos);
    let next = line_end(file, pos);
    if line.len() == 0 || !(pos < next <= file.len()) {
        Ok((h, next))
    } else {
        match header_of(line) {
            Err(message) => Err(message),
            Ok((name, value)) => match apply_header(h, name, value) {
                Err(message) => Err(message),
                Ok(h) => headers_at(file, next, h),
            },
        }
    }
}

/// A record of the stream.
pub struct RecordView {
    pub record_type: Seq<char>,
    pub target: Option<Seq<char>>,
    pub size: u64,
    pub body_offset: int,
}

/// What is found at a position of the stream.
pub enum Found {
    /// No more records.
    End,
    /// Something malformed.
    Fault(WarcFault),
    /// A record, and where the next one starts.
    Record(RecordView, int),
}

/// The bytes that follow the body of a record.
pub open spec fn record_separator() -> Seq<u8> {
    seq![13u8, 10u8, 13u8, 10u8]
}

/// Whether a line starts with the record version marker, `WARC/`.
pub open spec fn is_version_line(line: Seq<u8>) -> bool {
    line.len() >= 5 && line.take(5) == seq![87u8, 65u8, 82u8, 67u8, 47u8]
}

/// What is found at `pos`.
pub open spec fn record_at(path: Seq<char>, file: Seq<u8>, pos: int) -> Found {
    match first_line(file, pos) {
        None => Found::End,
        Some((line, after)) => if !is_version_line(line) {
            bad(path, "record does not start with a WARC version line"@)
        } else {
            match headers_at(
                file,
                after,
                HeaderView { record_type: None, target: None, length: None },
            ) {
                Err(message) => bad(path, message),
                Ok((h, body)) => match (h.record_type, h.length) {
                    (None, _) => bad(path, "WARC-Type header is missing"@),
                    (Some(_), None) => bad(path, "Content-Length header is missing"@),
                    (Some(record_type), Some(size)) => if size > MAX_WARC_RECORD_BYTES {
                        bad(
                            path,
                            "WARC record exceeds "@ + decimal(MAX_WARC_RECORD_BYTES as nat)
                                + " byte limit"@,
                        )
                    } else if body + size > u64::MAX {
                        bad(path, "WARC record length overflows"@)
                    } else if body + size + 4 > file.len() {
                        Found::Fault(
                            WarcFault::Io { path, source: unfilled() },
                        )
                    } else if file.subrange(body + size, body + size + 4) != record_separator() {
                        bad(path, "WARC record is missing its CRLF separator"@)
                    } else {
                        Found::Record(
                            RecordView { record_type, target: h.target, size, body_offset: body },
                            body + size + 4,
                        )
                    },
                },
            }
        },
    }
}

/// A malformed stream.
pub open spec fn bad(path: Seq<char>, message: Seq<char>) -> Found {
    Found::Fault(WarcFault::Invalid { path, message })
}

/// The records of a stream from `pos` on, and what ended it early, if anything
/// did.
pub open spec fn records_from(path: Seq<char>, file: Seq<u8>, pos: int) -> (
    Seq<RecordView>,
    Option<WarcFault>,
)
    decreases file.len() - pos,
{
    match record_at(path, file, pos) {
        Found::End => (Seq::empty(), None),
        Found::Fault(fault) => (Seq::empty(), Some(fault)),
        Found::Record(record, next) => if pos < next <= file.len() {
            let (rest, fault) = records_from(path, file, next);
            (seq![record] + rest, fault)
        } else {
            (Seq::empty(), None)
        },
    }
}

proof fn lemma_line_end(file: Seq<u8>, pos: int)
    requires
        0 <= pos <= file.len(),
    ensures
        pos <= line_end(file, pos) <= file.len(),
        pos < file.len() ==> pos < line_end(file, pos),
    decreases file.len() - pos,
{
    if pos < file.len() && file[pos] != 10 {
        lemma_line_end(file, pos + 1);
    }
}

proof fn lemma_first_line(file: Seq<u8>, pos: int)
    requires
        0 <= pos <= file.len(),
    ensures
        first_line(file, pos) matches Some((_, after)) ==> pos < after <= file.len(),
    decreases file.len() - pos,
{
    lemma_line_end(file, pos);
    let next = line_end(file, pos);
    if pos < next {
        lemma_first_line(file, next);
    }
}

proof fn lemma_headers(file: Seq<u8>, pos: int, h: HeaderView)
    requires
        0 <= pos <= file.len(),
    ensures
        headers_at(file, pos, h) matches Ok((_, body)) ==> pos <= body <= file.len(),
    decreases file.len() - pos,
{
    lemma_line_end(file, pos);
    let line = line_at(file, pos);
    let next = line_end(file, pos);
    if line.len() > 0 && pos < next && header_of(line) is Ok {
        let (name, value) = header_of(line)->Ok_0;
        if apply_header(h, name, value) is Ok {
            lemma_headers(file, next, apply_header(h, name, value)->Ok_0);
        }
    }
}

/// A record lies inside the file, and the next one starts behind it.
proof fn lemma_record_bounds(path: Seq<char>, file: Seq<u8>, pos: int)
    requires
        0 <= pos <= file.len(),
    ensures
        record_at(path, file, pos) matches Found::Record(r, next) ==> {
            &&& pos < r.body_offset
            &&& r.body_offset + r.size + 4 == next
            &&& next <= file.len()
            &&& r.size <= MAX_WARC_RECORD_BYTES
        },
{
    lemma_first_line(file, pos);
    if first_line(file, pos) is Some {
        let (_, after) = first_line(file, pos)->Some_0;
        lemma_headers(file, after, HeaderView { record_type: None, target: None, length: None });
    }
}

/// Reads the line at `pos`; also returns where the next one starts.
fn read_line(file: &[u8], pos: usize) -> (line: (Vec<u8>, usize))
    requires
        pos <= file@.len(),
    ensures
        line.0@ == line_at(file@, pos as int),
        line.1 as int == line_end(file@, pos as int),
        pos <= line.1 <= file@.len(),
        pos < file@.len() ==> pos < line.1,
{
    let mut end: usize = pos;
    let mut open: bool = true;
    while open && end < file.len()
        invariant
            pos <= end <= file@.len(),
            open ==> line_end(file@, pos as int) == line_end(file@, end as int),
            !open ==> line_end(file@, pos as int) == end,
        decreases file@.len() - end,
    {
        if file[end] == 10 {
            open = false;
        }
        end = end + 1;
    }
    proof {
        lemma_line_end(file@, pos as int);
    }
    let next: usize = end;
    let ghost whole = file@.subrange(pos as int, next as int);
    while end > pos && (file[end - 1] == 10 || file[end - 1] == 13)
        invariant
            pos <= end <= next <= file@.len(),
            whole == file@.subrange(pos as int, next as int),
            stripped(file@.subrange(pos as int, end as int)) == stripped(whole),
        decreases end,
    {
        assert(file@.subrange(pos as int, end as int).drop_last() == file@.subrange(
            pos as int,
            end - 1,
        ));
        end = end - 1;
    }
    (copy_range(file, pos, end), next)
}

/// Whether a line holds only ASCII white space.
fn is_blank(line: &[u8]) -> (r: bool)
    ensures
        r == all_space(line@),
{
    let mut i: usize = 0;
    while i < line.len()
        invariant
            i <= line@.len(),
            forall|k: int| 0 <= k < i ==> is_ascii_space(#[trigger] line@[k]),
        decreases line@.len() - i,
    {
        if !is_ascii_space_byte(line[i]) {
            assert(!is_ascii_space(line@[i as int]));
            return false;
        }
        i = i + 1;
    }
    true
}

/// Whether `b` is ASCII white space.
fn is_ascii_space_byte(b: u8) -> (r: bool)
    ensures
        r == is_ascii_space(b),
{
    b == 32 || b == 9 || b == 10 || b == 12 || b == 13
}

/// Reads the next line with something on it.
fn read_nonempty_line(file: &[u8], pos: usize) -> (line: Option<(Vec<u8>, usize)>)
    requires
        pos <= file@.len(),
    ensures
        match line {
            Some((line, next)) => first_line(file@, pos as int) == Some((line@, next as int)) && pos
                < next <= file@.len(),
            None => first_line(file@, pos as int) is None,
        },
{
    let mut at: usize = pos;
    loop
        invariant
            pos <= at <= file@.len(),
            first_line(file@, pos as int) == first_line(file@, at as int),
        decreases file@.len() - at,
    {
        let (line, next) = read_line(file, at);
        if line.len() == 0 || at >= file.len() {
            return None;
        }
        if !is_blank(line.as_slice()) {
            return Some((line, next));
        }
        at = next;
    }
}

/// What the headers of a record said so far.
struct Headers {
    record_type: Option<String>,
    target: Option<String>,
    length: Option<u64>,
}

impl View for Headers {
    type V = HeaderView;

    closed spec fn view(&self) -> HeaderView {
        HeaderView {
            record_type: text_option(self.record_type),
            target: text_option(self.target),
            length: self.length,
        }
    }
}

/// Bytes without the ASCII white space at either end.
fn trim_ascii(s: &[u8], from: usize) -> (out: Vec<u8>)
    requires
        from <= s@.len(),
    ensures
        out@ == ascii_trimmed(s@.subrange(from as int, s@.len() as int)),
{
    let ghost part = s@.subrange(from as int, s@.len() as int);
    let mut start: usize = from;
    while start < s.len() && is_ascii_space_byte(s[start])
        invariant
            from <= start <= s@.len(),
            part == s@.subrange(from as int, s@.len() as int),
            ascii_trim_start(part) == ascii_trim_start(
                s@.subrange(start as int, s@.len() as int),
            ),
        decreases s@.len() - start,
    {
        assert(s@.subrange(start as int, s@.len() as int).subrange(1, s@.len() - start)
            == s@.subrange(start + 1, s@.len() as int));
        start = start + 1;
    }
    let ghost head = s@.subrange(start as int, s@.len() as int);
    assert(ascii_trim_start(part) == head);
    let mut end: usize = s.len();
    while end > start && is_ascii_space_byte(s[end - 1])
        invariant
            start <= end <= s@.len(),
            head == s@.subrange(start as int, s@.len() as int),
            ascii_trim_end(head) == ascii_trim_end(s@.subrange(start as int, end as int)),
        decreases end,
    {
        assert(s@.subrange(start as int, end as int).drop_last() == s@.subrange(
            start as int,
            end - 1,
        ));
        end = end - 1;
    }
    copy_range(s, start, end)
}

/// The position of the first colon of a line, or its length.
fn find_colon(line: &[u8]) -> (at: usize)
    ensures
        at as int == colon_at(line@),
        at <= line@.len(),
{
    let mut i: usize = 0;
    assert(line@.subrange(0, line@.len() as int) == line@);
    while i < line.len() && line[i] != 58
        invariant
            i <= line@.len(),
            colon_at(line@) == i + colon_at(line@.subrange(i as int, line@.len() as int)),
        decreases line@.len() - i,
    {
        assert(line@.subrange(i as int, line@.len() as int).subrange(1, line@.len() - i)
            == line@.subrange(i + 1, line@.len() as int));
        i = i + 1;
    }
    i
}

/// Reads one header line into `headers`.
fn read_header(path: &str, line: &[u8], headers: &mut Headers) -> (done: Result<(), WarcError>)
    ensures
        match header_of(line@) {
            Err(message) => done matches Err(e) && e@ == (WarcFault::Invalid {
                path: path@,
                message,
            }),
            Ok((name, value)) => match apply_header(old(headers)@, name, value) {
                Err(message) => done matches Err(e) && e@ == (WarcFault::Invalid {
                    path: path@,
                    message,
                }),
                Ok(h) => done is Ok && final(headers)@ == h,
            },
        },
{
    let colon: usize = find_colon(line);
    if colon >= line.len() {
        return Err(invalid(path, "WARC header is missing a colon"));
    }
    let name_bytes: Vec<u8> = copy_range(line, 0, colon);
    assert(name_bytes@ == line@.take(colon as int));
    let name: String = lower_text(lossy_text(name_bytes.as_slice()).as_str());
    let value_bytes: Vec<u8> = trim_ascii(line, colon + 1);
    let value: &str = match core::str::from_utf8(value_bytes.as_slice()) {
        Ok(value) => value,
        Err(_) => {
            return Err(invalid(path, "WARC header is not UTF-8"));
        },
    };
    if same_text(name.as_str(), "warc-type") {
        headers.record_type = Some(value.to_owned());
    } else if same_text(name.as_str(), "warc-target-uri") {
        headers.target = Some(value.to_owned());
    } else if same_text(name.as_str(), "content-length") {
        let digits: Vec<char> = chars_of(value);
        match parse_unsigned_text(digits.as_slice(), u64::MAX) {
            Some(n) => {
                headers.length = Some(n);
            },
            None => {
                return Err(invalid(path, "WARC content length is invalid"));
            },
        }
    }
    Ok(())
}

/// Reads the headers of a record; also returns where its body starts.
fn read_headers(path: &str, file: &[u8], pos: usize) -> (headers: Result<
    (Headers, usize),
    WarcError,
>)
    requires
        pos <= file@.len(),
    ensures
        match (
            headers,
            headers_at(
                file@,
                pos as int,
                HeaderView { record_type: None, target: None, length: None },
            ),
        ) {
            (Ok((h, body)), Ok((spec, at))) => h@ == spec && body == at && body <= file@.len(),
            (Err(e), Err(message)) => e@ == (WarcFault::Invalid { path: path@, message }),
            _ => false,
        },
{
    let mut headers = Headers { record_type: None, target: None, length: None };
    let ghost start = headers@;
    let mut at: usize = pos;
    loop
        invariant
            pos <= at <= file@.len(),
            start == (HeaderView { record_type: None, target: None, length: None }),
            headers_at(file@, pos as int, start) == headers_at(file@, at as int, headers@),
        decreases file@.len() - at,
    {
        let (line, next) = read_line(file, at);
        if line.len() == 0 || at >= file.len() {
            return Ok((headers, next));
        }
        match read_header(path, line.as_slice(), &mut headers) {
            Ok(_) => {},
            Err(error) => {
                return Err(error);
            },
        }
        at = next;
    }
}

/// A record of the stream.
#[derive(Debug)]
pub struct ScannedRecord {
    /// WARC record type.
    pub record_type: String,
    /// The target of the record, as its header gives it.
    pub target: Option<String>,
    /// WARC record body length.
    pub size: u64,
    /// Where the body starts in the file.
    pub body_offset: u64,
}

impl View for ScannedRecord {
    type V = RecordView;

    open spec fn view(&self) -> RecordView {
        RecordView {
            record_type: self.record_type@,
            target: text_option(self.target),
            size: self.size,
            body_offset: self.body_offset as int,
        }
    }
}

/// The records of a stream up to its end or to what is malformed in it.
#[derive(Debug)]
pub struct WarcScan {
    /// The records, in order.
    pub records: Vec<ScannedRecord>,
    /// What ended the stream early.
    pub failure: Option<WarcError>,
}

/// The views of a list of records.
pub open spec fn record_views(records: Seq<ScannedRecord>) -> Seq<RecordView> {
    records.map_values(|r: ScannedRecord| r@)
}

impl View for WarcScan {
    type V = (Seq<RecordView>, Option<WarcFault>);

    open spec fn view(&self) -> (Seq<RecordView>, Option<WarcFault>) {
        (
            record_views(self.records@),
            match self.failure {
                Some(error) => Some(error@),
                None => None,
            },
        )
    }
}

/// What is found at a position of the stream.
enum Step {
    End,
    Failed(WarcError),
    Record(ScannedRecord, usize),
}

/// Reads the record at `pos`.
fn scan_record(path: &str, file: &[u8], pos: usize) -> (step: Step)
    requires
        pos <= file@.len(),
    ensures
        match (step, record_at(path@, file@, pos as int)) {
            (Step::End, Found::End) => true,
            (Step::Failed(e), Found::Fault(fault)) => e@ == fault,
            (Step::Record(r, next), Found::Record(spec, at)) => r@ == spec && next == at && pos
                < next <= file@.len(),
            _ => false,
        },
{
    proof {
        lemma_record_bounds(path@, file@, pos as int);
    }
    let (line, after) = match read_nonempty_line(file, pos) {
        Some(found) => found,
        None => {
            return Step::End;
        },
    };
    let version: bool = line.len() >= 5 && line[0] == 87 && line[1] == 65 && line[2] == 82
        && line[3] == 67 && line[4] == 47;
    proof {
        let marker = seq![87u8, 65u8, 82u8, 67u8, 47u8];
        if version {
            assert(line@.take(5) =~= marker);
        } else if line@.len() >= 5 {
            let head = line@.take(5);
            assert(head[0] == line@[0] && head[1] == line@[1] && head[2] == line@[2] && head[3]
                == line@[3] && head[4] == line@[4]);
        }
    }
    if !version {
        return Step::Failed(invalid(path, "record does not start with a WARC version line"));
    }
    let (headers, body) = match read_headers(path, file, after) {
        Ok(found) => found,
        Err(error) => {
            return Step::Failed(error);
        },
    };
    let Headers { record_type, target, length } = headers;
    let record_type: String = match record_type {
        Some(record_type) => record_type,
        None => {
            return Step::Failed(invalid(path, "WARC-Type header is missing"));
        },
    };
    let size: u64 = match length {
        Some(size) => size,
        None => {
            return Step::Failed(invalid(path, "Content-Length header is missing"));
        },
    };
    if size > MAX_WARC_RECORD_BYTES {
        let mut message: String = concat2(
            "WARC record exceeds ",
            decimal_text(MAX_WARC_RECORD_BYTES).as_str(),
        );
        message.append(" byte limit");
        return Step::Failed(invalid(path, message.as_str()));
    }
    let body_offset: u64 = body as u64;
    if size > u64::MAX - body_offset {
        return Step::Failed(invalid(path, "WARC record length overflows"));
    }
    let body_end: u64 = body_offset + size;
    if body_end > file.len() as u64 || file.len() as u64 - body_end < 4 {
        return Step::Failed(io_failed(path, &unfilled_buffer()));
    }
    let end: usize = body_end as usize;
    let separated: bool = file[end] == 13 && file[end + 1] == 10 && file[end + 2] == 13 && file[end
        + 3] == 10;
    proof {
        let tail = file@.subrange(end as int, end + 4);
        if separated {
            assert(tail =~= record_separator());
        } else {
            assert(tail[0] == file@[end as int] && tail[1] == file@[end + 1] && tail[2] == file@[end
                + 2] && tail[3] == file@[end + 3]);
        }
    }
    if !separated {
        return Step::Failed(invalid(path, "WARC record is missing its CRLF separator"));
    }
    Step::Record(ScannedRecord { record_type, target, size, body_offset }, end + 4)
}

/// Reads the records of the stream in `file`. The bodies are not looked at.
pub fn scan_records(path: &str, file: &[u8]) -> (scan: WarcScan)
    ensures
        scan@ == records_from(path@, file@, 0),
{
    let mut records: Vec<ScannedRecord> = Vec::new();
    let mut pos: usize = 0;
    assert(record_views(records@) + records_from(path@, file@, 0).0 =~= records_from(
        path@,
        file@,
        0,
    ).0);
    loop
        invariant
            pos <= file@.len(),
            records_from(path@, file@, 0).0 == record_views(records@) + records_from(
                path@,
                file@,
                pos as int,
            ).0,
            records_from(path@, file@, 0).1 == records_from(path@, file@, pos as int).1,
        decreases file@.len() - pos,
    {
        match scan_record(path, file, pos) {
            Step::End => {
                let scan = WarcScan { records, failure: None };
                assert(scan@.0 =~= records_from(path@, file@, 0).0);
                return scan;
            },
            Step::Failed(error) => {
                let scan = WarcScan { records, failure: Some(error) };
                assert(scan@.0 =~= records_from(path@, file@, 0).0);
                return scan;
            },
            Step::Record(record, next) => {
                let ghost before = record_views(records@);
                let ghost rest = records_from(path@, file@, next as int).0;
                records.push(record);
                proof {
                    assert(record_views(records@) =~= before.push(record@));
                    assert(before + (seq![record@] + rest) =~= before.push(record@) + rest);
                }
                pos = next;
            },
        }
    }
}

/// `s` without the characters `c` at its start.
pub open spec fn strip_front(s: Seq<char>, c: char) -> Seq<char>
    decreases s.len(),
{
    if s.len() > 0 && s[0] == c {
        strip_front(s.subrange(1, s.len() as int), c)
    } else {
        s
    }
}

/// `s` without the characters `c` at its end.
pub open spec fn strip_back(s: Seq<char>, c: char) -> Seq<char>
    decreases s.len(),
{
    if s.len() > 0 && s.last() == c {
        strip_back(s.drop_last(), c)
    } else {
        s
    }
}

/// What follows the first occurrence of `mark` in `s`.
pub open spec fn after_first(s: Seq<char>, mark: Seq<char>) -> Option<Seq<char>>
    decreases s.len(),
{
    if has_prefix(s, mark) {
        Some(s.skip(mark.len() as int))
    } else if s.len() == 0 {
        None
    } else {
        after_first(s.subrange(1, s.len() as int), mark)
    }
}

/// The path inside a target: without white space, angle brackets and scheme
/// around it, and without leading separators.
pub open spec fn raw_target(target: Seq<char>) -> Seq<char> {
    let uri = strip_back(strip_front(trimmed(target), '<'), '>');
    let raw = if has_prefix(uri, "file://"@) {
        uri.skip("file://"@.len() as int)
    } else {
        match after_first(uri, "://"@) {
            Some(rest) => rest,
            None => uri,
        }
    };
    strip_front(raw, '/')
}

/// Where `s` starts without the characters `c` at its start.
fn skip_front(s: &[char], from: usize, to: usize, c: char) -> (start: usize)
    requires
        from <= to <= s@.len(),
    ensures
        from <= start <= to,
        s@.subrange(start as int, to as int) == strip_front(
            s@.subrange(from as int, to as int),
            c,
        ),
{
    let mut start: usize = from;
    while start < to && s[start] == c
        invariant
            from <= start <= to <= s@.len(),
            strip_front(s@.subrange(start as int, to as int), c) == strip_front(
                s@.subrange(from as int, to as int),
                c,
            ),
        decreases to - start,
    {
        assert(s@.subrange(start as int, to as int).subrange(1, to - start) == s@.subrange(
            start + 1,
            to as int,
        ));
        start = start + 1;
    }
    start
}

/// Where `s` ends without the characters `c` at its end.
fn skip_back(s: &[char], from: usize, to: usize, c: char) -> (end: usize)
    requires
        from <= to <= s@.len(),
    ensures
        from <= end <= to,
        s@.subrange(from as int, end as int) == strip_back(s@.subrange(from as int, to as int), c),
{
    let mut end: usize = to;
    while end > from && s[end - 1] == c
        invariant
            from <= end <= to <= s@.len(),
            strip_back(s@.subrange(from as int, end as int), c) == strip_back(
                s@.subrange(from as int, to as int),
                c,
            ),
        decreases end,
    {
        assert(s@.subrange(from as int, end as int).drop_last() == s@.subrange(
            from as int,
            end - 1,
        ));
        end = end - 1;
    }
    end
}

/// What follows the first occurrence of `mark`.
fn find_after(s: &[char], mark: &str) -> (rest: Option<Vec<char>>)
    ensures
        match rest {
            Some(rest) => after_first(s@, mark@) == Some(rest@),
            None => after_first(s@, mark@) is None,
        },
{
    let len: usize = mark.unicode_len();
    let mut i: usize = 0;
    assert(s@.subrange(0, s@.len() as int) == s@);
    loop
        invariant
            len == mark@.len(),
            i <= s@.len(),
            after_first(s@, mark@) == after_first(
                s@.subrange(i as int, s@.len() as int),
                mark@,
            ),
        decreases s@.len() - i,
    {
        let part: Vec<char> = slice_to_chars(s, i, s.len());
        if starts_with(part.as_slice(), mark) {
            let rest: Vec<char> = slice_to_chars(part.as_slice(), len, part.len());
            assert(rest@ == part@.skip(len as int));
            return Some(rest);
        }
        if i >= s.len() {
            return None;
        }
        assert(part@.subrange(1, part@.len() as int) == s@.subrange(i + 1, s@.len() as int));
        i = i + 1;
    }
}

/// The path inside a target, before it is normalized.
pub fn target_path(target: &str) -> (path: String)
    ensures
        path@ == raw_target(target@),
{
    let chars: Vec<char> = trim(target);
    assert(chars@.subrange(0, chars@.len() as int) == chars@);
    let start: usize = skip_front(chars.as_slice(), 0, chars.len(), '<');
    let end: usize = skip_back(chars.as_slice(), start, chars.len(), '>');
    let uri: Vec<char> = slice_to_chars(chars.as_slice(), start, end);
    let raw: Vec<char> = if starts_with(uri.as_slice(), "file://") {
        let scheme: usize = "file://".unicode_len();
        let raw: Vec<char> = slice_to_chars(uri.as_slice(), scheme, uri.len());
        assert(raw@ == uri@.skip(scheme as int));
        raw
    } else {
        match find_after(uri.as_slice(), "://") {
            Some(rest) => rest,
            None => uri,
        }
    };
    assert(raw@.subrange(0, raw@.len() as int) == raw@);
    let from: usize = skip_front(raw.as_slice(), 0, raw.len(), '/');
    text_of(slice_to_chars(raw.as_slice(), from, raw.len()).as_slice())
}

/// The path that a record asks for: its normalized target, or a stable path
/// from its number and type.
pub open spec fn wanted_path(r: RecordView, i: int, normalized: Option<Seq<char>>) -> Seq<char> {
    match (r.target, normalized) {
        (Some(_), Some(path)) => path,
        _ => "records/"@ + padded(i as nat, 8) + "-"@ + r.record_type,
    }
}

/// The path of a record that asks for `wanted` when the paths `used` are taken.
pub open spec fn free_path(wanted: Seq<char>, i: int, used: Seq<Seq<char>>) -> Result<
    Seq<char>,
    WarcFault,
> {
    let path = if used.contains(wanted) {
        wanted + "~"@ + decimal(i as nat)
    } else {
        wanted
    };
    if used.contains(path) {
        Err(
            WarcFault::Invalid {
                path: "<WARC>"@,
                message: "duplicate materialized path "@ + path,
            },
        )
    } else {
        Ok(path)
    }
}

/// The paths of the records, in order; no path is given twice.
pub open spec fn record_paths(records: Seq<RecordView>, normalized: Seq<Option<Seq<char>>>) -> Result<
    Seq<Seq<char>>,
    WarcFault,
>
    decreases records.len(),
{
    if records.len() == 0 {
        Ok(Seq::empty())
    } else {
        let i = records.len() - 1;
        match record_paths(records.drop_last(), normalized) {
            Err(fault) => Err(fault),
            Ok(used) => match free_path(
                wanted_path(records.last(), i, normalized[i]),
                i,
                used,
            ) {
                Err(fault) => Err(fault),
                Ok(path) => Ok(used.push(path)),
            },
        }
    }
}

/// Finds a path for a record.
fn record_path(
    target: &Option<String>,
    index: usize,
    record_type: &str,
    normalized: &Option<String>,
    used: &Vec<String>,
) -> (path: Result<String, WarcError>)
    ensures
        ({
            let wanted = match (*target, *normalized) {
                (Some(_), Some(path)) => path@,
                _ => "records/"@ + padded(index as nat, 8) + "-"@ + record_type@,
            };
            match (path, free_path(wanted, index as int, texts(used@))) {
                (Ok(path), Ok(spec)) => path@ == spec,
                (Err(error), Err(spec)) => error@ == spec,
                _ => false,
            }
        }),
{
    let wanted: String = match (target, normalized) {
        (Some(_), Some(path)) => path.clone(),
        _ => concat4("records/", padded_text(index as u64, 8).as_str(), "-", record_type),
    };
    let path: String = if contains_text(used, wanted.as_str()) {
        crate::text::concat3(wanted.as_str(), "~", decimal_text(index as u64).as_str())
    } else {
        wanted
    };
    if contains_text(used, path.as_str()) {
        return Err(
            invalid("<WARC>", concat2("duplicate materialized path ", path.as_str()).as_str()),
        );
    }
    Ok(path)
}

/// A record entry and where its body starts in the file.
#[derive(Debug)]
pub struct ParsedWarcRecord {
    /// The entry.
    pub entry: WarcEntry,
    /// Where the body starts.
    pub body_offset: u64,
}

/// A record entry with its texts taken as sequences.
pub struct ParsedView {
    pub entry: WarcEntryView,
    pub body_offset: int,
}

impl View for ParsedWarcRecord {
    type V = ParsedView;

    open spec fn view(&self) -> ParsedView {
        ParsedView { entry: self.entry@, body_offset: self.body_offset as int }
    }
}

/// The views of a list of record entries.
pub open spec fn parsed_views(records: Seq<ParsedWarcRecord>) -> Seq<ParsedView> {
    records.map_values(|r: ParsedWarcRecord| r@)
}

/// The views of a list of optional texts.
pub open spec fn option_views(list: Seq<Option<String>>) -> Seq<Option<Seq<char>>> {
    list.map_values(|t: Option<String>| text_option(t))
}

/// The entry of record `i`.
pub open spec fn parsed_record(r: RecordView, i: int, path: Seq<char>) -> ParsedView {
    ParsedView {
        entry: WarcEntryView { index: i, path, size: r.size, record_type: r.record_type },
        body_offset: r.body_offset,
    }
}

/// The record entries of a stream. `normalized` holds, for each record with a
/// target, what the path normalizer made of its target path; `None` where it
/// refused it.
pub open spec fn parsed(
    path: Seq<char>,
    file: Seq<u8>,
    normalized: Seq<Option<Seq<char>>>,
) -> Result<Seq<ParsedView>, WarcFault> {
    let (records, failure) = records_from(path, file, 0);
    match (record_paths(records, normalized), failure) {
        (Err(fault), _) => Err(fault),
        (Ok(_), Some(fault)) => Err(fault),
        (Ok(paths), None) => Ok(
            Seq::new(records.len(), |i: int| parsed_record(records[i], i, paths[i])),
        ),
    }
}

/// How many records the stream in `file` holds.
pub open spec fn record_count(path: Seq<char>, file: Seq<u8>) -> nat {
    records_from(path, file, 0).0.len()
}

proof fn lemma_paths_fail(records: Seq<RecordView>, normalized: Seq<Option<Seq<char>>>, k: int)
    requires
        0 <= k <= records.len(),
    ensures
        record_paths(records.take(k), normalized) matches Err(fault) ==> record_paths(
            records,
            normalized,
        ) == Err::<Seq<Seq<char>>, WarcFault>(fault),
    decreases records.len() - k,
{
    if k < records.len() {
        lemma_paths_fail(records, normalized, k + 1);
        assert(records.take(k + 1).drop_last() == records.take(k));
    } else {
        assert(records.take(k) == records);
    }
}

/// Reads the record entries of the stream in `file`. `normalized` holds, for
/// each record with a target, what the path normalizer made of its
/// [`target_path`]; `None` where it refused it.
pub fn parse_records(path: &str, file: &[u8], normalized: &Vec<Option<String>>) -> (records: Result<
    Vec<ParsedWarcRecord>,
    WarcError,
>)
    requires
        normalized@.len() >= record_count(path@, file@),
    ensures
        match (records, parsed(path@, file@, option_views(normalized@))) {
            (Ok(records), Ok(spec)) => parsed_views(records@) == spec,
            (Err(error), Err(spec)) => error@ == spec,
            _ => false,
        },
{
    let scan: WarcScan = scan_records(path, file);
    let ghost views = record_views(scan.records@);
    let ghost names = option_views(normalized@);
    let mut used: Vec<String> = Vec::new();
    let mut records: Vec<ParsedWarcRecord> = Vec::new();
    assert(views.take(0) == Seq::<RecordView>::empty());
    assert(texts(used@) =~= Seq::<Seq<char>>::empty());
    let mut i: usize = 0;
    while i < scan.records.len()
        invariant
            scan@ == records_from(path@, file@, 0),
            views == record_views(scan.records@),
            names == option_views(normalized@),
            i <= scan.records@.len() <= normalized@.len(),
            record_paths(views.take(i as int), names) == Ok::<Seq<Seq<char>>, WarcFault>(
                texts(used@),
            ),
            used@.len() == i,
            records@.len() == i,
            forall|k: int|
                0 <= k < i ==> (#[trigger] records@[k])@ == parsed_record(
                    views[k],
                    k,
                    texts(used@)[k],
                ),
        decreases scan.records@.len() - i,
    {
        let record: &ScannedRecord = &scan.records[i];
        let ghost taken = texts(used@);
        proof {
            assert(views.take(i + 1).drop_last() == views.take(i as int));
            assert(views.take(i + 1).last() == record@);
            assert(names[i as int] == text_option(normalized@[i as int]));
            lemma_paths_fail(views, names, i + 1);
        }
        let name: String = match record_path(
            &record.target,
            i,
            record.record_type.as_str(),
            &normalized[i],
            &used,
        ) {
            Ok(name) => name,
            Err(error) => {
                return Err(error);
            },
        };
        let entry = WarcEntry {
            index: i,
            path: name.clone(),
            size: record.size,
            record_type: record.record_type.clone(),
        };
        records.push(ParsedWarcRecord { entry, body_offset: record.body_offset });
        used.push(name);
        proof {
            assert(texts(used@) =~= taken.push(name@));
            assert forall|k: int| 0 <= k < i + 1 implies (#[trigger] records@[k])@ == parsed_record(
                views[k],
                k,
                texts(used@)[k],
            ) by {
                if k < i {
                    assert(taken[k] == texts(used@)[k]);
                }
            }
        }
        i = i + 1;
    }
    assert(views.take(views.len() as int) == views);
    match scan.failure {
        Some(error) => Err(error),
        None => {
            assert(parsed_views(records@) =~= parsed(path@, file@, names)->Ok_0);
            Ok(records)
        },
    }
}

/// The entries of a list of parsed records.
pub open spec fn parsed_entries(records: Seq<ParsedView>) -> Seq<WarcEntryView> {
    records.map_values(|r: ParsedView| r.entry)
}

/// The views of a listing.
pub open spec fn warc_entry_views(entries: Seq<WarcEntry>) -> Seq<WarcEntryView> {
    entries.map_values(|e: WarcEntry| e@)
}

/// Lists the records of the stream in `file`.
pub fn list(path: &str, file: &[u8], normalized: &Vec<Option<String>>) -> (entries: Result<
    Vec<WarcEntry>,
    WarcError,
>)
    requires
        normalized@.len() >= record_count(path@, file@),
    ensures
        match (entries, parsed(path@, file@, option_views(normalized@))) {
            (Ok(entries), Ok(spec)) => warc_entry_views(entries@) == parsed_entries(spec),
            (Err(error), Err(spec)) => error@ == spec,
            _ => false,
        },
{
    let records: Vec<ParsedWarcRecord> = match parse_records(path, file, normalized) {
        Ok(records) => records,
        Err(error) => {
            return Err(error);
        },
    };
    let ghost spec = parsed_views(records@);
    let mut entries: Vec<WarcEntry> = Vec::new();
    let mut i: usize = 0;
    while i < records.len()
        invariant
            spec == parsed_views(records@),
            i <= records@.len(),
            entries@.len() == i,
            forall|k: int| 0 <= k < i ==> (#[trigger] entries@[k])@ == spec[k].entry,
        decreases records@.len() - i,
    {
        let entry: &WarcEntry = &records[i].entry;
        assert(spec[i as int] == records@[i as int]@);
        entries.push(
            WarcEntry {
                index: entry.index,
                path: entry.path.clone(),
                size: entry.size,
                record_type: entry.record_type.clone(),
            },
        );
        i = i + 1;
    }
    assert(warc_entry_views(entries@) =~= parsed_entries(spec));
    Ok(entries)
}

/// Normalized WARC operation report.
pub type WarcReport = BackendReport;

/// Record `i` of a test.
pub open spec fn test_step(report: BackendView, r: ParsedView, i: int, options: TestOptions) -> Result<
    BackendView,
    WarcFault,
> {
    if options.stops_at(i) {
        Err(WarcFault::Cancelled)
    } else if !options.wants(r.entry.path) {
        Ok(report.with_skipped())
    } else {
        Ok(report.with_entry(r.entry.size))
    }
}

/// The outcome of testing the records in order.
pub open spec fn tested(records: Seq<ParsedView>, options: TestOptions) -> Result<
    BackendView,
    WarcFault,
>
    decreases records.len(),
{
    if records.len() == 0 {
        Ok(BackendView::empty())
    } else {
        match tested(records.drop_last(), options) {
            Err(fault) => Err(fault),
            Ok(report) => test_step(report, records.last(), records.len() - 1, options),
        }
    }
}

proof fn lemma_tested_fails(records: Seq<ParsedView>, options: TestOptions, k: int)
    requires
        0 <= k <= records.len(),
    ensures
        tested(records.take(k), options) matches Err(fault) ==> tested(records, options) == Err::<
            BackendView,
            WarcFault,
        >(fault),
    decreases records.len() - k,
{
    if k < records.len() {
        lemma_tested_fails(records, options, k + 1);
        assert(records.take(k + 1).drop_last() == records.take(k));
    } else {
        assert(records.take(k) == records);
    }
}

/// A report, or an error, with its texts taken as sequences.
pub open spec fn report_view(r: Result<WarcReport, WarcError>) -> Result<BackendView, WarcFault> {
    match r {
        Ok(report) => Ok(report@),
        Err(error) => Err(error@),
    }
}

/// Verifies the headers of the stream in `file` and reads the bodies of the
/// selected records.
pub fn test(
    path: &str,
    file: &[u8],
    normalized: &Vec<Option<String>>,
    options: &TestOptions,
) -> (report: Result<WarcReport, WarcError>)
    requires
        normalized@.len() >= record_count(path@, file@),
    ensures
        report_view(report) == (match parsed(path@, file@, option_views(normalized@)) {
            Err(fault) => Err(fault),
            Ok(records) => tested(records, *options),
        }),
{
    let records: Vec<ParsedWarcRecord> = match parse_records(path, file, normalized) {
        Ok(records) => records,
        Err(error) => {
            return Err(error);
        },
    };
    let ghost spec = parsed_views(records@);
    proof {
        lemma_bodies_inside(path@, file@, option_views(normalized@));
    }
    let mut report: WarcReport = BackendReport::default();
    assert(spec.take(0) == Seq::<ParsedView>::empty());
    let mut i: usize = 0;
    while i < records.len()
        invariant
            parsed(path@, file@, option_views(normalized@)) == Ok::<Seq<ParsedView>, WarcFault>(
                spec,
            ),
            spec == parsed_views(records@),
            bodies_inside(spec, file@),
            i <= records@.len(),
            tested(spec.take(i as int), *options) == Ok::<BackendView, WarcFault>(report@),
        decreases records@.len() - i,
    {
        proof {
            assert(spec.take(i + 1).drop_last() == spec.take(i as int));
            assert(spec.take(i + 1).last() == spec[i as int]);
            assert(spec[i as int] == records@[i as int]@);
            lemma_tested_fails(spec, *options, i + 1);
        }
        if options.is_cancelled(i) {
            return Err(WarcError::Cancelled);
        }
        if options.selects(records[i].entry.path.as_str()) {
            let body: Vec<u8> = match copy_body_from(path, file, &records[i]) {
                Ok(body) => body,
                Err(error) => {
                    return Err(error);
                },
            };
            report.processed(body.len() as u64);
        } else {
            report.skip();
        }
        i = i + 1;
    }
    assert(spec.take(spec.len() as int) == spec);
    Ok(report)
}

/// Whether every body lies inside the file.
pub open spec fn bodies_inside(records: Seq<ParsedView>, file: Seq<u8>) -> bool {
    forall|i: int|
        0 <= i < records.len() ==> 0 <= (#[trigger] records[i]).body_offset
            && records[i].body_offset + records[i].entry.size <= file.len()
}

proof fn lemma_records_inside(path: Seq<char>, file: Seq<u8>, pos: int, i: int)
    requires
        0 <= pos <= file.len(),
        0 <= i < records_from(path, file, pos).0.len(),
    ensures
        ({
            let r = records_from(path, file, pos).0[i];
            &&& pos < r.body_offset
            &&& r.body_offset + r.size + 4 <= file.len()
            &&& r.size <= MAX_WARC_RECORD_BYTES
            &&& file.subrange(r.body_offset + r.size, r.body_offset + r.size + 4)
                == record_separator()
            &&& i + 1 < records_from(path, file, pos).0.len() ==> r.body_offset + r.size + 4
                < records_from(path, file, pos).0[i + 1].body_offset
        }),
    decreases i,
{
    lemma_record_bounds(path, file, pos);
    if let Found::Record(r, next) = record_at(path, file, pos) {
        let rest = records_from(path, file, next).0;
        assert(records_from(path, file, pos).0 == seq![r] + rest);
        if i > 0 {
            lemma_records_inside(path, file, next, i - 1);
            assert((seq![r] + rest)[i] == rest[i - 1]);
            if i + 1 < records_from(path, file, pos).0.len() {
                assert((seq![r] + rest)[i + 1] == rest[i]);
            }
        } else if rest.len() > 0 {
            lemma_record_bounds(path, file, next);
            assert((seq![r] + rest)[1] == rest[0]);
            if let Found::Record(r2, next2) = record_at(path, file, next) {
                assert(rest == seq![r2] + records_from(path, file, next2).0);
            }
        }
    }
}

proof fn lemma_bodies_inside(path: Seq<char>, file: Seq<u8>, normalized: Seq<Option<Seq<char>>>)
    ensures
        parsed(path, file, normalized) matches Ok(records) ==> bodies_inside(records, file),
{
    if let Ok(records) = parsed(path, file, normalized) {
        assert forall|i: int| 0 <= i < records.len() implies 0 <= (
        #[trigger] records[i]).body_offset && records[i].body_offset + records[i].entry.size
            <= file.len() by {
            lemma_records_inside(path, file, 0, i);
        }
    }
}

/// The body of a record, as stored. A file that is too short for it is
/// refused.
pub fn copy_body_from(path: &str, file: &[u8], record: &ParsedWarcRecord) -> (body: Result<
    Vec<u8>,
    WarcError,
>)
    ensures
        ({
            let r = record@;
            let end = r.body_offset + r.entry.size;
            if end <= file@.len() {
                body matches Ok(body) && body@ == file@.subrange(r.body_offset, end)
            } else {
                let have: nat = if r.body_offset <= file@.len() {
                    (file@.len() - r.body_offset) as nat
                } else {
                    0
                };
                body matches Err(error) && error@ == (WarcFault::Invalid {
                    path: path@,
                    message: "record "@ + decimal(r.entry.index as nat) + " decoded to "@ + decimal(
                        have,
                    ) + " bytes, expected "@ + decimal(r.entry.size as nat),
                })
            }
        }),
{
    let len: u64 = file.len() as u64;
    let have: u64 = if record.body_offset <= len {
        len - record.body_offset
    } else {
        0
    };
    if record.body_offset > len || have < record.entry.size {
        let mut message: String = concat4(
            "record ",
            decimal_text(record.entry.index as u64).as_str(),
            " decoded to ",
            decimal_text(have).as_str(),
        );
        message.append(" bytes, expected ");
        message.append(decimal_text(record.entry.size).as_str());
        return Err(invalid(path, message.as_str()));
    }
    let from: usize = record.body_offset as usize;
    Ok(copy_range(file, from, from + record.entry.size as usize))
}

/// The bytes of a record, or an error, with its texts taken as sequences.
pub open spec fn body_view(r: Result<Vec<u8>, WarcError>) -> Result<Seq<u8>, WarcFault> {
    match r {
        Ok(body) => Ok(body@),
        Err(error) => Err(error@),
    }
}

/// The body of record `i` of a parsed stream.
pub open spec fn body_of(records: Seq<ParsedView>, file: Seq<u8>, i: int) -> Seq<u8> {
    file.subrange(records[i].body_offset, records[i].body_offset + records[i].entry.size)
}

/// Copies the body of the record with a given number.
pub fn copy(
    path: &str,
    file: &[u8],
    normalized: &Vec<Option<String>>,
    entry_index: usize,
) -> (body: Result<Vec<u8>, WarcError>)
    requires
        normalized@.len() >= record_count(path@, file@),
    ensures
        body_view(body) == (match parsed(path@, file@, option_views(normalized@)) {
            Err(fault) => Err(fault),
            Ok(records) => if entry_index < records.len() {
                Ok(body_of(records, file@, entry_index as int))
            } else {
                Err(
                    WarcFault::Invalid {
                        path: path@,
                        message: "retained WARC entry ID is not present"@,
                    },
                )
            },
        }),
{
    let records: Vec<ParsedWarcRecord> = match parse_records(path, file, normalized) {
        Ok(records) => records,
        Err(error) => {
            return Err(error);
        },
    };
    if entry_index >= records.len() {
        return Err(invalid(path, "retained WARC entry ID is not present"));
    }
    proof {
        lemma_bodies_inside(path@, file@, option_views(normalized@));
        let spec = parsed_views(records@);
        assert(spec[entry_index as int] == records@[entry_index as int]@);
    }
    copy_body_from(path, file, &records[entry_index])
}

/// How many of the first `k` records have the path `path`.
pub open spec fn occurrences(records: Seq<ParsedView>, path: Seq<char>, k: int) -> int
    decreases k,
{
    if k <= 0 {
        0
    } else {
        occurrences(records, path, k - 1) + if records[k - 1].entry.path == path {
            1int
        } else {
            0int
        }
    }
}

/// Whether record `i` is the occurrence `n` of the path `path`, counting from
/// zero.
pub open spec fn is_occurrence(records: Seq<ParsedView>, path: Seq<char>, n: int, i: int) -> bool {
    &&& 0 <= i < records.len()
    &&& records[i].entry.path == path
    &&& occurrences(records, path, i) == n
}

proof fn lemma_occurrences(records: Seq<ParsedView>, path: Seq<char>, j: int, k: int)
    requires
        0 <= j <= k <= records.len(),
    ensures
        0 <= occurrences(records, path, j) <= occurrences(records, path, k),
        j < k && records[j].entry.path == path ==> occurrences(records, path, j) < occurrences(
            records,
            path,
            k,
        ),
    decreases k,
{
    if j < k {
        lemma_occurrences(records, path, j, k - 1);
    } else if k > 0 {
        lemma_occurrences(records, path, j - 1, k - 1);
    }
}

/// Copies the body of the record with a given path, by the number of its
/// occurrence.
pub fn copy_by_path_occurrence(
    path: &str,
    file: &[u8],
    normalized: &Vec<Option<String>>,
    selected_path: &str,
    selected_occurrence: usize,
) -> (body: Result<Vec<u8>, WarcError>)
    requires
        normalized@.len() >= record_count(path@, file@),
    ensures
        match parsed(path@, file@, option_views(normalized@)) {
            Err(fault) => body_view(body) == Err::<Seq<u8>, WarcFault>(fault),
            Ok(records) => {
                let n = selected_occurrence as int;
                &&& (forall|i: int| !is_occurrence(records, selected_path@, n, i)) ==> body_view(
                    body,
                ) == Err::<Seq<u8>, WarcFault>(
                    WarcFault::Invalid {
                        path: path@,
                        message: "retained WARC entry is not present"@,
                    },
                )
                &&& forall|i: int| #[trigger]
                    is_occurrence(records, selected_path@, n, i) ==> body_view(body) == Ok::<
                        Seq<u8>,
                        WarcFault,
                    >(body_of(records, file@, i))
            },
        },
{
    let records: Vec<ParsedWarcRecord> = match parse_records(path, file, normalized) {
        Ok(records) => records,
        Err(error) => {
            return Err(error);
        },
    };
    let ghost spec = parsed_views(records@);
    let ghost n = selected_occurrence as int;
    let mut seen: usize = 0;
    let mut i: usize = 0;
    while i < records.len()
        invariant
            normalized@.len() >= record_count(path@, file@),
            parsed(path@, file@, option_views(normalized@)) == Ok::<Seq<ParsedView>, WarcFault>(
                spec,
            ),
            spec == parsed_views(records@),
            n == selected_occurrence,
            i <= records@.len(),
            seen == occurrences(spec, selected_path@, i as int),
            seen <= i,
            forall|k: int| 0 <= k < i ==> !is_occurrence(spec, selected_path@, n, k),
        decreases records@.len() - i,
    {
        assert(spec[i as int] == records@[i as int]@);
        if same_text(records[i].entry.path.as_str(), selected_path) {
            if seen == selected_occurrence {
                proof {
                    assert(is_occurrence(spec, selected_path@, n, i as int));
                    assert forall|k: int| #[trigger]
                        is_occurrence(spec, selected_path@, n, k) implies k == i by {
                        if k < i {
                            lemma_occurrences(spec, selected_path@, k, i as int);
                        } else if k > i {
                            lemma_occurrences(spec, selected_path@, i as int, k);
                        }
                    }
                }
                return copy(path, file, normalized, i);
            }
            seen = seen + 1;
        }
        i = i + 1;
    }
    Err(invalid(path, "retained WARC entry is not present"))
}

/// What the caller found and did when an extraction came to a record.
#[derive(Debug)]
pub struct RecordAnswer {
    /// Whether the job was cancelled by then.
    pub cancelled: bool,
    /// What the safety planner decided.
    pub decision: EntryDecision,
    /// What came of writing the body.
    pub written: RecordOutcome,
}

/// What came of writing the body of a record.
#[derive(Debug)]
pub enum RecordOutcome {
    /// It was written and put in place.
    Done,
    /// Copying the body failed.
    CopyFailed(IoFailure),
    /// The destination could not be made or put in place.
    DestinationFailed(IoFailure),
}

/// One more record of an extraction.
pub open spec fn extract_step(
    path: Seq<char>,
    report: BackendView,
    r: ParsedView,
    a: RecordAnswer,
) -> Result<BackendView, WarcFault> {
    if a.cancelled {
        Err(WarcFault::Cancelled)
    } else {
        match a.decision {
            EntryDecision::Rejected(m) => Err(WarcFault::Safety(m@)),
            EntryDecision::Skip { warning } => Ok(report.with_skipped()),
            EntryDecision::Write { destination, replace_existing } => match a.written {
                RecordOutcome::Done => Ok(report.with_entry(r.entry.size)),
                RecordOutcome::CopyFailed(m) => Err(WarcFault::Io { path, source: m@ }),
                RecordOutcome::DestinationFailed(m) => Err(
                    WarcFault::Io { path: destination@, source: m@ },
                ),
            },
        }
    }
}

/// Whether an extraction ends at a record, once what was asked of the caller for it is
/// done.
pub fn record_stops(answer: &RecordAnswer) -> (stops: bool)
    ensures
        forall|path: Seq<char>, report: BackendView, r: ParsedView|
            stops == (#[trigger] extract_step(path, report, r, *answer) is Err),
{
    if answer.cancelled {
        return true;
    }
    match &answer.decision {
        EntryDecision::Rejected(_) => true,
        EntryDecision::Skip { warning: _ } => false,
        EntryDecision::Write { .. } => match &answer.written {
            RecordOutcome::Done => false,
            RecordOutcome::CopyFailed(_) => true,
            RecordOutcome::DestinationFailed(_) => true,
        },
    }
}

/// The outcome of extracting the records in order. Where the answers end, the job was
/// cancelled.
pub open spec fn extracted(
    path: Seq<char>,
    records: Seq<ParsedView>,
    answers: Seq<RecordAnswer>,
) -> Result<BackendView, WarcFault>
    decreases records.len(),
{
    if records.len() == 0 {
        Ok(BackendView::empty())
    } else {
        match extracted(path, records.drop_last(), answers) {
            Err(fault) => Err(fault),
            Ok(report) => if records.len() > answers.len() {
                Err(WarcFault::Cancelled)
            } else {
                extract_step(path, report, records.last(), answers[records.len() - 1])
            },
        }
    }
}

proof fn lemma_extracted_fails(
    path: Seq<char>,
    records: Seq<ParsedView>,
    answers: Seq<RecordAnswer>,
    k: int,
)
    requires
        0 <= k <= records.len(),
    ensures
        extracted(path, records.take(k), answers) matches Err(fault) ==> extracted(
            path,
            records,
            answers,
        ) == Err::<BackendView, WarcFault>(fault),
    decreases records.len() - k,
{
    if k < records.len() {
        lemma_extracted_fails(path, records, answers, k + 1);
        assert(records.take(k + 1).drop_last() == records.take(k));
    } else {
        assert(records.take(k) == records);
    }
}

/// Extracts the record bodies. `root` says whether the destination could be prepared,
/// and `answers` holds what the caller found and did for each record, in order.
pub fn extract(
    path: &str,
    file: &[u8],
    normalized: &Vec<Option<String>>,
    destination: &str,
    root: &Result<(), IoFailure>,
    answers: &Vec<RecordAnswer>,
) -> (report: Result<WarcReport, WarcError>)
    requires
        normalized@.len() >= record_count(path@, file@),
    ensures
        report_view(report) == (match (*root, parsed(path@, file@, option_views(normalized@))) {
            (Err(failure), _) => Err(WarcFault::Io { path: destination@, source: failure@ }),
            (Ok(_), Err(fault)) => Err(fault),
            (Ok(_), Ok(records)) => extracted(path@, records, answers@),
        }),
{
    match root {
        Ok(_) => {},
        Err(failure) => {
            return Err(io_failed(destination, failure));
        },
    }
    let records: Vec<ParsedWarcRecord> = match parse_records(path, file, normalized) {
        Ok(records) => records,
        Err(error) => {
            return Err(error);
        },
    };
    let ghost spec = parsed_views(records@);
    let mut report: WarcReport = BackendReport::default();
    assert(spec.take(0) == Seq::<ParsedView>::empty());
    let mut i: usize = 0;
    while i < records.len()
        invariant
            parsed(path@, file@, option_views(normalized@)) == Ok::<Seq<ParsedView>, WarcFault>(
                spec,
            ),
            spec == parsed_views(records@),
            i <= records@.len(),
            root is Ok,
            extracted(path@, spec.take(i as int), answers@) == Ok::<BackendView, WarcFault>(
                report@,
            ),
        decreases records@.len() - i,
    {
        proof {
            assert(spec.take(i + 1).drop_last() == spec.take(i as int));
            assert(spec.take(i + 1).last() == spec[i as int]);
            assert(spec[i as int] == records@[i as int]@);
            lemma_extracted_fails(path@, spec, answers@, i + 1);
        }
        if i >= answers.len() {
            return Err(WarcError::Cancelled);
        }
        let answer: &RecordAnswer = &answers[i];
        if answer.cancelled {
            return Err(WarcError::Cancelled);
        }
        match &answer.decision {
            EntryDecision::Rejected(m) => {
                return Err(WarcError::Safety(m.clone()));
            },
            EntryDecision::Skip { warning: _ } => {
                report.skip();
            },
            EntryDecision::Write { destination, replace_existing: _ } => {
                match &answer.written {
                    RecordOutcome::Done => {
                        report.processed(records[i].entry.size);
                    },
                    RecordOutcome::CopyFailed(m) => {
                        return Err(io_failed(path, m));
                    },
                    RecordOutcome::DestinationFailed(m) => {
                        return Err(io_failed(destination.as_str(), m));
                    },
                }
            },
        }
        i = i + 1;
    }
    assert(spec.take(spec.len() as int) == spec);
    Ok(report)
}

/// No two records of a stream are materialized at the same path.
pub proof fn law_record_paths_are_distinct(
    records: Seq<RecordView>,
    normalized: Seq<Option<Seq<char>>>,
    i: int,
    j: int,
)
    ensures
        record_paths(records, normalized) matches Ok(paths) ==> paths.len() == records.len() && (0
            <= i < j < paths.len() ==> paths[i] != paths[j]),
    decreases records.len(),
{
    if records.len() > 0 {
        law_record_paths_are_distinct(records.drop_last(), normalized, i, j);
        if let Ok(paths) = record_paths(records, normalized) {
            let used = record_paths(records.drop_last(), normalized)->Ok_0;
            law_record_paths_are_distinct(records.drop_last(), normalized, 0, 0);
            if 0 <= i < j == paths.len() - 1 {
                assert(used[i] == paths[i]);
                assert(used.contains(paths[i]));
            }
        }
    }
}

/// Every record is an entry of its own number, its body holds exactly as many
/// bytes as its header declares, and the record separator follows it; bodies
/// come in order and do not overlap.
pub proof fn law_bodies_are_as_stored(
    path: Seq<char>,
    file: Seq<u8>,
    normalized: Seq<Option<Seq<char>>>,
    i: int,
)
    ensures
        parsed(path, file, normalized) matches Ok(records) ==> 0 <= i < records.len() ==> {
            let end = records[i].body_offset + records[i].entry.size;
            &&& records[i].entry.index == i
            &&& 0 < records[i].body_offset
            &&& end + 4 <= file.len()
            &&& body_of(records, file, i).len() == records[i].entry.size
            &&& file.subrange(end, end + 4) == record_separator()
            &&& i + 1 < records.len() ==> end + 4 < records[i + 1].body_offset
        },
{
    if let Ok(records) = parsed(path, file, normalized) {
        if 0 <= i < records.len() {
            lemma_records_inside(path, file, 0, i);
        }
    }
}

/// A successful test accounts for every record: it was tested or not selected.
pub proof fn law_tests_account_for_every_record(records: Seq<ParsedView>, options: TestOptions)
    requires
        records.len() <= usize::MAX,
    ensures
        tested(records, options) matches Ok(r) ==> r.entries + r.skipped_entries == records.len(),
    decreases records.len(),
{
    if records.len() > 0 {
        law_tests_account_for_every_record(records.drop_last(), options);
    }
}

/// Whether a text is made of ASCII letters.
pub open spec fn all_letters(s: Seq<char>) -> bool {
    forall|k: int|
        0 <= k < s.len() ==> ('a' <= #[trigger] s[k] && s[k] <= 'z') || ('A' <= s[k] && s[k]
            <= 'Z')
}

proof fn lemma_after_scheme(scheme: Seq<char>, rest: Seq<char>)
    requires
        all_letters(scheme),
    ensures
        after_first(scheme + "://"@ + rest, "://"@) == Some(rest),
    decreases scheme.len(),
{
    reveal_strlit("://");
    let mark = "://"@;
    let s = scheme + mark + rest;
    if scheme.len() == 0 {
        assert(s.take(3) =~= mark);
        assert(s.skip(3) =~= rest);
    } else {
        assert(s[0] == scheme[0]);
        assert(s.take(3)[0] == scheme[0]);
        assert(!has_prefix(s, mark));
        let tail = scheme.subrange(1, scheme.len() as int);
        assert forall|k: int| 0 <= k < tail.len() implies ('a' <= #[trigger] tail[k] && tail[k]
            <= 'z') || ('A' <= tail[k] && tail[k] <= 'Z') by {
            assert(tail[k] == scheme[k + 1]);
        }
        assert(s.subrange(1, s.len() as int) =~= tail + mark + rest);
        lemma_after_scheme(tail, rest);
    }
}

proof fn lemma_file_scheme(scheme: Seq<char>, rest: Seq<char>)
    requires
        all_letters(scheme),
        has_prefix(scheme + "://"@ + rest, "file://"@),
    ensures
        (scheme + "://"@ + rest).skip("file://"@.len() as int) == rest,
{
    reveal_strlit("://");
    reveal_strlit("file://");
    let t = scheme + "://"@ + rest;
    let file = "file://"@;
    let n = scheme.len() as int;
    assert(t.take(7)[4] == t[4] && file[4] == ':');
    assert(t[n] == ':');
    if n < 4 {
        assert(t.take(7)[n] == t[n]);
        assert(file[0] == 'f' && file[1] == 'i' && file[2] == 'l' && file[3] == 'e');
    } else if n > 4 {
        assert(t[4] == scheme[4]);
    }
    assert(t.skip(7) =~= rest);
}

proof fn lemma_bare_target(scheme: Seq<char>, rest: Seq<char>)
    requires
        all_letters(scheme),
        rest.len() > 0,
        rest.last() != '>',
        !is_space(rest.last()),
    ensures
        ({
            let t = scheme + "://"@ + rest;
            &&& t.len() > 0
            &&& !is_space(t[0])
            &&& t[0] != '<'
            &&& t.last() == rest.last()
            &&& raw_target(t) == strip_front(rest, '/')
        }),
{
    reveal_strlit("://");
    let t = scheme + "://"@ + rest;
    assert(t.last() == rest.last());
    if scheme.len() > 0 {
        assert(t[0] == scheme[0]);
    } else {
        assert(t[0] == ':');
    }
    assert(trim_start(t) == t && trim_end(t) == t);
    assert(strip_front(t, '<') == t && strip_back(t, '>') == t);
    lemma_after_scheme(scheme, rest);
    if has_prefix(t, "file://"@) {
        lemma_file_scheme(scheme, rest);
    }
}

/// A target loses its scheme, whichever it is: what remains is what follows `://`, and
/// two targets that differ in their schemes alone give the same path.
pub proof fn law_targets_lose_their_scheme(scheme: Seq<char>, rest: Seq<char>)
    requires
        all_letters(scheme),
        rest.len() > 0,
        rest[0] != '/',
        rest.last() != '>',
        !is_space(rest.last()),
    ensures
        raw_target(scheme + "://"@ + rest) == rest,
{
    lemma_bare_target(scheme, rest);
}

/// Slashes at its front do not belong to the path of a target.
pub proof fn law_targets_lose_their_leading_slashes(
    scheme: Seq<char>,
    slashes: nat,
    rest: Seq<char>,
)
    requires
        all_letters(scheme),
        rest.len() > 0,
        rest[0] != '/',
        rest.last() != '>',
        !is_space(rest.last()),
    ensures
        raw_target(scheme + "://"@ + (repeated('/', slashes) + rest)) == rest,
{
    let more = repeated('/', slashes) + rest;
    assert(more.last() == rest.last());
    lemma_bare_target(scheme, more);
    lemma_strip_repeated(slashes, rest);
}

/// A pair of angle brackets around a target does not show.
pub proof fn law_angle_brackets_around_a_target_do_not_show(scheme: Seq<char>, rest: Seq<char>)
    requires
        all_letters(scheme),
        rest.len() > 0,
        rest[0] != '/',
        rest.last() != '>',
        !is_space(rest.last()),
    ensures
        raw_target(seq!['<'] + (scheme + "://"@ + rest) + seq!['>']) == rest,
{
    let t = scheme + "://"@ + rest;
    lemma_bare_target(scheme, rest);
    let wrapped = seq!['<'] + t + seq!['>'];
    let open = t + seq!['>'];
    assert(wrapped[0] == '<' && wrapped.last() == '>');
    assert(trim_start(wrapped) == wrapped && trim_end(wrapped) == wrapped);
    assert(wrapped.subrange(1, wrapped.len() as int) =~= open);
    assert(open[0] == t[0] && open.last() == '>');
    assert(strip_front(open, '<') == open);
    assert(strip_front(wrapped, '<') == open);
    assert(open.drop_last() =~= t);
    assert(strip_back(t, '>') == t);
    assert(strip_back(open, '>') == t);
    assert(trim_start(t) == t && trim_end(t) == t);
    assert(strip_front(t, '<') == t);
}

/// White space around a target does not show.
pub proof fn law_spaces_around_a_target_do_not_show(
    before: char,
    scheme: Seq<char>,
    rest: Seq<char>,
    after: char,
)
    requires
        all_letters(scheme),
        rest.len() > 0,
        rest[0] != '/',
        rest.last() != '>',
        !is_space(rest.last()),
        is_space(before),
        is_space(after),
    ensures
        raw_target(seq![before] + (scheme + "://"@ + rest) + seq![after]) == rest,
{
    let t = scheme + "://"@ + rest;
    lemma_bare_target(scheme, rest);
    let spaced = seq![before] + t + seq![after];
    let tail = t + seq![after];
    assert(spaced[0] == before);
    assert(spaced.subrange(1, spaced.len() as int) =~= tail);
    assert(tail[0] == t[0] && tail.last() == after);
    assert(trim_start(tail) == tail);
    assert(trim_start(spaced) == tail);
    assert(tail.drop_last() =~= t);
    assert(trim_end(t) == t);
    assert(trim_end(tail) == t);
    assert(trim_start(t) == t);
}

/// A text of `count` times the same character.
pub open spec fn repeated(c: char, count: nat) -> Seq<char> {
    Seq::new(count, |i: int| c)
}

proof fn lemma_strip_repeated(count: nat, rest: Seq<char>)
    requires
        rest.len() > 0,
        rest[0] != '/',
    ensures
        strip_front(repeated('/', count) + rest, '/') == rest,
    decreases count,
{
    let s = repeated('/', count) + rest;
    if count == 0 {
        assert(s =~= rest);
    } else {
        assert(s[0] == '/');
        assert(s.subrange(1, s.len() as int) =~= repeated('/', (count - 1) as nat) + rest);
        lemma_strip_repeated((count - 1) as nat, rest);
    }
}

/// The body of a line that ends with a carriage return and a line feed is read back,
/// and the next line begins behind them.
pub proof fn law_lines_are_read_back(before: Seq<u8>, line: Seq<u8>, after: Seq<u8>)
    requires
        !line.contains(10),
        line.len() > 0 ==> line.last() != 13,
    ensures
        line_end(before + line + seq![13u8, 10u8] + after, before.len() as int) == before.len()
            + line.len() + 2,
        line_at(before + line + seq![13u8, 10u8] + after, before.len() as int) == line,
{
    let file = before + line + seq![13u8, 10u8] + after;
    let ended = line + seq![13u8, 10u8];
    let start = before.len() as int;
    let end = start + line.len();
    assert forall|k: int| start <= k < end implies file[k] != 10 by {
        assert(file[k] == line[k - start]);
        assert(line.contains(line[k - start]));
    }
    assert(file[end] == 13 && file[end + 1] == 10);
    lemma_line_end_is(file, start, end + 1);
    assert(file.subrange(start, end + 2) =~= ended);
    assert(ended.drop_last() =~= line.push(13));
    assert(line.push(13).drop_last() =~= line);
    assert(ended.last() == 10);
    assert(stripped(ended) == stripped(line.push(13)));
    assert(stripped(line.push(13)) == stripped(line));
}

proof fn lemma_line_end_is(file: Seq<u8>, pos: int, at: int)
    requires
        0 <= pos <= at < file.len(),
        file[at] == 10,
        forall|k: int| pos <= k < at ==> file[k] != 10,
    ensures
        line_end(file, pos) == at + 1,
    decreases at - pos,
{
    if pos < at {
        lemma_line_end_is(file, pos + 1, at);
    }
}

/// A header is split at its first colon: what stands before it is the name, in lower
/// case, and what stands behind it and one space is the value.
pub proof fn law_headers_are_split_at_the_colon(name: Seq<u8>, value: Seq<u8>)
    requires
        !name.contains(58),
        value.len() > 0,
        !is_ascii_space(value[0]),
        !is_ascii_space(value.last()),
        valid_utf8(value),
    ensures
        header_of(name + seq![58u8, 32u8] + value) == Ok::<(Seq<char>, Seq<char>), Seq<char>>(
            (lower_all(lossy_utf8(name)), decode_utf8(value)),
        ),
{
    let line = name + seq![58u8, 32u8] + value;
    lemma_colon_at_is(name, seq![32u8] + value);
    assert(line =~= name + seq![58u8] + (seq![32u8] + value));
    assert(line.take(name.len() as int) =~= name);
    let tail = line.subrange((name.len() + 1) as int, line.len() as int);
    assert(tail =~= seq![32u8] + value);
    assert(tail[0] == 32);
    assert(tail.subrange(1, tail.len() as int) =~= value);
    assert(ascii_trim_start(tail) == ascii_trim_start(value));
    assert(ascii_trim_start(value) == value);
    assert(ascii_trim_end(value) == value);
}

proof fn lemma_colon_at_is(name: Seq<u8>, rest: Seq<u8>)
    requires
        !name.contains(58),
    ensures
        colon_at(name + seq![58u8] + rest) == name.len(),
    decreases name.len(),
{
    let line = name + seq![58u8] + rest;
    if name.len() > 0 {
        assert(line[0] == name[0]);
        assert(name.contains(name[0]));
        let tail = name.subrange(1, name.len() as int);
        assert forall|k: int| 0 <= k < tail.len() implies tail[k] != 58 by {
            assert(tail[k] == name[k + 1]);
            assert(name.contains(name[k + 1]));
        }
        assert(line.subrange(1, line.len() as int) =~= tail + seq![58u8] + rest);
        lemma_colon_at_is(tail, rest);
    } else {
        assert(line[0] == 58);
    }
}

/// Each header that matters sets its own field and no other, and every other header
/// sets none.
pub proof fn law_headers_set_their_own_field(h: HeaderView, name: Seq<char>, value: Seq<char>)
    ensures
        apply_header(h, name, value) matches Ok(after) ==> {
            &&& after.record_type == (if name == "warc-type"@ {
                Some(value)
            } else {
                h.record_type
            })
            &&& after.target == (if name == "warc-target-uri"@ {
                Some(value)
            } else {
                h.target
            })
            &&& name != "content-length"@ ==> after.length == h.length
            &&& name == "content-length"@ ==> after.length is Some
        },
        apply_header(h, name, value) is Err ==> name == "content-length"@,
{
    reveal_strlit("warc-type");
    reveal_strlit("warc-target-uri");
    reveal_strlit("content-length");
    assert("warc-type"@.len() != "content-length"@.len());
    assert("warc-target-uri"@.len() != "content-length"@.len());
    assert("warc-target-uri"@.len() != "warc-type"@.len());
}

/// A length that is written in decimal digits is read back as the number.
pub proof fn law_declared_lengths_are_read_back(h: HeaderView, length: u64)
    ensures
        apply_header(h, "content-length"@, decimal(length as nat)) matches Ok(after)
            && after.length == Some(length),
{
    reveal_strlit("warc-type");
    reveal_strlit("warc-target-uri");
    reveal_strlit("content-length");
    lemma_decimal_round_trip(length as nat);
    let digits = decimal(length as nat);
    assert(is_digit(digits[0]));
    assert(digits[0] != '+');
    assert(unsigned_digits(digits) == digits);
    assert("content-length"@.len() != "warc-type"@.len());
    assert("content-length"@.len() != "warc-target-uri"@.len());
    assert(parse_unsigned(digits, u64::MAX as nat) == Some(length as nat));
}

/// A record is found where a version line, its headers, its body and two line ends
/// follow each other: its body begins behind the headers and is as long as declared,
/// and the next record begins behind the line ends. A body of more than 512 MiB is
/// refused.
pub proof fn law_complete_records_are_found(
    path: Seq<char>,
    file: Seq<u8>,
    pos: int,
    line: Seq<u8>,
    after: int,
    h: HeaderView,
    body: int,
)
    requires
        0 <= body,
        file.len() <= u64::MAX,
        first_line(file, pos) == Some((line, after)),
        headers_at(
            file,
            after,
            HeaderView { record_type: None, target: None, length: None },
        ) == Ok::<(HeaderView, int), Seq<char>>((h, body)),
        h.record_type is Some,
        h.length is Some,
        body + h.length->0 + 4 <= file.len(),
    ensures
        ({
            let size = h.length->0;
            let end = body + size;
            let found = record_at(path, file, pos);
            if line.len() >= 5 && line[0] == 87 && line[1] == 65 && line[2] == 82 && line[3] == 67
                && line[4] == 47 && size <= 0x2000_0000 && file[end] == 13 && file[end + 1] == 10
                && file[end + 2] == 13 && file[end + 3] == 10 {
                found matches Found::Record(record, next) && record.record_type
                    == h.record_type->0 && record.target == h.target && record.size == size
                    && record.body_offset == body && next == end + 4
            } else {
                found is Fault
            }
        }),
{
    let end = body + h.length->0;
    let tail = file.subrange(end, end + 4);
    assert(tail[0] == file[end] && tail[1] == file[end + 1] && tail[2] == file[end + 2] && tail[3]
        == file[end + 3]);
    if file[end] == 13 && file[end + 1] == 10 && file[end + 2] == 13 && file[end + 3] == 10 {
        assert(tail =~= record_separator());
    } else {
        let wanted = record_separator();
        assert(wanted[0] == 13 && wanted[1] == 10 && wanted[2] == 13 && wanted[3] == 10);
    }
    if line.len() >= 5 {
        let head = line.take(5);
        let version = seq![87u8, 65u8, 82u8, 67u8, 47u8];
        assert(head[0] == line[0] && head[1] == line[1] && head[2] == line[2] && head[3] == line[3]
            && head[4] == line[4]);
        assert(version[0] == 87 && version[1] == 65 && version[2] == 82 && version[3] == 67
            && version[4] == 47);
        if head[0] == 87 && head[1] == 65 && head[2] == 82 && head[3] == 67 && head[4] == 47 {
            assert(head =~= version);
        }
    }
}

/// The records of a stream are those that are found one behind the other.
pub proof fn law_records_follow_each_other(
    path: Seq<char>,
    file: Seq<u8>,
    pos: int,
    record: RecordView,
    next: int,
)
    requires
        record_at(path, file, pos) == Found::Record(record, next),
        pos < next <= file.len(),
    ensures
        records_from(path, file, pos).0.len() == 1 + records_from(path, file, next).0.len(),
        records_from(path, file, pos).0[0] == record,
        records_from(path, file, pos).0.skip(1) == records_from(path, file, next).0,
        records_from(path, file, pos).1 == records_from(path, file, next).1,
{
    let rest = records_from(path, file, next).0;
    assert((seq![record] + rest).skip(1) =~= rest);
}

proof fn lemma_zero_digits(count: nat, digits: Seq<char>)
    requires
        all_digits(digits),
    ensures
        all_digits(zero_digits(count) + digits),
        digits_value(zero_digits(count) + digits) == digits_value(digits),
    decreases count + digits.len(),
{
    let s = zero_digits(count) + digits;
    if digits.len() > 0 {
        assert(s.drop_last() =~= zero_digits(count) + digits.drop_last());
        assert forall|k: int| 0 <= k < digits.drop_last().len() implies is_digit(
            #[trigger] digits.drop_last()[k],
        ) by {
            assert(is_digit(digits[k]));
        }
        lemma_zero_digits(count, digits.drop_last());
        assert(s.last() == digits.last());
    } else if count > 0 {
        assert(s.drop_last() =~= zero_digits((count - 1) as nat) + digits);
        lemma_zero_digits((count - 1) as nat, digits);
        assert(s.last() == '0');
    }
    assert forall|k: int| 0 <= k < s.len() implies is_digit(#[trigger] s[k]) by {
        if k >= count {
            assert(s[k] == digits[k - count]);
        } else {
            assert(s[k] == '0');
        }
    }
}

/// A record with a usable target asks for its path. A record without one asks for a
/// path below `records/` that holds its number, in at least eight digits, and its type.
pub proof fn law_records_ask_for_their_target_or_their_number(
    r: RecordView,
    i: int,
    normalized: Option<Seq<char>>,
)
    requires
        0 <= i,
    ensures
        r.target is Some && normalized is Some ==> wanted_path(r, i, normalized) == normalized->0,
        r.target is None || normalized is None ==> exists|number: Seq<char>|
            {
                &&& #[trigger] digits_value(number) == i
                &&& all_digits(number)
                &&& number.len() >= 8
                &&& wanted_path(r, i, normalized) == "records/"@ + number + "-"@ + r.record_type
            },
{
    let digits = decimal(i as nat);
    lemma_decimal_round_trip(i as nat);
    if digits.len() < 8 {
        lemma_zero_digits((8 - digits.len()) as nat, digits);
    }
    assert(digits_value(padded(i as nat, 8)) == i);
}

/// A record gets the path that it asks for unless an earlier record has it already;
/// then a `~` and the number of the record are put behind it.
pub proof fn law_records_get_the_path_they_ask_for(
    records: Seq<RecordView>,
    normalized: Seq<Option<Seq<char>>>,
    paths: Seq<Seq<char>>,
    i: int,
)
    requires
        record_paths(records, normalized) == Ok::<Seq<Seq<char>>, WarcFault>(paths),
        0 <= i < records.len(),
    ensures
        paths.len() == records.len(),
        ({
            let wanted = wanted_path(records[i], i, normalized[i]);
            if forall|j: int| 0 <= j < i ==> #[trigger] paths[j] != wanted {
                paths[i] == wanted
            } else {
                exists|number: Seq<char>|
                    {
                        &&& #[trigger] digits_value(number) == i
                        &&& all_digits(number)
                        &&& paths[i] == wanted + "~"@ + number
                    }
            }
        }),
    decreases records.len(),
{
    let used = record_paths(records.drop_last(), normalized)->Ok_0;
    lemma_record_paths_len(records.drop_last(), normalized);
    if i < records.len() - 1 {
        law_records_get_the_path_they_ask_for(records.drop_last(), normalized, used, i);
        assert forall|j: int| 0 <= j <= i implies #[trigger] paths[j] == used[j] by {}
        let wanted = wanted_path(records[i], i, normalized[i]);
        if forall|j: int| 0 <= j < i ==> #[trigger] paths[j] != wanted {
            assert forall|j: int| 0 <= j < i implies #[trigger] used[j] != wanted by {
                assert(paths[j] == used[j]);
            }
        } else {
            let j = choose|j: int| 0 <= j < i && #[trigger] paths[j] == wanted;
            assert(used[j] == wanted);
        }
    } else {
        let wanted = wanted_path(records[i], i, normalized[i]);
        if used.contains(wanted) {
            let j = choose|j: int| 0 <= j < used.len() && used[j] == wanted;
            assert(paths[j] == wanted);
            lemma_decimal_round_trip(i as nat);
            assert(digits_value(decimal(i as nat)) == i);
        } else {
            assert forall|j: int| 0 <= j < i implies #[trigger] paths[j] != wanted by {
                assert(paths[j] == used[j]);
            }
        }
    }
}

proof fn lemma_record_paths_len(records: Seq<RecordView>, normalized: Seq<Option<Seq<char>>>)
    ensures
        record_paths(records, normalized) matches Ok(paths) ==> paths.len() == records.len(),
    decreases records.len(),
{
    if records.len() > 0 {
        lemma_record_paths_len(records.drop_last(), normalized);
    }
}

/// The bytes of the wanted ones among the first `n` records.
pub open spec fn wanted_bytes(records: Seq<ParsedView>, options: TestOptions, n: nat) -> int
    decreases n,
{
    if n == 0 {
        0
    } else {
        wanted_bytes(records, options, (n - 1) as nat) + (if options.wants(
            records[n - 1].entry.path,
        ) {
            records[n - 1].entry.size as int
        } else {
            0
        })
    }
}

/// A test counts the bytes of every wanted record, leaves out the others, and warns of
/// nothing.
pub proof fn law_tests_count_the_wanted_bytes(
    records: Seq<ParsedView>,
    options: TestOptions,
    report: BackendView,
)
    requires
        tested(records, options) == Ok::<BackendView, WarcFault>(report),
        records.len() <= usize::MAX,
        wanted_bytes(records, options, records.len()) <= u64::MAX,
    ensures
        report.bytes == wanted_bytes(records, options, records.len()),
        report.entries == records.filter(|r: ParsedView| options.wants(r.entry.path)).len(),
        report.entries + report.skipped_entries == records.len(),
        report.warnings.len() == 0,
    decreases records.len(),
{
    reveal(Seq::filter);
    if records.len() > 0 {
        let head = records.drop_last();
        let before = tested(head, options)->Ok_0;
        lemma_wanted_bytes(records, head, options, head.len());
        lemma_wanted_bytes_grow(records, options, records.len());
        law_tests_count_the_wanted_bytes(head, options, before);
    }
}

proof fn lemma_wanted_bytes(
    records: Seq<ParsedView>,
    head: Seq<ParsedView>,
    options: TestOptions,
    n: nat,
)
    requires
        n <= head.len() <= records.len(),
        head == records.take(head.len() as int),
    ensures
        wanted_bytes(records, options, n) == wanted_bytes(head, options, n),
    decreases n,
{
    if n > 0 {
        lemma_wanted_bytes(records, head, options, (n - 1) as nat);
    }
}

proof fn lemma_wanted_bytes_grow(records: Seq<ParsedView>, options: TestOptions, n: nat)
    ensures
        0 <= wanted_bytes(records, options, n),
    decreases n,
{
    if n > 0 {
        lemma_wanted_bytes_grow(records, options, (n - 1) as nat);
    }
}

/// One more record adds to an extraction as follows. A cancelled job and a rejected
/// record fail it, and a skipped record is counted as skipped. A written record counts
/// with its bytes. A copy that fails is a failure of the archive, and a destination that
/// fails is a failure of the destination.
pub proof fn law_extractions_add_what_was_done(
    path: Seq<char>,
    records: Seq<ParsedView>,
    answers: Seq<RecordAnswer>,
    before: BackendView,
)
    requires
        0 < records.len() <= answers.len(),
        extracted(path, records.drop_last(), answers) == Ok::<BackendView, WarcFault>(before),
    ensures
        ({
            let record = records.last();
            let answer = answers[records.len() - 1];
            let result = extracted(path, records, answers);
            if answer.cancelled {
                result == Err::<BackendView, WarcFault>(WarcFault::Cancelled)
            } else {
                match answer.decision {
                    EntryDecision::Rejected(m) => result == Err::<BackendView, WarcFault>(
                        WarcFault::Safety(m@),
                    ),
                    EntryDecision::Skip { warning } => result matches Ok(after) && after.entries
                        == before.entries && after.bytes == before.bytes && after.warnings
                        == before.warnings && (before.skipped_entries < usize::MAX
                        ==> after.skipped_entries == before.skipped_entries + 1),
                    EntryDecision::Write { destination, replace_existing } => match answer.written {
                        RecordOutcome::Done => result matches Ok(after) && after.skipped_entries
                            == before.skipped_entries && after.warnings == before.warnings && (
                        before.entries < usize::MAX ==> after.entries == before.entries + 1) && (
                        before.bytes + record.entry.size <= u64::MAX ==> after.bytes == before.bytes
                            + record.entry.size),
                        RecordOutcome::CopyFailed(m) => result == Err::<BackendView, WarcFault>(
                            WarcFault::Io { path, source: m@ },
                        ),
                        RecordOutcome::DestinationFailed(m) => result == Err::<
                            BackendView,
                            WarcFault,
                        >(WarcFault::Io { path: destination@, source: m@ }),
                    },
                }
            }
        }),
{
}

/// The record of a listing is the record of the stream with the same number: with its
/// size, its type and the place of its body.
pub proof fn law_listings_show_the_records_of_the_stream(
    path: Seq<char>,
    file: Seq<u8>,
    normalized: Seq<Option<Seq<char>>>,
    listing: Seq<ParsedView>,
    i: int,
)
    requires
        parsed(path, file, normalized) == Ok::<Seq<ParsedView>, WarcFault>(listing),
        0 <= i < listing.len(),
    ensures
        listing.len() == records_from(path, file, 0).0.len(),
        listing[i].entry.index == i,
        listing[i].entry.size == records_from(path, file, 0).0[i].size,
        listing[i].entry.record_type == records_from(path, file, 0).0[i].record_type,
        listing[i].body_offset == records_from(path, file, 0).0[i].body_offset,
        records_from(path, file, 0).1 is None,
        parsed_entries(listing)[i] == listing[i].entry,
{
}

/// A fault of a WARC archive tells the path where there is one, and its own words.
pub proof fn law_faults_are_told(
    path: Seq<char>,
    source: crate::failure::IoFailureView,
    message: Seq<char>,
)
    ensures
        warc_message(WarcFault::Io { path, source }) == "I/O failed for "@ + path + ": "@
            + source.message,
        warc_message(WarcFault::Invalid { path, message }) == "invalid WARC "@ + path + ": "@
            + message,
        warc_message(WarcFault::Safety(message)) == "extraction safety rejected WARC entry: "@
            + message,
        warc_message(WarcFault::Cancelled) == "job cancelled"@,
{
}

/// The bytes that count as blank are those of ASCII: the space, the tab, the line feed, the
/// form feed and the carriage return.
pub proof fn law_blank_bytes_are_those_of_ascii(b: u8)
    ensures
        is_ascii_space(b) <==> b == ' ' as u32 || b == '\t' as u32 || b == '\n' as u32 || b == 0x0c || b
            == '\r' as u32,
{
}

} // verus!
