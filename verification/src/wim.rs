//! WIM images: what listing, testing, copying and extracting their entries
//! give, once the image reader has handed over the entries and their streams.
use crate::failure::IoFailure;
#[allow(unused_imports)]
use crate::failure::IoFailureView;
use crate::bytes::{push_range, same_bytes};
use crate::disk_extract::EntryDecision;
use crate::report::{BackendReport, TestOptions};
#[allow(unused_imports)]
use crate::report::BackendView;
use crate::text::{concat2, concat3, concat4, copy_option, decimal_text, hex_text, same_text};
#[allow(unused_imports)]
use crate::text::{decimal, hex, text_option};
use crate::work::ArchiveWork;
#[allow(unused_imports)]
use crate::work::ArchiveWorkView;
use sha1::Digest;
use vstd::prelude::*;

verus! {

/// What an entry of an image is.
#[derive(Debug, Clone, Copy, PartialEq, Eq, Structural)]
pub enum WimEntryKind {
    File,
    Directory,
    Symlink,
}

/// One entry of an image.
#[derive(Debug, PartialEq, Eq)]
pub struct WimEntry {
    /// Normalized archive path.
    pub path: String,
    /// What it is.
    pub kind: WimEntryKind,
    /// How many bytes its stream holds.
    pub size: u64,
    /// The SHA-1 of its stream, as the lookup table records it.
    pub sha1: [u8; 20],
    /// Where a link leads, if the image tells.
    pub link_target: Option<String>,
}

/// An entry with its texts taken as sequences.
pub struct WimEntryView {
    pub path: Seq<char>,
    pub kind: WimEntryKind,
    pub size: u64,
    pub sha1: Seq<u8>,
    pub link_target: Option<Seq<char>>,
}

impl View for WimEntry {
    type V = WimEntryView;

    open spec fn view(&self) -> WimEntryView {
        WimEntryView {
            path: self.path@,
            kind: self.kind,
            size: self.size,
            sha1: self.sha1@,
            link_target: text_option(self.link_target),
        }
    }
}

/// Entries with their texts taken as sequences.
pub open spec fn entry_views(entries: Seq<WimEntry>) -> Seq<WimEntryView> {
    entries.map_values(|e: WimEntry| e@)
}

/// Why the image reader failed.
#[derive(Debug, PartialEq, Eq)]
pub enum WimError {
    /// Filesystem I/O failed.
    Io {
        /// The file that was read.
        path: String,
        /// What went wrong.
        source: IoFailure,
    },
    /// The image is malformed.
    Invalid {
        /// The image.
        path: String,
        /// What is wrong with it.
        message: String,
    },
    /// The image uses a feature that is not decoded.
    Unsupported {
        /// The image.
        path: String,
        /// The feature.
        message: String,
    },
}

impl WimError {
    /// A copy of the error.
    pub fn copy(&self) -> (copied: Self)
        ensures
            fault_of(copied) == fault_of(*self),
    {
        match self {
            WimError::Io { path, source } => WimError::Io {
                path: path.clone(),
                source: source.copy(),
            },
            WimError::Invalid { path, message } => WimError::Invalid {
                path: path.clone(),
                message: message.clone(),
            },
            WimError::Unsupported { path, message } => WimError::Unsupported {
                path: path.clone(),
                message: message.clone(),
            },
        }
    }
}

/// Error returned by native WIM operations.
#[derive(Debug, PartialEq, Eq)]
pub enum WimBackendError {
    /// Manifest planning failed.
    Plan(String),
    /// Filesystem I/O failed.
    Io {
        /// The file that was worked on.
        path: String,
        /// What went wrong.
        source: IoFailure,
    },
    /// Extraction safety rejected an entry.
    Safety(String),
    /// WIM format or decompression error.
    Invalid {
        /// The image.
        path: String,
        /// What is wrong with it.
        message: String,
    },
    /// The WIM is well-formed but uses a feature this backend does not decode.
    Unsupported {
        /// The image.
        path: String,
        /// The feature.
        message: String,
    },
    /// Job was cancelled cooperatively.
    Cancelled,
}

/// A WIM error with its texts taken as sequences.
pub enum WimFault {
    Plan(Seq<char>),
    Io { path: Seq<char>, source: IoFailureView },
    Safety(Seq<char>),
    Invalid { path: Seq<char>, message: Seq<char> },
    Unsupported { path: Seq<char>, message: Seq<char> },
    Cancelled,
}

impl View for WimBackendError {
    type V = WimFault;

    open spec fn view(&self) -> WimFault {
        match self {
            WimBackendError::Plan(m) => WimFault::Plan(m@),
            WimBackendError::Io { path, source } => WimFault::Io {
                path: path@,
                source: source@,
            },
            WimBackendError::Safety(m) => WimFault::Safety(m@),
            WimBackendError::Invalid { path, message } => WimFault::Invalid {
                path: path@,
                message: message@,
            },
            WimBackendError::Unsupported { path, message } => WimFault::Unsupported {
                path: path@,
                message: message@,
            },
            WimBackendError::Cancelled => WimFault::Cancelled,
        }
    }
}

/// What a failure of the image reader is to its callers.
pub open spec fn fault_of(error: WimError) -> WimFault {
    match error {
        WimError::Io { path, source } => WimFault::Io { path: path@, source: source@ },
        WimError::Invalid { path, message } => WimFault::Invalid { path: path@, message: message@ },
        WimError::Unsupported { path, message } => WimFault::Unsupported {
            path: path@,
            message: message@,
        },
    }
}

impl From<WimError> for WimBackendError {
    fn from(error: WimError) -> (backend: Self) {
        match error {
            WimError::Io { path, source } => WimBackendError::Io { path, source },
            WimError::Invalid { path, message } => WimBackendError::Invalid { path, message },
            WimError::Unsupported { path, message } => WimBackendError::Unsupported {
                path,
                message,
            },
        }
    }
}

impl vstd::std_specs::convert::FromSpecImpl<WimError> for WimBackendError {
    open spec fn obeys_from_spec() -> bool {
        true
    }

    open spec fn from_spec(error: WimError) -> Self {
        match error {
            WimError::Io { path, source } => WimBackendError::Io { path, source },
            WimError::Invalid { path, message } => WimBackendError::Invalid { path, message },
            WimError::Unsupported { path, message } => WimBackendError::Unsupported {
                path,
                message,
            },
        }
    }
}

/// What a user reads of an error.
pub open spec fn wim_message(fault: WimFault) -> Seq<char> {
    match fault {
        WimFault::Plan(m) => "manifest planning failed: "@ + m,
        WimFault::Io { path, source } => "I/O failed for "@ + path + ": "@ + source.message,
        WimFault::Safety(m) => "extraction safety rejected entry: "@ + m,
        WimFault::Invalid { path, message } => "invalid WIM "@ + path + ": "@ + message,
        WimFault::Unsupported { path, message } => "unsupported WIM "@ + path + ": "@ + message,
        WimFault::Cancelled => "job cancelled"@,
    }
}

impl WimBackendError {
    /// What a user reads of the error.
    pub fn message(&self) -> (text: String)
        ensures
            text@ == wim_message(self@),
    {
        match self {
            WimBackendError::Plan(m) => concat2("manifest planning failed: ", m.as_str()),
            WimBackendError::Io { path, source } => concat4(
                "I/O failed for ",
                path.as_str(),
                ": ",
                source.message.as_str(),
            ),
            WimBackendError::Safety(m) => concat2(
                "extraction safety rejected entry: ",
                m.as_str(),
            ),
            WimBackendError::Invalid { path, message } => concat4(
                "invalid WIM ",
                path.as_str(),
                ": ",
                message.as_str(),
            ),
            WimBackendError::Unsupported { path, message } => concat4(
                "unsupported WIM ",
                path.as_str(),
                ": ",
                message.as_str(),
            ),
            WimBackendError::Cancelled => "job cancelled".to_owned(),
        }
    }
}

pub fn io_failed(path: &str, source: &IoFailure) -> (error: WimBackendError)
    ensures
        error@ == (WimFault::Io { path: path@, source: source@ }),
{
    WimBackendError::Io { path: path.to_owned(), source: source.copy() }
}

fn invalid(path: &str, message: String) -> (error: WimBackendError)
    ensures
        error@ == (WimFault::Invalid { path: path@, message: message@ }),
{
    WimBackendError::Invalid { path: path.to_owned(), message }
}

/// The SHA-1 digest of some bytes.
pub uninterp spec fn sha1_digest(data: Seq<u8>) -> Seq<u8>;

/// Calls `sha1::Sha1::digest`. Claimed: the digest depends on the bytes alone.
#[verifier::external_body]
fn digest_of(data: &[u8]) -> (digest: [u8; 20])
    ensures
        digest@ == sha1_digest(data@),
{
    sha1::Sha1::digest(data).into()
}

/// What the image reader hands over: the entries, or why there are none.
pub type WimListing = Result<Vec<WimEntry>, WimError>;

/// What reading the stream of an entry came to; `None` where it has none.
pub type WimStream = Result<Option<Vec<u8>>, WimError>;

/// The entries of an image.
pub open spec fn listed(listing: WimListing) -> Result<Seq<WimEntryView>, WimFault> {
    match listing {
        Ok(entries) => Ok(entry_views(entries@)),
        Err(error) => Err(fault_of(error)),
    }
}

/// Entries, or an error, with their texts taken as sequences.
pub open spec fn entries_view(r: Result<Vec<WimEntry>, WimBackendError>) -> Result<
    Seq<WimEntryView>,
    WimFault,
> {
    match r {
        Ok(entries) => Ok(entry_views(entries@)),
        Err(e) => Err(e@),
    }
}

fn copy_entry(entry: &WimEntry) -> (copied: WimEntry)
    ensures
        copied@ == entry@,
{
    WimEntry {
        path: entry.path.clone(),
        kind: entry.kind,
        size: entry.size,
        sha1: entry.sha1,
        link_target: copy_option(&entry.link_target),
    }
}

/// Lists every entry of every image in a WIM.
pub fn list(listing: &WimListing) -> (entries: Result<Vec<WimEntry>, WimBackendError>)
    ensures
        entries_view(entries) == listed(*listing),
{
    let source: &Vec<WimEntry> = match listing {
        Ok(entries) => entries,
        Err(error) => {
            return Err(WimBackendError::from(error.copy()));
        },
    };
    let mut entries: Vec<WimEntry> = Vec::new();
    let mut i: usize = 0;
    assert(source@.len() == source.len());
    while i < source.len()
        invariant
            source@.len() == source.len(),
            i == entries@.len(),
            i <= source@.len(),
            forall|k: int| 0 <= k < i ==> (#[trigger] entries@[k])@ == source@[k]@,
        decreases source@.len() - i,
    {
        let copied: WimEntry = copy_entry(&source[i]);
        entries.push(copied);
        i = i + 1;
    }
    assert(entry_views(entries@) =~= entry_views(source@));
    Ok(entries)
}

/// A stream, or why there is none, with its bytes and texts taken as sequences.
pub open spec fn stream_view(stream: WimStream) -> Result<Option<Seq<u8>>, WimFault> {
    match stream {
        Ok(Some(data)) => Ok(Some(data@)),
        Ok(None) => Ok(None),
        Err(error) => Err(fault_of(error)),
    }
}

/// The stream of entry `i`. An entry that the reader said nothing of has none.
pub open spec fn stream_of(streams: Seq<WimStream>, i: int) -> Result<Option<Seq<u8>>, WimFault> {
    if 0 <= i < streams.len() {
        stream_view(streams[i])
    } else {
        Ok(None)
    }
}

fn read_entry_stream<'a>(streams: &'a Vec<WimStream>, i: usize) -> (r: Result<
    Option<&'a Vec<u8>>,
    WimBackendError,
>)
    ensures
        match r {
            Ok(Some(data)) => stream_of(streams@, i as int) == Ok::<Option<Seq<u8>>, WimFault>(
                Some(data@),
            ),
            Ok(None) => stream_of(streams@, i as int) == Ok::<Option<Seq<u8>>, WimFault>(None),
            Err(e) => stream_of(streams@, i as int) == Err::<Option<Seq<u8>>, WimFault>(e@),
        },
{
    if i >= streams.len() {
        return Ok(None);
    }
    match &streams[i] {
        Ok(Some(data)) => Ok(Some(data)),
        Ok(None) => Ok(None),
        Err(error) => Err(WimBackendError::from(error.copy())),
    }
}

/// What is said of a stream that does not have its recorded size.
pub open spec fn size_text(path: Seq<char>, have: nat, want: nat) -> Seq<char> {
    "WIM entry "@ + path + " decoded to "@ + decimal(have) + " bytes, expected "@ + decimal(want)
}

/// What is said of a stream that does not have its recorded digest.
pub open spec fn digest_text(path: Seq<char>, have: Seq<u8>, want: Seq<u8>) -> Seq<char> {
    "WIM entry "@ + path + " hashes to "@ + hex(have) + ", but the lookup table records "@ + hex(
        want,
    )
}

/// How many bytes of an entry were verified, or what is wrong with it.
pub open spec fn verified(
    path: Seq<char>,
    e: WimEntryView,
    stream: Result<Option<Seq<u8>>, WimFault>,
) -> Result<u64, WimFault> {
    if e.kind != WimEntryKind::File {
        Ok(0)
    } else {
        match stream {
            Err(fault) => Err(fault),
            Ok(None) => Ok(0),
            Ok(Some(data)) => if data.len() != e.size {
                Err(
                    WimFault::Invalid {
                        path,
                        message: size_text(e.path, data.len(), e.size as nat),
                    },
                )
            } else if sha1_digest(data) != e.sha1 {
                Err(
                    WimFault::Invalid {
                        path,
                        message: digest_text(e.path, sha1_digest(data), e.sha1),
                    },
                )
            } else {
                Ok(e.size)
            },
        }
    }
}

/// Checks a stream against the size and the digest that the lookup table records
/// for it.
pub fn check_stream(path: &str, entry: &WimEntry, data: &Vec<u8>, digest: &[u8; 20]) -> (r: Result<
    u64,
    WimBackendError,
>)
    ensures
        match r {
            Ok(bytes) => bytes == entry.size && data@.len() == entry.size && digest@
                == entry.sha1@,
            Err(e) => if data@.len() != entry.size {
                e@ == (WimFault::Invalid {
                    path: path@,
                    message: size_text(entry.path@, data@.len(), entry.size as nat),
                })
            } else {
                digest@ != entry.sha1@ && e@ == (WimFault::Invalid {
                    path: path@,
                    message: digest_text(entry.path@, digest@, entry.sha1@),
                })
            },
        },
{
    assert(data@.len() == data.len());
    let have: u64 = data.len() as u64;
    if have != entry.size {
        let head: String = concat4(
            "WIM entry ",
            entry.path.as_str(),
            " decoded to ",
            decimal_text(have).as_str(),
        );
        let message: String = concat3(
            head.as_str(),
            " bytes, expected ",
            decimal_text(entry.size).as_str(),
        );
        assert(message@ =~= size_text(entry.path@, data@.len(), entry.size as nat));
        return Err(invalid(path, message));
    }
    if !same_bytes(digest.as_slice(), entry.sha1.as_slice()) {
        let head: String = concat4(
            "WIM entry ",
            entry.path.as_str(),
            " hashes to ",
            hex_text(digest.as_slice()).as_str(),
        );
        let message: String = concat3(
            head.as_str(),
            ", but the lookup table records ",
            hex_text(entry.sha1.as_slice()).as_str(),
        );
        assert(message@ =~= digest_text(entry.path@, digest@, entry.sha1@));
        return Err(invalid(path, message));
    }
    Ok(entry.size)
}

fn verify_entry(path: &str, entry: &WimEntry, streams: &Vec<WimStream>, i: usize) -> (r: Result<
    u64,
    WimBackendError,
>)
    ensures
        match r {
            Ok(bytes) => verified(path@, entry@, stream_of(streams@, i as int)) == Ok::<
                u64,
                WimFault,
            >(bytes),
            Err(e) => verified(path@, entry@, stream_of(streams@, i as int)) == Err::<
                u64,
                WimFault,
            >(e@),
        },
{
    if entry.kind != WimEntryKind::File {
        return Ok(0);
    }
    match read_entry_stream(streams, i) {
        Ok(Some(data)) => {
            let digest: [u8; 20] = digest_of(data.as_slice());
            check_stream(path, entry, data, &digest)
        },
        Ok(None) => Ok(0),
        Err(e) => Err(e),
    }
}

/// Normalized WIM operation report.
pub type WimReport = BackendReport;

/// Entry `i` of a test.
pub open spec fn test_step(
    path: Seq<char>,
    report: BackendView,
    e: WimEntryView,
    streams: Seq<WimStream>,
    i: int,
    options: TestOptions,
) -> Result<BackendView, WimFault> {
    if options.stops_at(i) {
        Err(WimFault::Cancelled)
    } else if !options.wants(e.path) {
        Ok(report.with_skipped())
    } else {
        match verified(path, e, stream_of(streams, i)) {
            Err(fault) => Err(fault),
            Ok(bytes) => Ok(report.with_entry(bytes)),
        }
    }
}

/// The outcome of testing the entries in order.
pub open spec fn tested(
    path: Seq<char>,
    entries: Seq<WimEntryView>,
    streams: Seq<WimStream>,
    options: TestOptions,
) -> Result<BackendView, WimFault>
    decreases entries.len(),
{
    if entries.len() == 0 {
        Ok(BackendView::empty())
    } else {
        match tested(path, entries.drop_last(), streams, options) {
            Err(fault) => Err(fault),
            Ok(report) => test_step(
                path,
                report,
                entries.last(),
                streams,
                entries.len() - 1,
                options,
            ),
        }
    }
}

proof fn lemma_tested_fails(
    path: Seq<char>,
    entries: Seq<WimEntryView>,
    streams: Seq<WimStream>,
    options: TestOptions,
    k: int,
)
    requires
        0 <= k <= entries.len(),
    ensures
        tested(path, entries.take(k), streams, options) matches Err(fault) ==> tested(
            path,
            entries,
            streams,
            options,
        ) == Err::<BackendView, WimFault>(fault),
    decreases entries.len() - k,
{
    if k < entries.len() {
        lemma_tested_fails(path, entries, streams, options, k + 1);
        assert(entries.take(k + 1).drop_last() =~= entries.take(k));
    } else {
        assert(entries.take(k) =~= entries);
    }
}

/// A report, or an error, with its texts taken as sequences.
pub open spec fn report_view(r: Result<WimReport, WimBackendError>) -> Result<
    BackendView,
    WimFault,
> {
    match r {
        Ok(report) => Ok(report@),
        Err(e) => Err(e@),
    }
}

/// Verifies selected or all WIM files, checking each stream against its
/// recorded SHA-1.
pub fn test(
    path: &str,
    listing: &WimListing,
    streams: &Vec<WimStream>,
    options: &TestOptions,
) -> (report: Result<WimReport, WimBackendError>)
    ensures
        report_view(report) == (match listed(*listing) {
            Err(fault) => Err(fault),
            Ok(entries) => tested(path@, entries, streams@, *options),
        }),
{
    let entries: &Vec<WimEntry> = match listing {
        Ok(entries) => entries,
        Err(error) => {
            return Err(WimBackendError::from(error.copy()));
        },
    };
    let ghost views = entry_views(entries@);
    let mut report: WimReport = BackendReport::default();
    let mut i: usize = 0;
    assert(views.take(0) =~= Seq::<WimEntryView>::empty());
    assert(entries@.len() == entries.len());
    while i < entries.len()
        invariant
            entries@.len() == entries.len(),
            listed(*listing) == Ok::<Seq<WimEntryView>, WimFault>(views),
            views == entry_views(entries@),
            i <= entries@.len(),
            tested(path@, views.take(i as int), streams@, *options) == Ok::<BackendView, WimFault>(
                report@,
            ),
        decreases entries@.len() - i,
    {
        proof {
            assert(views.take(i + 1).drop_last() =~= views.take(i as int));
            assert(views.take(i + 1).last() == entries@[i as int]@);
            lemma_tested_fails(path@, views, streams@, *options, i + 1);
        }
        if options.is_cancelled(i) {
            return Err(WimBackendError::Cancelled);
        }
        if options.selects(entries[i].path.as_str()) {
            match verify_entry(path, &entries[i], streams, i) {
                Ok(bytes) => {
                    report.processed(bytes);
                },
                Err(e) => {
                    return Err(e);
                },
            }
        } else {
            report.skip();
        }
        i = i + 1;
    }
    assert(views.take(views.len() as int) =~= views);
    Ok(report)
}

/// What the caller found and did when an extraction came to an entry.
#[derive(Debug)]
pub struct WimAnswer {
    /// Whether the job was cancelled by then.
    pub cancelled: bool,
    /// What the safety planner decided.
    pub decision: EntryDecision,
    /// What removing the thing that gives way to a directory or a link came to.
    pub removed: Result<(), IoFailure>,
    /// What making the directory, the file or the link came to.
    pub made: Result<(), IoFailure>,
    /// The warning to report where the platform cannot make symbolic links.
    pub unsupported_symlink: Option<String>,
}

/// Whether an entry is a link that leads nowhere.
pub open spec fn leads_nowhere(e: WimEntryView) -> bool {
    e.kind == WimEntryKind::Symlink && !(e.link_target matches Some(t) && t.len() > 0)
}

/// What is said of a link that leads nowhere.
pub open spec fn no_target_text(path: Seq<char>) -> Seq<char> {
    "skipped reparse point "@ + path + ": the image does not expose a usable link target"@
}

/// Whether an entry is a link that leads nowhere. The safety planner is not asked about
/// such an entry.
pub fn is_left_out(entry: &WimEntry) -> (r: bool)
    ensures
        r == leads_nowhere(entry@),
{
    if entry.kind != WimEntryKind::Symlink {
        return false;
    }
    match &entry.link_target {
        Some(target) => target.as_str().unicode_len() == 0,
        None => true,
    }
}

/// What is done for an entry that is written: a link that leads nowhere is left out, and
/// so is one that the platform cannot make.
pub open spec fn work_of(
    e: WimEntryView,
    replace: bool,
    unsupported_symlink: Option<Seq<char>>,
) -> ArchiveWorkView {
    match e.kind {
        WimEntryKind::Directory => ArchiveWorkView::MakeDirectory { remove: replace },
        WimEntryKind::File => ArchiveWorkView::WriteFile,
        WimEntryKind::Symlink => if leads_nowhere(e) {
            ArchiveWorkView::SkipLink { warning: no_target_text(e.path) }
        } else {
            match unsupported_symlink {
                Some(warning) => ArchiveWorkView::SkipLink { warning },
                None => ArchiveWorkView::MakeSymlink {
                    target: e.link_target->0,
                    remove: replace,
                },
            }
        },
    }
}

/// What is done for an entry that is written.
pub fn entry_work(
    entry: &WimEntry,
    replace_existing: bool,
    unsupported_symlink: &Option<String>,
) -> (work: ArchiveWork)
    ensures
        work@ == work_of(entry@, replace_existing, text_option(*unsupported_symlink)),
{
    match entry.kind {
        WimEntryKind::Directory => ArchiveWork::MakeDirectory { remove: replace_existing },
        WimEntryKind::File => ArchiveWork::WriteFile,
        WimEntryKind::Symlink => {
            match &entry.link_target {
                Some(target) => {
                    if target.as_str().unicode_len() > 0 {
                        return match unsupported_symlink {
                            Some(warning) => ArchiveWork::SkipLink { warning: warning.clone() },
                            None => ArchiveWork::MakeSymlink {
                                target: target.clone(),
                                remove: replace_existing,
                            },
                        };
                    }
                },
                None => {},
            }
            ArchiveWork::SkipLink {
                warning: concat3(
                    "skipped reparse point ",
                    entry.path.as_str(),
                    ": the image does not expose a usable link target",
                ),
            }
        },
    }
}

/// What making a directory or a link comes to: no bytes, or why it was not made.
pub open spec fn made(destination: Seq<char>, remove: bool, a: WimAnswer) -> Result<u64, WimFault> {
    if remove && a.removed is Err {
        Err(WimFault::Io { path: destination, source: (a.removed->Err_0)@ })
    } else if a.made is Err {
        Err(WimFault::Io { path: destination, source: (a.made->Err_0)@ })
    } else {
        Ok(0)
    }
}

/// How many bytes a file adds once it is written, or why it was not.
pub open spec fn wrote(
    stream: Result<Option<Seq<u8>>, WimFault>,
    destination: Seq<char>,
    a: WimAnswer,
) -> Result<u64, WimFault> {
    match (stream, a.made) {
        (Err(fault), _) => Err(fault),
        (_, Err(failure)) => Err(WimFault::Io { path: destination, source: failure@ }),
        (Ok(Some(data)), Ok(_)) => Ok(data.len() as u64),
        (Ok(None), Ok(_)) => Ok(0),
    }
}

/// One more entry of an extraction.
pub open spec fn extract_step(
    report: BackendView,
    e: WimEntryView,
    stream: Result<Option<Seq<u8>>, WimFault>,
    a: WimAnswer,
) -> Result<BackendView, WimFault> {
    if a.cancelled {
        Err(WimFault::Cancelled)
    } else if leads_nowhere(e) {
        Ok(report.with_skipped().with_warning(no_target_text(e.path)))
    } else {
        match a.decision {
            EntryDecision::Rejected(m) => Err(WimFault::Safety(m@)),
            EntryDecision::Skip { warning } => Ok(report.with_skipped()),
            EntryDecision::Write { destination, replace_existing } => {
                let done = match work_of(e, replace_existing, text_option(a.unsupported_symlink)) {
                    ArchiveWorkView::MakeDirectory { remove } => Ok(
                        made(destination@, remove, a),
                    ),
                    ArchiveWorkView::WriteFile => Ok(wrote(stream, destination@, a)),
                    ArchiveWorkView::MakeSymlink { target, remove } => Ok(
                        made(destination@, remove, a),
                    ),
                    ArchiveWorkView::SkipLink { warning } => Err(warning),
                };
                match done {
                    Err(warning) => Ok(report.with_skipped().with_warning(warning)),
                    Ok(Err(fault)) => Err(fault),
                    Ok(Ok(bytes)) => Ok(report.with_entry(bytes)),
                }
            },
        }
    }
}

/// Whether an extraction ends at an entry, once what was asked of the caller for it is
/// done. `stream` is what reading the entry came to.
pub fn entry_stops(entry: &WimEntry, stream: &WimStream, answer: &WimAnswer) -> (r: bool)
    ensures
        forall|report: BackendView|
            r == (#[trigger] extract_step(report, entry@, stream_view(*stream), *answer) is Err),
{
    if answer.cancelled {
        return true;
    }
    if is_left_out(entry) {
        return false;
    }
    match &answer.decision {
        EntryDecision::Rejected(_) => true,
        EntryDecision::Skip { warning: _ } => false,
        EntryDecision::Write { destination: _, replace_existing } => {
            match entry_work(entry, *replace_existing, &answer.unsupported_symlink) {
                ArchiveWork::MakeDirectory { remove } => (remove && answer.removed.is_err())
                    || answer.made.is_err(),
                ArchiveWork::WriteFile => stream.is_err() || answer.made.is_err(),
                ArchiveWork::MakeSymlink { target: _, remove } => (remove
                    && answer.removed.is_err()) || answer.made.is_err(),
                ArchiveWork::SkipLink { warning: _ } => false,
            }
        },
    }
}

/// The outcome of extracting the entries in order. Where the answers end, the
/// job was cancelled.
pub open spec fn extracted(
    entries: Seq<WimEntryView>,
    streams: Seq<WimStream>,
    answers: Seq<WimAnswer>,
) -> Result<BackendView, WimFault>
    decreases entries.len(),
{
    if entries.len() == 0 {
        Ok(BackendView::empty())
    } else {
        match extracted(entries.drop_last(), streams, answers) {
            Err(fault) => Err(fault),
            Ok(report) => if entries.len() > answers.len() {
                Err(WimFault::Cancelled)
            } else {
                extract_step(
                    report,
                    entries.last(),
                    stream_of(streams, entries.len() - 1),
                    answers[entries.len() - 1],
                )
            },
        }
    }
}

proof fn lemma_extracted_fails(
    entries: Seq<WimEntryView>,
    streams: Seq<WimStream>,
    answers: Seq<WimAnswer>,
    k: int,
)
    requires
        0 <= k <= entries.len(),
    ensures
        extracted(entries.take(k), streams, answers) matches Err(fault) ==> extracted(
            entries,
            streams,
            answers,
        ) == Err::<BackendView, WimFault>(fault),
    decreases entries.len() - k,
{
    if k < entries.len() {
        lemma_extracted_fails(entries, streams, answers, k + 1);
        assert(entries.take(k + 1).drop_last() =~= entries.take(k));
    } else {
        assert(entries.take(k) =~= entries);
    }
}

fn make(destination: &str, remove: bool, a: &WimAnswer) -> (r: Result<u64, WimBackendError>)
    ensures
        match r {
            Ok(bytes) => made(destination@, remove, *a) == Ok::<u64, WimFault>(bytes),
            Err(e) => made(destination@, remove, *a) == Err::<u64, WimFault>(e@),
        },
{
    if remove {
        match &a.removed {
            Ok(_) => {},
            Err(m) => {
                return Err(io_failed(destination, m));
            },
        }
    }
    match &a.made {
        Ok(_) => Ok(0),
        Err(m) => Err(io_failed(destination, m)),
    }
}

fn write_file(streams: &Vec<WimStream>, i: usize, destination: &str, a: &WimAnswer) -> (r: Result<
    u64,
    WimBackendError,
>)
    ensures
        match r {
            Ok(bytes) => wrote(stream_of(streams@, i as int), destination@, *a) == Ok::<
                u64,
                WimFault,
            >(bytes),
            Err(e) => wrote(stream_of(streams@, i as int), destination@, *a) == Err::<
                u64,
                WimFault,
            >(e@),
        },
{
    let bytes: u64 = match read_entry_stream(streams, i) {
        Ok(Some(data)) => {
            assert(data@.len() == data.len());
            data.len() as u64
        },
        Ok(None) => 0,
        Err(e) => {
            return Err(e);
        },
    };
    match &a.made {
        Ok(_) => Ok(bytes),
        Err(m) => Err(io_failed(destination, m)),
    }
}

fn extract_entry(
    report: &mut WimReport,
    entry: &WimEntry,
    streams: &Vec<WimStream>,
    i: usize,
    a: &WimAnswer,
) -> (r: Result<(), WimBackendError>)
    ensures
        match r {
            Ok(_) => extract_step(old(report)@, entry@, stream_of(streams@, i as int), *a) == Ok::<
                BackendView,
                WimFault,
            >(final(report)@),
            Err(e) => extract_step(old(report)@, entry@, stream_of(streams@, i as int), *a)
                == Err::<BackendView, WimFault>(e@),
        },
{
    if a.cancelled {
        return Err(WimBackendError::Cancelled);
    }
    if is_left_out(entry) {
        report.skip();
        report.warn(
            concat3(
                "skipped reparse point ",
                entry.path.as_str(),
                ": the image does not expose a usable link target",
            ),
        );
        return Ok(());
    }
    let (destination, replace): (&str, bool) = match &a.decision {
        EntryDecision::Rejected(m) => {
            return Err(WimBackendError::Safety(m.clone()));
        },
        EntryDecision::Skip { warning: _ } => {
            report.skip();
            return Ok(());
        },
        EntryDecision::Write { destination, replace_existing } => (
            destination.as_str(),
            *replace_existing,
        ),
    };
    let done: Result<u64, WimBackendError> = match entry_work(
        entry,
        replace,
        &a.unsupported_symlink,
    ) {
        ArchiveWork::MakeDirectory { remove } => make(destination, remove, a),
        ArchiveWork::WriteFile => write_file(streams, i, destination, a),
        ArchiveWork::MakeSymlink { target: _, remove } => make(destination, remove, a),
        ArchiveWork::SkipLink { warning } => {
            report.skip();
            report.warn(warning);
            return Ok(());
        },
    };
    match done {
        Ok(bytes) => {
            report.processed(bytes);
            Ok(())
        },
        Err(e) => Err(e),
    }
}

/// Extracts every WIM entry. `root` says whether the destination could be
/// prepared, and `answers` holds what the caller found and did for each entry, in
/// order.
pub fn extract(
    listing: &WimListing,
    streams: &Vec<WimStream>,
    destination: &str,
    root: &Result<(), IoFailure>,
    answers: &Vec<WimAnswer>,
) -> (report: Result<WimReport, WimBackendError>)
    ensures
        report_view(report) == (match (*root, listed(*listing)) {
            (Err(m), _) => Err(WimFault::Io { path: destination@, source: m@ }),
            (Ok(_), Err(fault)) => Err(fault),
            (Ok(_), Ok(entries)) => extracted(entries, streams@, answers@),
        }),
{
    match root {
        Ok(_) => {},
        Err(m) => {
            return Err(io_failed(destination, m));
        },
    }
    let entries: &Vec<WimEntry> = match listing {
        Ok(entries) => entries,
        Err(error) => {
            return Err(WimBackendError::from(error.copy()));
        },
    };
    let ghost views = entry_views(entries@);
    let mut report: WimReport = BackendReport::default();
    let mut i: usize = 0;
    assert(views.take(0) =~= Seq::<WimEntryView>::empty());
    assert(entries@.len() == entries.len());
    while i < entries.len()
        invariant
            *root is Ok,
            entries@.len() == entries.len(),
            listed(*listing) == Ok::<Seq<WimEntryView>, WimFault>(views),
            views == entry_views(entries@),
            i <= entries@.len(),
            extracted(views.take(i as int), streams@, answers@) == Ok::<BackendView, WimFault>(
                report@,
            ),
        decreases entries@.len() - i,
    {
        proof {
            assert(views.take(i + 1).drop_last() =~= views.take(i as int));
            assert(views.take(i + 1).last() == entries@[i as int]@);
            lemma_extracted_fails(views, streams@, answers@, i + 1);
        }
        if i >= answers.len() {
            return Err(WimBackendError::Cancelled);
        }
        match extract_entry(&mut report, &entries[i], streams, i, &answers[i]) {
            Ok(_) => {},
            Err(e) => {
                return Err(e);
            },
        }
        i = i + 1;
    }
    assert(views.take(views.len() as int) =~= views);
    Ok(report)
}

/// The number of the first file with a path, from entry `i` on.
pub open spec fn file_with_path(entries: Seq<WimEntryView>, path: Seq<char>, i: int) -> Option<int>
    decreases entries.len() - i,
{
    if i >= entries.len() {
        None
    } else if entries[i].path == path && entries[i].kind == WimEntryKind::File {
        Some(i)
    } else {
        file_with_path(entries, path, i + 1)
    }
}

/// The content of the file with a path. A file without a stream is empty.
pub open spec fn copied(
    path: Seq<char>,
    listing: WimListing,
    streams: Seq<WimStream>,
    target: Seq<char>,
) -> Result<Seq<u8>, WimFault> {
    match listed(listing) {
        Err(fault) => Err(fault),
        Ok(entries) => match file_with_path(entries, target, 0) {
            None => Err(
                WimFault::Invalid { path, message: "file '"@ + target + "' not found in WIM"@ },
            ),
            Some(i) => match stream_of(streams, i) {
                Err(fault) => Err(fault),
                Ok(None) => Ok(Seq::empty()),
                Ok(Some(data)) => Ok(data),
            },
        },
    }
}

/// Copies one file entry behind what `writer` holds, and counts its bytes.
pub fn copy_to_writer(
    path: &str,
    listing: &WimListing,
    streams: &Vec<WimStream>,
    target_path: &str,
    writer: &mut Vec<u8>,
) -> (written: Result<u64, WimBackendError>)
    ensures
        match (written, copied(path@, *listing, streams@, target_path@)) {
            (Ok(bytes), Ok(data)) => bytes == data.len() && final(writer)@ == old(writer)@ + data,
            (Err(e), Err(fault)) => e@ == fault && final(writer)@ == old(writer)@,
            _ => false,
        },
{
    let entries: &Vec<WimEntry> = match listing {
        Ok(entries) => entries,
        Err(error) => {
            return Err(WimBackendError::from(error.copy()));
        },
    };
    let ghost views = entry_views(entries@);
    let mut i: usize = 0;
    assert(entries@.len() == entries.len());
    while i < entries.len()
        invariant
            entries@.len() == entries.len(),
            listed(*listing) == Ok::<Seq<WimEntryView>, WimFault>(views),
            views == entry_views(entries@),
            i <= entries@.len(),
            writer@ == old(writer)@,
            file_with_path(views, target_path@, 0) == file_with_path(
                views,
                target_path@,
                i as int,
            ),
        decreases entries@.len() - i,
    {
        assert(views[i as int] == entries@[i as int]@);
        if same_text(entries[i].path.as_str(), target_path) && entries[i].kind
            == WimEntryKind::File {
            return match read_entry_stream(streams, i) {
                Ok(Some(data)) => {
                    push_range(writer, data.as_slice(), 0, data.len());
                    assert(data@.subrange(0, data@.len() as int) =~= data@);
                    assert(data@.len() == data.len());
                    Ok(data.len() as u64)
                },
                Ok(None) => {
                    assert(writer@ + Seq::<u8>::empty() =~= writer@);
                    Ok(0)
                },
                Err(e) => Err(e),
            };
        }
        i = i + 1;
    }
    Err(invalid(path, concat3("file '", target_path, "' not found in WIM")))
}

/// After a successful test, every selected file has the size and the digest that
/// the lookup table records for it.
pub proof fn law_tested_files_are_intact(
    path: Seq<char>,
    entries: Seq<WimEntryView>,
    streams: Seq<WimStream>,
    options: TestOptions,
    i: int,
)
    requires
        tested(path, entries, streams, options) is Ok,
        0 <= i < entries.len(),
        entries[i].kind == WimEntryKind::File,
        options.wants(entries[i].path),
    ensures
        stream_of(streams, i) matches Ok(stream) && (stream matches Some(data) ==> data.len()
            == entries[i].size && sha1_digest(data) == entries[i].sha1),
    decreases entries.len(),
{
    if i < entries.len() - 1 {
        law_tested_files_are_intact(path, entries.drop_last(), streams, options, i);
    }
}

/// A successful test accounts for every entry: it was tested or not selected.
pub proof fn law_tests_account_for_every_entry(
    path: Seq<char>,
    entries: Seq<WimEntryView>,
    streams: Seq<WimStream>,
    options: TestOptions,
)
    requires
        entries.len() <= usize::MAX,
    ensures
        tested(path, entries, streams, options) matches Ok(r) ==> r.entries + r.skipped_entries
            == entries.len(),
    decreases entries.len(),
{
    if entries.len() > 0 {
        law_tests_account_for_every_entry(path, entries.drop_last(), streams, options);
    }
}

/// A successful extraction accounts for every entry: it was written or skipped.
/// Warnings are given for skipped entries alone.
pub proof fn law_extractions_account_for_every_entry(
    entries: Seq<WimEntryView>,
    streams: Seq<WimStream>,
    answers: Seq<WimAnswer>,
)
    requires
        entries.len() <= usize::MAX,
    ensures
        extracted(entries, streams, answers) matches Ok(r) ==> r.entries + r.skipped_entries
            == entries.len() && r.warnings.len() <= r.skipped_entries,
    decreases entries.len(),
{
    if entries.len() > 0 {
        law_extractions_account_for_every_entry(entries.drop_last(), streams, answers);
    }
}

/// The bytes that the files of an image hold together, of the first `n` entries.
pub open spec fn declared_bytes(entries: Seq<WimEntryView>, n: nat) -> int
    decreases n,
{
    if n == 0 {
        0
    } else {
        declared_bytes(entries, (n - 1) as nat) + if entries[n - 1].kind == WimEntryKind::File {
            entries[n - 1].size as int
        } else {
            0
        }
    }
}

proof fn lemma_declared(entries: Seq<WimEntryView>, shorter: Seq<WimEntryView>, n: nat)
    requires
        n <= shorter.len() <= entries.len(),
        shorter == entries.take(shorter.len() as int),
    ensures
        declared_bytes(entries, n) == declared_bytes(shorter, n),
        declared_bytes(entries, n) >= 0,
    decreases n,
{
    if n > 0 {
        lemma_declared(entries, shorter, (n - 1) as nat);
        assert(shorter[n - 1] == entries[n - 1]);
    }
}

/// A successful test of everything counts every entry, and the bytes that the
/// files of the image declare together.
pub proof fn law_full_tests_count_the_declared_bytes(
    path: Seq<char>,
    entries: Seq<WimEntryView>,
    streams: Seq<WimStream>,
    options: TestOptions,
)
    requires
        tested(path, entries, streams, options) is Ok,
        options.selected_paths@.len() == 0,
        forall|i: int|
            0 <= i < entries.len() && (#[trigger] entries[i]).kind == WimEntryKind::File
                ==> (stream_of(streams, i) matches Ok(stream) ==> stream is Some),
        entries.len() <= usize::MAX,
        declared_bytes(entries, entries.len()) <= u64::MAX,
    ensures
        (tested(path, entries, streams, options)->Ok_0).entries == entries.len(),
        (tested(path, entries, streams, options)->Ok_0).bytes == declared_bytes(
            entries,
            entries.len(),
        ),
    decreases entries.len(),
{
    if entries.len() > 0 {
        let before = entries.drop_last();
        let n = before.len();
        assert(before =~= entries.take(n as int));
        lemma_declared(entries, before, n);
        assert forall|i: int|
            0 <= i < before.len() && (#[trigger] before[i]).kind == WimEntryKind::File implies (
        stream_of(streams, i) matches Ok(stream) ==> stream is Some) by {
            assert(before[i] == entries[i]);
        }
        law_full_tests_count_the_declared_bytes(path, before, streams, options);
        assert(entries.last() == entries[entries.len() - 1]);
    }
}

/// A file is intact exactly when its stream has the declared size and the recorded
/// digest; it then counts with that size. A file without a stream, and any entry that is
/// no file, counts without bytes.
pub proof fn law_files_are_held_to_their_size_and_digest(
    path: Seq<char>,
    e: WimEntryView,
    stream: Result<Option<Seq<u8>>, WimFault>,
)
    ensures
        e.kind != WimEntryKind::File ==> verified(path, e, stream) == Ok::<u64, WimFault>(0u64),
        e.kind == WimEntryKind::File ==> match stream {
            Err(fault) => verified(path, e, stream) == Err::<u64, WimFault>(fault),
            Ok(None) => verified(path, e, stream) == Ok::<u64, WimFault>(0u64),
            Ok(Some(data)) => if data.len() == e.size && sha1_digest(data) == e.sha1 {
                verified(path, e, stream) == Ok::<u64, WimFault>(e.size)
            } else {
                verified(path, e, stream) matches Err(WimFault::Invalid { path: at, .. }) && at
                    == path
            },
        },
{
}

/// One more entry adds to a test as follows. A cancelled test fails. An entry that is
/// not selected is skipped. A selected file that is not intact fails the test, and else
/// it counts with its bytes. Any other selected entry counts without bytes.
pub proof fn law_tests_check_every_selected_file(
    path: Seq<char>,
    entries: Seq<WimEntryView>,
    streams: Seq<WimStream>,
    options: TestOptions,
    before: BackendView,
)
    requires
        0 < entries.len() <= usize::MAX,
        tested(path, entries.drop_last(), streams, options) == Ok::<BackendView, WimFault>(before),
    ensures
        ({
            let entry = entries.last();
            let result = tested(path, entries, streams, options);
            let stream = stream_of(streams, entries.len() - 1);
            if options.cancelled_from matches Some(n) && n < entries.len() {
                result == Err::<BackendView, WimFault>(WimFault::Cancelled)
            } else if !options.wants(entry.path) {
                result matches Ok(after) && after.entries == before.entries && after.bytes
                    == before.bytes && after.skipped_entries == before.skipped_entries + 1
            } else if entry.kind == WimEntryKind::File && (stream is Err || (stream matches Ok(
                Some(data),
            ) && !(data.len() == entry.size && sha1_digest(data) == entry.sha1))) {
                result is Err
            } else {
                let bytes = if entry.kind == WimEntryKind::File && stream->Ok_0 is Some {
                    entry.size as int
                } else {
                    0
                };
                result matches Ok(after) && after.entries == before.entries + 1
                    && after.skipped_entries == before.skipped_entries && (before.bytes + bytes
                    <= u64::MAX ==> after.bytes == before.bytes + bytes)
            }
        }),
{
    law_tests_account_for_every_entry(path, entries.drop_last(), streams, options);
    law_files_are_held_to_their_size_and_digest(
        path,
        entries.last(),
        stream_of(streams, entries.len() - 1),
    );
}

/// One more entry adds to an extraction as follows. A cancelled job fails it. A link that
/// leads nowhere is skipped with a warning. A rejected entry fails the extraction, and a
/// skipped entry is counted as skipped. A file counts with the bytes of its stream, and
/// a directory or a link counts without bytes. A link that the system does not support
/// is skipped with a warning. What goes wrong on the way fails the extraction.
pub proof fn law_extractions_add_what_was_done(
    entries: Seq<WimEntryView>,
    streams: Seq<WimStream>,
    answers: Seq<WimAnswer>,
    before: BackendView,
)
    requires
        0 < entries.len() <= usize::MAX,
        entries.len() <= answers.len(),
        extracted(entries.drop_last(), streams, answers) == Ok::<BackendView, WimFault>(before),
    ensures
        ({
            let entry = entries.last();
            let answer = answers[entries.len() - 1];
            let stream = stream_of(streams, entries.len() - 1);
            let result = extracted(entries, streams, answers);
            let nowhere = entry.kind == WimEntryKind::Symlink && (entry.link_target is None
                || entry.link_target->0.len() == 0);
            if answer.cancelled {
                result == Err::<BackendView, WimFault>(WimFault::Cancelled)
            } else if nowhere {
                result matches Ok(after) && after.entries == before.entries && after.bytes
                    == before.bytes && after.skipped_entries == before.skipped_entries + 1
                    && after.warnings.len() == before.warnings.len() + 1
            } else {
                match answer.decision {
                    EntryDecision::Rejected(m) => result == Err::<BackendView, WimFault>(
                        WimFault::Safety(m@),
                    ),
                    EntryDecision::Skip { warning } => result matches Ok(after) && after.entries
                        == before.entries && after.bytes == before.bytes && after.skipped_entries
                        == before.skipped_entries + 1 && after.warnings == before.warnings,
                    EntryDecision::Write { destination, replace_existing } => if entry.kind
                        == WimEntryKind::File {
                        if stream is Err {
                            result == Err::<BackendView, WimFault>(stream->Err_0)
                        } else if answer.made is Err {
                            result matches Err(WimFault::Io { path: at, .. }) && at == destination@
                        } else {
                            let bytes: int = match stream->Ok_0 {
                                Some(data) => data.len() as int,
                                None => 0,
                            };
                            result matches Ok(after) && after.entries == before.entries + 1
                                && after.skipped_entries == before.skipped_entries && (before.bytes
                                + bytes <= u64::MAX ==> after.bytes == before.bytes + bytes)
                        }
                    } else if entry.kind == WimEntryKind::Symlink
                        && answer.unsupported_symlink is Some {
                        result matches Ok(after) && after.entries == before.entries && after.bytes
                            == before.bytes && after.skipped_entries == before.skipped_entries + 1
                            && after.warnings.len() == before.warnings.len() + 1
                    } else if (replace_existing && answer.removed is Err) || answer.made is Err {
                        result matches Err(WimFault::Io { path: at, .. }) && at == destination@
                    } else {
                        result matches Ok(after) && after.entries == before.entries + 1
                            && after.bytes == before.bytes && after.skipped_entries
                            == before.skipped_entries && after.warnings == before.warnings
                    },
                }
            }
        }),
{
    law_extractions_account_for_every_entry(entries.drop_last(), streams, answers);
}

/// What there is to do for an entry follows from what it is: a directory is made, a file
/// is written, and a link is made to its own target. What stands in the way of a
/// directory or a link is removed first where it may be replaced.
pub proof fn law_work_follows_from_the_kind(
    e: WimEntryView,
    replace: bool,
    unsupported_symlink: Option<Seq<char>>,
)
    ensures
        ({
            let work = work_of(e, replace, unsupported_symlink);
            &&& e.kind == WimEntryKind::File <==> work is WriteFile
            &&& e.kind == WimEntryKind::Directory <==> work is MakeDirectory
            &&& work matches ArchiveWorkView::MakeDirectory { remove } ==> remove == replace
            &&& e.kind == WimEntryKind::Symlink ==> (work is MakeSymlink <==> (
            e.link_target matches Some(target) && target.len() > 0) && unsupported_symlink is None)
            &&& work matches ArchiveWorkView::MakeSymlink { target, remove } ==> e.link_target
                == Some(target) && remove == replace
        }),
{
}

proof fn lemma_file_with_path(entries: Seq<WimEntryView>, path: Seq<char>, i: int)
    requires
        0 <= i <= entries.len(),
    ensures
        match file_with_path(entries, path, i) {
            Some(at) => i <= at < entries.len() && entries[at].path == path && entries[at].kind
                == WimEntryKind::File && forall|k: int|
                i <= k < at ==> !((#[trigger] entries[k]).path == path && entries[k].kind
                    == WimEntryKind::File),
            None => forall|k: int|
                i <= k < entries.len() ==> !((#[trigger] entries[k]).path == path
                    && entries[k].kind == WimEntryKind::File),
        },
    decreases entries.len() - i,
{
    if i < entries.len() {
        lemma_file_with_path(entries, path, i + 1);
    }
}

/// A copy gives the stream of the first file with the path that was asked for, and is
/// refused where there is none.
pub proof fn law_copies_give_the_first_file_of_the_path(
    path: Seq<char>,
    listing: WimListing,
    entries: Seq<WimEntryView>,
    streams: Seq<WimStream>,
    target: Seq<char>,
)
    requires
        listed(listing) == Ok::<Seq<WimEntryView>, WimFault>(entries),
    ensures
        (forall|k: int|
            0 <= k < entries.len() ==> !((#[trigger] entries[k]).path == target && entries[k].kind
                == WimEntryKind::File)) ==> copied(path, listing, streams, target) is Err,
        forall|at: int|
            0 <= at < entries.len() && (#[trigger] entries[at]).path == target && entries[at].kind
                == WimEntryKind::File && (forall|k: int|
                0 <= k < at ==> !((#[trigger] entries[k]).path == target && entries[k].kind
                    == WimEntryKind::File)) ==> copied(path, listing, streams, target) == (
            match stream_of(streams, at) {
                Err(fault) => Err(fault),
                Ok(Some(data)) => Ok(data),
                Ok(None) => Ok(Seq::empty()),
            }),
{
    lemma_file_with_path(entries, target, 0);
    assert forall|at: int|
        0 <= at < entries.len() && (#[trigger] entries[at]).path == target && entries[at].kind
            == WimEntryKind::File && (forall|k: int|
            0 <= k < at ==> !((#[trigger] entries[k]).path == target && entries[k].kind
                == WimEntryKind::File)) implies copied(path, listing, streams, target) == (
    match stream_of(streams, at) {
        Err(fault) => Err::<Seq<u8>, WimFault>(fault),
        Ok(Some(data)) => Ok(data),
        Ok(None) => Ok(Seq::empty()),
    }) by {
        let found = file_with_path(entries, target, 0);
        assert(found is Some);
        assert(!(found->0 < at));
        assert(!(at < found->0));
    }
}

/// A fault of a WIM archive tells the path where there is one, and its own words.
pub proof fn law_faults_are_told(
    path: Seq<char>,
    source: crate::failure::IoFailureView,
    message: Seq<char>,
)
    ensures
        wim_message(WimFault::Plan(message)) == "manifest planning failed: "@ + message,
        wim_message(WimFault::Io { path, source }) == "I/O failed for "@ + path + ": "@
            + source.message,
        wim_message(WimFault::Safety(message)) == "extraction safety rejected entry: "@ + message,
        wim_message(WimFault::Invalid { path, message }) == "invalid WIM "@ + path + ": "@ + message,
        wim_message(WimFault::Unsupported { path, message }) == "unsupported WIM "@ + path + ": "@
            + message,
        wim_message(WimFault::Cancelled) == "job cancelled"@,
{
}

} // verus!
