//! Extracting archives: what is done for each member, and what the extraction
//! reports.
//!
//! The caller asks its safety planner about each member, does the work, and
//! hands back what came of it.
use crate::failure::{IoFailure, IoKind};
#[allow(unused_imports)]
use crate::failure::IoFailureView;
use crate::text::{chars_of, concat2, concat3, concat4};
#[allow(unused_imports)]
use crate::report::saturated;
#[allow(unused_imports)]
use crate::text::text_option;
use crate::tzap::archive::{
    ArchiveEntry, ArchiveIndexEntry, ExtractFailure, TarEntryKind, TzapArchive, TzapExtractReport,
    missing_warning, tzap_extract_error,
};
#[allow(unused_imports)]
use crate::tzap::archive::{ExtractView, extract_fault, missing_text};
use crate::tzap::error::{FormatFault, TzapError, invalid_archive, io_error, io_failed};
#[allow(unused_imports)]
use crate::tzap::error::{FormatFaultView, TzapFault, malformed};
use crate::tzap::progress::{JobEvent, push_event, push_reports};
#[allow(unused_imports)]
use crate::tzap::progress::{EventView, event_views, pair_views, with_reports};
#[allow(unused_imports)]
use crate::tzap::keys::password_view;
use crate::tzap::opening::ArchiveInput;
#[allow(unused_imports)]
use crate::tzap::opening::{archive_result, lent_archive};
use vstd::prelude::*;

verus! {

/// What the safety planner decided about a member.
#[derive(Debug, PartialEq, Eq)]
pub enum MemberDecision {
    /// It is not written, for this reason.
    Skip(String),
    /// It is unsafe.
    Rejected(String),
    /// It is written.
    Write {
        /// Where it goes.
        destination: String,
        /// Whether something that is there already gives way.
        replace_existing: bool,
        /// What a hard link leads to, where that was found out.
        link_target: Option<String>,
    },
}

/// What streaming a file to its destination came to.
#[derive(Debug, PartialEq, Eq)]
pub enum StreamStep {
    /// The output could not be made or put in its place.
    OutputFailed(IoFailure),
    /// The content could not be taken out.
    ContentFailed(ExtractFailure),
    /// The archive does not hold the content.
    Missing,
    /// It was done.
    Done,
}

/// What streaming a file of `size` bytes comes to.
pub open spec fn streamed(
    path: Seq<char>,
    size: u64,
    destination: Seq<char>,
    step: StreamStep,
) -> Result<Option<u64>, TzapFault> {
    match step {
        StreamStep::OutputFailed(failure) => Err(
            TzapFault::Io { path: destination, source: failure@ },
        ),
        StreamStep::ContentFailed(failure) => Err(extract_fault(path, failure)),
        StreamStep::Missing => Ok(None),
        StreamStep::Done => Ok(Some(size)),
    }
}

/// A size and an error, taken by its view.
pub open spec fn size_result(r: Result<Option<u64>, TzapError>) -> Result<Option<u64>, TzapFault> {
    match r {
        Ok(size) => Ok(size),
        Err(e) => Err(e@),
    }
}

/// Streams a file to its destination, given what each step came to.
pub fn stream_regular_member_to_destination(
    entry_path: &str,
    entry_size: u64,
    destination_path: &str,
    step: &StreamStep,
) -> (size: Result<Option<u64>, TzapError>)
    ensures
        size_result(size) == streamed(entry_path@, entry_size, destination_path@, *step),
{
    match step {
        StreamStep::OutputFailed(failure) => Err(io_failed(destination_path, failure)),
        StreamStep::ContentFailed(failure) => Err(tzap_extract_error(entry_path, failure)),
        StreamStep::Missing => Ok(None),
        StreamStep::Done => Ok(Some(entry_size)),
    }
}

/// What a member that is no file holds.
#[derive(Debug, PartialEq, Eq)]
pub struct ExtractedMember {
    pub path: String,
    pub kind: TarEntryKind,
    pub link_target: Option<String>,
}

/// What making a member that is no file came to.
#[derive(Debug, PartialEq, Eq)]
pub struct MaterializeAnswer {
    /// What removing the thing that gives way came to.
    pub removed: Result<(), IoFailure>,
    /// The warning to report where the platform cannot make symbolic links.
    pub unsupported_symlink: Option<String>,
    /// What making the directory or the link came to.
    pub made: Result<(), IoFailure>,
}

/// What is said of a hard link whose target the safety planner did not resolve.
pub open spec fn unresolved_hardlink() -> IoFailureView {
    IoFailureView {
        kind: IoKind::InvalidData,
        message: "hardlink target was not resolved by extraction safety planning"@,
    }
}

/// What making a member that is no file leaves in the report.
pub open spec fn materialized(
    report: ExtractView,
    member: ExtractedMember,
    destination: Seq<char>,
    replace: bool,
    link_target: Option<Seq<char>>,
    answer: MaterializeAnswer,
) -> Result<ExtractView, TzapFault> {
    let made = match answer.made {
        Ok(_) => Ok(report.wrote(0)),
        Err(failure) => Err(TzapFault::Io { path: destination, source: failure@ }),
    };
    if replace && member.kind != TarEntryKind::Regular && answer.removed is Err {
        Err(TzapFault::Io { path: destination, source: (answer.removed->Err_0)@ })
    } else {
        match member.kind {
            TarEntryKind::Regular => Err(
                malformed("regular TZAP member reached non-regular materializer"@),
            ),
            TarEntryKind::Directory => made,
            TarEntryKind::Symlink => match (answer.unsupported_symlink, member.link_target) {
                (Some(warning), _) => Ok(report.skipped(warning@)),
                (None, Some(_)) => made,
                (None, None) => Ok(
                    report.skipped("skipped symlink "@ + member.path@ + ": missing target"@),
                ),
            },
            TarEntryKind::Hardlink => match link_target {
                Some(_) => made,
                None => Err(
                    TzapFault::Io {
                        path: destination,
                        source: unresolved_hardlink(),
                    },
                ),
            },
        }
    }
}

/// Makes a member that is no file, given what each step came to. Such a member
/// has no content, so no bytes are processed.
pub fn materialize_non_regular_member(
    member: &ExtractedMember,
    destination: &str,
    replace_existing: bool,
    link_target: &Option<String>,
    answer: &MaterializeAnswer,
    report: &mut TzapExtractReport,
) -> (processed: Result<u64, TzapError>)
    requires
        old(report).written_entries < usize::MAX,
        old(report).skipped_entries < usize::MAX,
    ensures
        match processed {
            Ok(bytes) => bytes == 0 && materialized(
                old(report)@,
                *member,
                destination@,
                replace_existing,
                text_option(*link_target),
                *answer,
            ) == Ok::<ExtractView, TzapFault>(final(report)@),
            Err(e) => materialized(
                old(report)@,
                *member,
                destination@,
                replace_existing,
                text_option(*link_target),
                *answer,
            ) == Err::<ExtractView, TzapFault>(e@),
        },
        final(report).written_entries <= old(report).written_entries + 1,
        final(report).skipped_entries <= old(report).skipped_entries + 1,
        final(report).written_bytes == old(report).written_bytes,
{
    if replace_existing && member.kind != TarEntryKind::Regular {
        match &answer.removed {
            Ok(_) => {},
            Err(failure) => {
                return Err(io_failed(destination, failure));
            },
        }
    }
    match member.kind {
        TarEntryKind::Regular => {
            return Err(invalid_archive("regular TZAP member reached non-regular materializer"));
        },
        TarEntryKind::Directory => {},
        TarEntryKind::Symlink => {
            match &answer.unsupported_symlink {
                Some(warning) => {
                    report.skipped(warning.clone());
                    return Ok(0);
                },
                None => {},
            }
            match &member.link_target {
                Some(_) => {},
                None => {
                    report.skipped(
                        concat3("skipped symlink ", member.path.as_str(), ": missing target"),
                    );
                    return Ok(0);
                },
            }
        },
        TarEntryKind::Hardlink => {
            match link_target {
                Some(_) => {},
                None => {
                    return Err(
                        io_error(
                            destination,
                            IoKind::InvalidData,
                            "hardlink target was not resolved by extraction safety planning",
                        ),
                    );
                },
            }
        },
    }
    match &answer.made {
        Ok(_) => {
            report.wrote(0);
            Ok(0)
        },
        Err(failure) => Err(io_failed(destination, failure)),
    }
}

/// What the caller found when an extraction came to a member.
#[derive(Debug, PartialEq, Eq)]
pub struct MemberAnswer {
    /// Whether the job was cancelled by then.
    pub cancelled: bool,
    /// What loading a link ahead of the decision came to.
    pub preloaded: Result<Option<ExtractedMember>, FormatFault>,
    /// What the safety planner decided.
    pub decision: MemberDecision,
    /// What streaming a file came to.
    pub stream: StreamStep,
    /// The bytes that the reader told of while it streamed, with the path that it gave.
    pub reported: Vec<(String, u64)>,
    /// What loading a member that is no file came to.
    pub loaded: Result<Option<ExtractedMember>, FormatFault>,
    /// What making it came to.
    pub made: MaterializeAnswer,
}

/// What the safety planner is asked about.
pub enum SafetyKind {
    File,
    Directory,
    Symlink { target: Seq<char> },
    Hardlink { target: Seq<char> },
}

/// What a member is to the safety planner: a link counts with its target, or an
/// empty one where that is not known.
pub open spec fn safety_kind(
    entry: ArchiveEntry,
    preloaded: Option<ExtractedMember>,
) -> SafetyKind {
    let target = match preloaded {
        Some(member) => match member.link_target {
            Some(target) => target@,
            None => Seq::empty(),
        },
        None => Seq::empty(),
    };
    match entry.kind {
        TarEntryKind::Regular => SafetyKind::File,
        TarEntryKind::Directory => SafetyKind::Directory,
        TarEntryKind::Symlink => SafetyKind::Symlink { target },
        TarEntryKind::Hardlink => SafetyKind::Hardlink { target },
    }
}

/// What the safety planner is told of a member.
#[derive(Debug, PartialEq, Eq)]
pub enum ExtractionKind {
    File,
    Directory,
    Symlink {
        /// Where the link points.
        target: String,
    },
    Hardlink {
        /// What the link shares its content with.
        target: String,
    },
}

impl View for ExtractionKind {
    type V = SafetyKind;

    open spec fn view(&self) -> SafetyKind {
        match self {
            ExtractionKind::File => SafetyKind::File,
            ExtractionKind::Directory => SafetyKind::Directory,
            ExtractionKind::Symlink { target } => SafetyKind::Symlink { target: target@ },
            ExtractionKind::Hardlink { target } => SafetyKind::Hardlink { target: target@ },
        }
    }
}

/// What the safety planner is told of a member.
pub fn extraction_kind_from_tzap_entry(
    entry: &ArchiveEntry,
    preloaded: &Option<ExtractedMember>,
) -> (kind: ExtractionKind)
    ensures
        kind@ == safety_kind(*entry, *preloaded),
{
    let target: String = match preloaded {
        Some(member) => match &member.link_target {
            Some(target) => target.clone(),
            None => String::new(),
        },
        None => String::new(),
    };
    match entry.kind {
        TarEntryKind::Regular => ExtractionKind::File,
        TarEntryKind::Directory => ExtractionKind::Directory,
        TarEntryKind::Symlink => ExtractionKind::Symlink { target },
        TarEntryKind::Hardlink => ExtractionKind::Hardlink { target },
    }
}

/// Whether a member is loaded ahead of the decision about it: the planner has to
/// know where a link leads.
pub fn is_preloaded(kind: TarEntryKind) -> (r: bool)
    ensures
        r == (kind == TarEntryKind::Symlink || kind == TarEntryKind::Hardlink),
{
    match kind {
        TarEntryKind::Symlink => true,
        TarEntryKind::Hardlink => true,
        _ => false,
    }
}

/// How far an extraction has come.
pub struct Progress {
    pub report: ExtractView,
    pub events: Seq<EventView>,
}

/// What is said of a member that is skipped for a reason.
pub open spec fn skip_text(path: Seq<char>, reason: Seq<char>) -> Seq<char> {
    "skipped "@ + path + ": "@ + reason
}

/// How far an extraction has come once a member was skipped with a warning.
pub open spec fn skipped_member(p: Progress, path: Seq<char>, warning: Seq<char>) -> Progress {
    Progress {
        report: p.report.skipped(warning),
        events: p.events.push(EventView::Warning(warning)).push(
            EventView::EntryFinished { path, bytes: 0 },
        ),
    }
}

/// How far an extraction has come once the reader told of the bytes of a file.
pub open spec fn reported_member(p: Progress, reported: Seq<(String, u64)>) -> Progress {
    Progress { report: p.report, events: with_reports(p.events, pair_views(reported)) }
}

/// The member that is made: the one that was loaded ahead, else the one that is
/// loaded now.
pub open spec fn member_to_make(
    entry: ArchiveEntry,
    answer: MemberAnswer,
) -> Result<Option<ExtractedMember>, TzapFault> {
    let link = entry.kind == TarEntryKind::Symlink || entry.kind == TarEntryKind::Hardlink;
    if link && (answer.preloaded matches Ok(Some(_))) {
        Ok(answer.preloaded->Ok_0)
    } else {
        match answer.loaded {
            Ok(member) => Ok(member),
            Err(fault) => Err(TzapFault::Format(fault@)),
        }
    }
}

/// How far an extraction has come once a member was written, begun before.
pub open spec fn written_member(
    p: Progress,
    entry: ArchiveEntry,
    answer: MemberAnswer,
    destination: Seq<char>,
    replace: bool,
    link_target: Option<Seq<char>>,
) -> Result<Progress, TzapFault> {
    let path = entry.path@;
    if entry.kind == TarEntryKind::Regular {
        let q = reported_member(p, answer.reported@);
        match streamed(path, entry.file_data_size, destination, answer.stream) {
            Err(fault) => Err(fault),
            Ok(None) => Ok(skipped_member(q, path, missing_text(path))),
            Ok(Some(size)) => Ok(
                Progress {
                    report: q.report.wrote(size as int),
                    events: q.events.push(EventView::EntryFinished { path, bytes: size }),
                },
            ),
        }
    } else {
        match member_to_make(entry, answer) {
            Err(fault) => Err(fault),
            Ok(None) => Ok(skipped_member(p, path, missing_text(path))),
            Ok(Some(member)) => match materialized(
                p.report,
                member,
                destination,
                replace,
                link_target,
                answer.made,
            ) {
                Err(fault) => Err(fault),
                Ok(report) => Ok(
                    Progress {
                        report,
                        events: p.events.push(EventView::BytesProcessed { path, bytes: 0 }).push(
                            EventView::EntryFinished { path, bytes: 0 },
                        ),
                    },
                ),
            },
        }
    }
}

/// How far an extraction has come once one more member was dealt with.
pub open spec fn extract_step(p: Progress, entry: ArchiveEntry, answer: MemberAnswer) -> Result<
    Progress,
    TzapFault,
> {
    let path = entry.path@;
    let link = entry.kind == TarEntryKind::Symlink || entry.kind == TarEntryKind::Hardlink;
    let begun = Progress {
        report: p.report,
        events: p.events.push(EventView::EntryStarted { path, size: entry.file_data_size }),
    };
    if answer.cancelled {
        Err(TzapFault::Cancelled)
    } else if link && answer.preloaded is Err {
        Err(TzapFault::Format((answer.preloaded->Err_0)@))
    } else {
        match answer.decision {
            MemberDecision::Rejected(message) => Err(TzapFault::Safety(message@)),
            MemberDecision::Skip(reason) => Ok(
                skipped_member(begun, path, skip_text(path, reason@)),
            ),
            MemberDecision::Write { destination, replace_existing, link_target } => written_member(
                begun,
                entry,
                answer,
                destination@,
                replace_existing,
                text_option(link_target),
            ),
        }
    }
}

/// What was told once one more member was dealt with, whether or not that went well. A
/// member that fails has been begun, unless the job was cancelled or the link could not
/// be loaded, and the bytes of a file may have been told of.
pub open spec fn told_with_member(
    p: Progress,
    entry: ArchiveEntry,
    answer: MemberAnswer,
) -> Seq<EventView> {
    let link = entry.kind == TarEntryKind::Symlink || entry.kind == TarEntryKind::Hardlink;
    let begun = p.events.push(
        EventView::EntryStarted { path: entry.path@, size: entry.file_data_size },
    );
    match extract_step(p, entry, answer) {
        Ok(q) => q.events,
        Err(_) => if answer.cancelled || (link && answer.preloaded is Err) {
            p.events
        } else if entry.kind == TarEntryKind::Regular && answer.decision is Write {
            with_reports(begun, pair_views(answer.reported@))
        } else {
            begun
        },
    }
}

/// What an extraction told once it came to the end of the first `n` members, or to the
/// one among them that failed.
pub open spec fn told_extracting(
    files: Seq<ArchiveEntry>,
    answers: Seq<MemberAnswer>,
    n: nat,
) -> Seq<EventView>
    decreases n,
{
    if n == 0 {
        Seq::empty()
    } else {
        match extracted(files, answers, (n - 1) as nat) {
            Err(_) => told_extracting(files, answers, (n - 1) as nat),
            Ok(p) => told_with_member(p, files[n - 1], answers[n - 1]),
        }
    }
}

/// How far an extraction has come once the first `n` members were dealt with.
pub open spec fn extracted(files: Seq<ArchiveEntry>, answers: Seq<MemberAnswer>, n: nat) -> Result<
    Progress,
    TzapFault,
>
    decreases n,
{
    if n == 0 {
        Ok(Progress { report: ExtractView::nothing(), events: Seq::empty() })
    } else {
        match extracted(files, answers, (n - 1) as nat) {
            Err(fault) => Err(fault),
            Ok(p) => extract_step(p, files[n - 1], answers[n - 1]),
        }
    }
}

/// The bytes of the first `n` members.
pub open spec fn member_bytes(files: Seq<ArchiveEntry>, n: nat) -> int
    decreases n,
{
    if n == 0 {
        0
    } else {
        member_bytes(files, (n - 1) as nat) + files[n - 1].file_data_size
    }
}

/// What an extraction did and told.
#[derive(Debug, PartialEq, Eq)]
pub struct TzapExtraction {
    pub report: TzapExtractReport,
    pub events: Vec<JobEvent>,
}

impl View for TzapExtraction {
    type V = Progress;

    open spec fn view(&self) -> Progress {
        Progress { report: self.report@, events: event_views(self.events@) }
    }
}

/// An extraction and an error, taken by their views.
pub open spec fn extraction_result(r: Result<TzapExtraction, TzapError>) -> Result<
    Progress,
    TzapFault,
> {
    match r {
        Ok(x) => Ok(x@),
        Err(e) => Err(e@),
    }
}

impl TzapExtraction {
    /// Nothing done yet.
    pub fn new() -> (x: Self)
        ensures
            x@ == (Progress { report: ExtractView::nothing(), events: Seq::empty() }),
    {
        let x = TzapExtraction { report: TzapExtractReport::new(), events: Vec::new() };
        assert(event_views(x.events@) =~= Seq::<EventView>::empty());
        x
    }

    fn skip(&mut self, path: &str, warning: String)
        requires
            old(self).report.skipped_entries < usize::MAX,
        ensures
            final(self)@ == skipped_member(old(self)@, path@, warning@),
            final(self).report.skipped_entries == old(self).report.skipped_entries + 1,
            final(self).report.written_entries == old(self).report.written_entries,
            final(self).report.written_bytes == old(self).report.written_bytes,
    {
        let ghost before = self.report@;
        let told: String = warning.clone();
        self.report.skipped(warning);
        assert(self.report@.skipped_entries == before.skipped_entries + 1);
        assert(self.report@.written_entries == before.written_entries);
        assert(self.report@.written_bytes == before.written_bytes);
        push_event(&mut self.events, JobEvent::Warning(told));
        push_event(
            &mut self.events,
            JobEvent::EntryFinished { path: path.to_owned(), bytes: 0 },
        );
    }

    fn write_member(
        &mut self,
        entry: &ArchiveEntry,
        answer: &MemberAnswer,
        destination: &str,
        replace_existing: bool,
        link_target: &Option<String>,
    ) -> (r: Result<(), TzapError>)
        requires
            old(self).report.skipped_entries < usize::MAX,
            old(self).report.written_entries < usize::MAX,
            written_member(
                old(self)@,
                *entry,
                *answer,
                destination@,
                replace_existing,
                text_option(*link_target),
            ) matches Ok(p) ==> p.report.written_bytes <= u64::MAX,
        ensures
            match r {
                Ok(_) => written_member(
                    old(self)@,
                    *entry,
                    *answer,
                    destination@,
                    replace_existing,
                    text_option(*link_target),
                ) == Ok::<Progress, TzapFault>(final(self)@),
                Err(e) => written_member(
                    old(self)@,
                    *entry,
                    *answer,
                    destination@,
                    replace_existing,
                    text_option(*link_target),
                ) == Err::<Progress, TzapFault>(e@),
            },
            r is Err ==> event_views(final(self).events@) == (if entry.kind
                == TarEntryKind::Regular {
                reported_member(old(self)@, answer.reported@).events
            } else {
                old(self)@.events
            }),
            final(self).report.written_entries <= old(self).report.written_entries + 1,
            final(self).report.skipped_entries <= old(self).report.skipped_entries + 1,
    {
        let path: &str = entry.path.as_str();
        if entry.kind == TarEntryKind::Regular {
            push_reports(&mut self.events, &answer.reported);
            match stream_regular_member_to_destination(
                path,
                entry.file_data_size,
                destination,
                &answer.stream,
            ) {
                Err(e) => {
                    return Err(e);
                },
                Ok(None) => {
                    self.skip(path, missing_warning(path));
                    return Ok(());
                },
                Ok(Some(size)) => {
                    let ghost before = self.report@;
                    self.report.wrote(size);
                    assert(self.report@ == before.wrote(size as int));
                    push_event(
                        &mut self.events,
                        JobEvent::EntryFinished { path: path.to_owned(), bytes: size },
                    );
                    return Ok(());
                },
            }
        }
        let ahead: Option<&ExtractedMember> = if is_preloaded(entry.kind) {
            match &answer.preloaded {
                Ok(Some(member)) => Some(member),
                _ => None,
            }
        } else {
            None
        };
        let member: &ExtractedMember = match ahead {
            Some(member) => member,
            None => match &answer.loaded {
                Ok(Some(member)) => member,
                Ok(None) => {
                    self.skip(path, missing_warning(path));
                    return Ok(());
                },
                Err(fault) => {
                    return Err(TzapError::Format(fault.copy()));
                },
            },
        };
        let processed: u64 = match materialize_non_regular_member(
            member,
            destination,
            replace_existing,
            link_target,
            &answer.made,
            &mut self.report,
        ) {
            Ok(processed) => processed,
            Err(e) => {
                return Err(e);
            },
        };
        push_event(
            &mut self.events,
            JobEvent::BytesProcessed { path: path.to_owned(), bytes: processed },
        );
        push_event(
            &mut self.events,
            JobEvent::EntryFinished { path: path.to_owned(), bytes: processed },
        );
        Ok(())
    }

    fn member(&mut self, entry: &ArchiveEntry, answer: &MemberAnswer) -> (r: Result<(), TzapError>)
        requires
            old(self).report.skipped_entries < usize::MAX,
            old(self).report.written_entries < usize::MAX,
            extract_step(old(self)@, *entry, *answer) matches Ok(p) ==> p.report.written_bytes
                <= u64::MAX,
        ensures
            match r {
                Ok(_) => extract_step(old(self)@, *entry, *answer) == Ok::<Progress, TzapFault>(
                    final(self)@,
                ),
                Err(e) => extract_step(old(self)@, *entry, *answer) == Err::<Progress, TzapFault>(
                    e@,
                ),
            },
            event_views(final(self).events@) == told_with_member(old(self)@, *entry, *answer),
            final(self).report.written_entries <= old(self).report.written_entries + 1,
            final(self).report.skipped_entries <= old(self).report.skipped_entries + 1,
    {
        if answer.cancelled {
            return Err(TzapError::Cancelled);
        }
        if is_preloaded(entry.kind) {
            match &answer.preloaded {
                Ok(_) => {},
                Err(fault) => {
                    return Err(TzapError::Format(fault.copy()));
                },
            }
        }
        push_event(
            &mut self.events,
            JobEvent::EntryStarted { path: entry.path.clone(), size: entry.file_data_size },
        );
        match &answer.decision {
            MemberDecision::Rejected(message) => Err(TzapError::Safety(message.clone())),
            MemberDecision::Skip(reason) => {
                let warning: String = concat4(
                    "skipped ",
                    entry.path.as_str(),
                    ": ",
                    reason.as_str(),
                );
                self.skip(entry.path.as_str(), warning);
                Ok(())
            },
            MemberDecision::Write { destination, replace_existing, link_target } => {
                self.write_member(
                    entry,
                    answer,
                    destination.as_str(),
                    *replace_existing,
                    link_target,
                )
            },
        }
    }
}

/// What an extraction comes to: the destination has to be there and the archive
/// open, and then each member is dealt with in order.
pub open spec fn extraction(
    destination: Seq<char>,
    root: Result<(), IoFailure>,
    archive: Result<TzapArchive, TzapFault>,
    answers: Seq<MemberAnswer>,
) -> Result<Progress, TzapFault> {
    match (root, archive) {
        (Err(failure), _) => Err(TzapFault::Io { path: destination, source: failure@ }),
        (Ok(_), Err(fault)) => Err(fault),
        (Ok(_), Ok(archive)) => match archive.files {
            Err(fault) => Err(TzapFault::Format(fault@)),
            Ok(files) => extracted(files@, answers, files@.len()),
        },
    }
}

/// Whether there is an answer for every member, and the bytes that are written can be
/// counted.
pub open spec fn answers_fit(
    archive: Result<TzapArchive, TzapFault>,
    answers: Seq<MemberAnswer>,
) -> bool {
    archive matches Ok(a) ==> (a.files matches Ok(files) ==> bytes_fit(files@, answers))
}

/// Whether there is an answer for every member, and the bytes that are written can be
/// counted, however far an extraction gets.
pub open spec fn bytes_fit(files: Seq<ArchiveEntry>, answers: Seq<MemberAnswer>) -> bool {
    &&& files.len() == answers.len()
    &&& forall|n: nat|
        n <= files.len() ==> (#[trigger] extracted(files, answers, n) matches Ok(p)
            ==> p.report.written_bytes <= u64::MAX)
}

pub(crate) proof fn lemma_extracted_fails(
    files: Seq<ArchiveEntry>,
    answers: Seq<MemberAnswer>,
    k: nat,
    n: nat,
)
    requires
        k <= n,
        extracted(files, answers, k) is Err,
    ensures
        extracted(files, answers, n) == extracted(files, answers, k),
    decreases n,
{
    if k < n {
        lemma_extracted_fails(files, answers, k, (n - 1) as nat);
    }
}

proof fn lemma_told_ends(
    files: Seq<ArchiveEntry>,
    answers: Seq<MemberAnswer>,
    k: nat,
    n: nat,
)
    requires
        k <= n,
        extracted(files, answers, k) is Err,
    ensures
        told_extracting(files, answers, n) == told_extracting(files, answers, k),
    decreases n,
{
    if k < n {
        lemma_extracted_fails(files, answers, k, (n - 1) as nat);
        lemma_told_ends(files, answers, k, (n - 1) as nat);
    }
}

fn go_through_members(files: &Vec<ArchiveEntry>, answers: &Vec<MemberAnswer>) -> (r: (
    Result<(), TzapError>,
    TzapExtraction,
))
    requires
        bytes_fit(files@, answers@),
    ensures
        match r.0 {
            Ok(_) => extracted(files@, answers@, files@.len()) == Ok::<Progress, TzapFault>(r.1@),
            Err(e) => extracted(files@, answers@, files@.len()) == Err::<Progress, TzapFault>(e@),
        },
        event_views(r.1.events@) == told_extracting(files@, answers@, files@.len()),
{
    let mut x: TzapExtraction = TzapExtraction::new();
    let mut i: usize = 0;
    assert(files@.len() == files.len());
    while i < files.len()
        invariant
            i <= files@.len(),
            files@.len() == files.len(),
            bytes_fit(files@, answers@),
            x.report.written_entries <= i,
            x.report.skipped_entries <= i,
            extracted(files@, answers@, i as nat) == Ok::<Progress, TzapFault>(x@),
            told_extracting(files@, answers@, i as nat) == x@.events,
        decreases files@.len() - i,
    {
        proof {
            if extracted(files@, answers@, (i + 1) as nat) is Err {
                lemma_extracted_fails(files@, answers@, (i + 1) as nat, files@.len());
                lemma_told_ends(files@, answers@, (i + 1) as nat, files@.len());
            }
        }
        match x.member(&files[i], &answers[i]) {
            Ok(_) => {},
            Err(e) => {
                return (Err(e), x);
            },
        }
        i = i + 1;
    }
    (Ok(()), x)
}

fn extract_opened(
    destination: &str,
    root: &Result<(), IoFailure>,
    archive: Result<&TzapArchive, TzapError>,
    answers: &Vec<MemberAnswer>,
) -> (r: Result<TzapExtraction, TzapError>)
    requires
        answers_fit(lent_archive(archive), answers@),
    ensures
        extraction_result(r) == extraction(destination@, *root, lent_archive(archive), answers@),
{
    match root {
        Ok(_) => {},
        Err(failure) => {
            return Err(io_failed(destination, failure));
        },
    }
    let opened: &TzapArchive = match archive {
        Ok(opened) => opened,
        Err(e) => {
            return Err(e);
        },
    };
    let files: &Vec<ArchiveEntry> = match &opened.files {
        Ok(files) => files,
        Err(fault) => {
            return Err(TzapError::Format(fault.copy()));
        },
    };
    let (done, x) = go_through_members(files, answers);
    match done {
        Ok(_) => Ok(x),
        Err(e) => Err(e),
    }
}

/// What an extraction told, as far as it got.
pub open spec fn extraction_told(
    root: Result<(), IoFailure>,
    archive: Result<TzapArchive, TzapFault>,
    answers: Seq<MemberAnswer>,
) -> Seq<EventView> {
    match (root, archive) {
        (Ok(_), Ok(archive)) => match archive.files {
            Err(_) => Seq::empty(),
            Ok(files) => told_extracting(files@, answers, files@.len()),
        },
        _ => Seq::empty(),
    }
}

/// What an extraction tells, as far as it gets: where it fails, everything up to the
/// failure.
pub fn extraction_events(
    input: &ArchiveInput,
    password: Option<&str>,
    key_file: bool,
    root: &Result<(), IoFailure>,
    answers: &Vec<MemberAnswer>,
) -> (events: Vec<JobEvent>)
    requires
        input.is_complete(),
        answers_fit(archive_result(input.archive), answers@),
    ensures
        event_views(events@) == extraction_told(
            *root,
            input.opened_with(password_view(password), key_file, false),
            answers@,
        ),
{
    let none: Vec<JobEvent> = Vec::new();
    assert(event_views(none@) =~= Seq::<EventView>::empty());
    if root.is_err() {
        return none;
    }
    match input.open_with(password, key_file, false) {
        Ok(opened) => match &opened.files {
            Ok(files) => {
                let (_, x) = go_through_members(files, answers);
                x.events
            },
            Err(_) => none,
        },
        Err(_) => none,
    }
}

/// Extracts an archive, given what each step came to. `root` says whether the
/// destination could be prepared. A caller has a password, a recipient's key in a
/// file, or nothing.
pub fn extract_tzap_inner(
    input: &ArchiveInput,
    password: Option<&str>,
    key_file: bool,
    destination: &str,
    root: &Result<(), IoFailure>,
    answers: &Vec<MemberAnswer>,
) -> (r: Result<TzapExtraction, TzapError>)
    requires
        input.is_complete(),
        answers_fit(archive_result(input.archive), answers@),
    ensures
        extraction_result(r) == extraction(
            destination@,
            *root,
            input.opened_with(password_view(password), key_file, false),
            answers@,
        ),
{
    extract_opened(destination, root, input.open_with(password, key_file, false), answers)
}

/// A report and an error of an extraction.
pub open spec fn report_of(r: Result<Progress, TzapFault>) -> Result<ExtractView, TzapFault> {
    match r {
        Ok(p) => Ok(p.report),
        Err(fault) => Err(fault),
    }
}

fn report_only(r: Result<TzapExtraction, TzapError>) -> (report: Result<
    TzapExtractReport,
    TzapError,
>)
    ensures
        crate::tzap::archive::extract_result(report) == report_of(extraction_result(r)),
{
    match r {
        Ok(x) => Ok(x.report),
        Err(e) => Err(e),
    }
}

/// Extracts `.tzap` entries, opened with a passphrase.
pub fn extract_tzap_with_password(
    input: &ArchiveInput,
    password: &str,
    destination: &str,
    root: &Result<(), IoFailure>,
    answers: &Vec<MemberAnswer>,
) -> (report: Result<TzapExtractReport, TzapError>)
    requires
        input.is_complete(),
        answers_fit(archive_result(input.archive), answers@),
    ensures
        crate::tzap::archive::extract_result(report) == report_of(
            extraction(
                destination@,
                *root,
                input.opened_with(Some(password@), false, false),
                answers@,
            ),
        ),
{
    extract_tzap_with_optional_password(input, Some(password), destination, root, answers)
}

/// Extracts `.tzap` entries, opened with an optional passphrase.
pub fn extract_tzap_with_optional_password(
    input: &ArchiveInput,
    password: Option<&str>,
    destination: &str,
    root: &Result<(), IoFailure>,
    answers: &Vec<MemberAnswer>,
) -> (report: Result<TzapExtractReport, TzapError>)
    requires
        input.is_complete(),
        answers_fit(archive_result(input.archive), answers@),
    ensures
        crate::tzap::archive::extract_result(report) == report_of(
            extraction(
                destination@,
                *root,
                input.opened_with(password_view(password), false, false),
                answers@,
            ),
        ),
{
    report_only(extract_tzap_inner(input, password, false, destination, root, answers))
}

/// Extracts recipient-wrapped `.tzap` entries, opened with a private key in a file.
pub fn extract_tzap_with_recipient_key(
    input: &ArchiveInput,
    destination: &str,
    root: &Result<(), IoFailure>,
    answers: &Vec<MemberAnswer>,
) -> (report: Result<TzapExtractReport, TzapError>)
    requires
        input.is_complete(),
        answers_fit(archive_result(input.archive), answers@),
    ensures
        crate::tzap::archive::extract_result(report) == report_of(
            extraction(
                destination@,
                *root,
                input.opened_with(None, true, false),
                answers@,
            ),
        ),
{
    report_only(extract_tzap_inner(input, None, true, destination, root, answers))
}

/// Extracts `.tzap` entries and tells what the job tells.
pub fn extract_tzap_with_optional_password_and_context(
    input: &ArchiveInput,
    password: Option<&str>,
    destination: &str,
    root: &Result<(), IoFailure>,
    answers: &Vec<MemberAnswer>,
) -> (r: Result<TzapExtraction, TzapError>)
    requires
        input.is_complete(),
        answers_fit(archive_result(input.archive), answers@),
    ensures
        extraction_result(r) == extraction(
            destination@,
            *root,
            input.opened_with(password_view(password), false, false),
            answers@,
        ),
{
    extract_tzap_inner(input, password, false, destination, root, answers)
}

/// Extracts `.tzap` entries, opened with a passphrase, where the decisions about
/// existing files come from a resolver.
pub fn extract_tzap_with_overwrite_resolver_and_password(
    input: &ArchiveInput,
    password: &str,
    destination: &str,
    root: &Result<(), IoFailure>,
    answers: &Vec<MemberAnswer>,
) -> (report: Result<TzapExtractReport, TzapError>)
    requires
        input.is_complete(),
        answers_fit(archive_result(input.archive), answers@),
    ensures
        crate::tzap::archive::extract_result(report) == report_of(
            extraction(
                destination@,
                *root,
                input.opened_with(Some(password@), false, false),
                answers@,
            ),
        ),
{
    extract_tzap_with_overwrite_resolver_and_optional_password(
        input,
        Some(password),
        destination,
        root,
        answers,
    )
}

/// Extracts `.tzap` entries, opened with an optional passphrase, where the
/// decisions about existing files come from a resolver.
pub fn extract_tzap_with_overwrite_resolver_and_optional_password(
    input: &ArchiveInput,
    password: Option<&str>,
    destination: &str,
    root: &Result<(), IoFailure>,
    answers: &Vec<MemberAnswer>,
) -> (report: Result<TzapExtractReport, TzapError>)
    requires
        input.is_complete(),
        answers_fit(archive_result(input.archive), answers@),
    ensures
        crate::tzap::archive::extract_result(report) == report_of(
            extraction(
                destination@,
                *root,
                input.opened_with(password_view(password), false, false),
                answers@,
            ),
        ),
{
    report_only(extract_tzap_inner(input, password, false, destination, root, answers))
}

/// Extracts recipient-wrapped `.tzap` entries, opened with a private key in a file,
/// where the decisions about existing files come from a resolver.
pub fn extract_tzap_with_overwrite_resolver_and_recipient_key(
    input: &ArchiveInput,
    destination: &str,
    root: &Result<(), IoFailure>,
    answers: &Vec<MemberAnswer>,
) -> (report: Result<TzapExtractReport, TzapError>)
    requires
        input.is_complete(),
        answers_fit(archive_result(input.archive), answers@),
    ensures
        crate::tzap::archive::extract_result(report) == report_of(
            extraction(
                destination@,
                *root,
                input.opened_with(None, true, false),
                answers@,
            ),
        ),
{
    report_only(extract_tzap_inner(input, None, true, destination, root, answers))
}

/// What the caller found when an extraction by the index came to a member.
#[derive(Debug, PartialEq, Eq)]
pub struct IndexAnswer {
    /// Whether the job was cancelled by then.
    pub cancelled: bool,
    /// What the safety planner decided.
    pub decision: MemberDecision,
    /// What streaming a file came to.
    pub stream: StreamStep,
    /// The bytes that the reader told of while it streamed, with the path that it gave.
    pub reported: Vec<(String, u64)>,
    /// What making a directory came to.
    pub made: Result<(), IoFailure>,
}

/// Whether a path of the index stands for a directory.
pub open spec fn names_directory(path: Seq<char>) -> bool {
    path.len() > 0 && path.last() == '/'
}

/// What a path of the index stands for.
pub fn tzap_index_entry_kind(path: &str) -> (kind: ExtractionKind)
    ensures
        kind@ == (if names_directory(path@) {
            SafetyKind::Directory
        } else {
            SafetyKind::File
        }),
{
    let chars: Vec<char> = chars_of(path);
    if chars.len() > 0 && chars[chars.len() - 1] == '/' {
        ExtractionKind::Directory
    } else {
        ExtractionKind::File
    }
}

/// What is said of a member that the reader does not support.
pub open spec fn unsupported_text(path: Seq<char>) -> Seq<char> {
    "skipped unsupported entry "@ + path
}

/// How far an extraction by the index has come once a member was written, begun
/// before. Counting stops at the largest number.
pub open spec fn written_by_index(
    p: Progress,
    entry: ArchiveIndexEntry,
    answer: IndexAnswer,
    destination: Seq<char>,
) -> Result<Progress, TzapFault> {
    let path = entry.path@;
    if names_directory(path) {
        match answer.made {
            Err(failure) => Err(TzapFault::Io { path: destination, source: failure@ }),
            Ok(_) => Ok(
                Progress {
                    report: p.report.wrote(0),
                    events: p.events.push(EventView::EntryFinished { path, bytes: 0 }),
                },
            ),
        }
    } else {
        let q = reported_member(p, answer.reported@);
        match streamed(path, entry.file_data_size, destination, answer.stream) {
            Err(TzapFault::Format(FormatFaultView::ReaderUnsupported(_))) => Ok(
                skipped_member(q, path, unsupported_text(path)),
            ),
            Err(fault) => Err(fault),
            Ok(None) => Ok(skipped_member(q, path, missing_text(path))),
            Ok(Some(size)) => Ok(
                Progress {
                    report: ExtractView {
                        written_bytes: saturated(
                            q.report.written_bytes,
                            size as int,
                            u64::MAX as int,
                        ),
                        ..q.report.wrote(0)
                    },
                    events: q.events.push(EventView::EntryFinished { path, bytes: size }),
                },
            ),
        }
    }
}

/// How far an extraction by the index has come once one more member was dealt
/// with.
pub open spec fn index_step(p: Progress, entry: ArchiveIndexEntry, answer: IndexAnswer) -> Result<
    Progress,
    TzapFault,
> {
    let path = entry.path@;
    let begun = Progress {
        report: p.report,
        events: p.events.push(EventView::EntryStarted { path, size: entry.file_data_size }),
    };
    if answer.cancelled {
        Err(TzapFault::Cancelled)
    } else {
        match answer.decision {
            MemberDecision::Rejected(message) => Err(TzapFault::Safety(message@)),
            MemberDecision::Skip(reason) => Ok(
                skipped_member(begun, path, skip_text(path, reason@)),
            ),
            MemberDecision::Write { destination, replace_existing, link_target } => {
                written_by_index(begun, entry, answer, destination@)
            },
        }
    }
}

/// What was told once one more member of the index was dealt with, whether or not that
/// went well.
pub open spec fn told_with_entry(
    p: Progress,
    entry: ArchiveIndexEntry,
    answer: IndexAnswer,
) -> Seq<EventView> {
    let begun = p.events.push(
        EventView::EntryStarted { path: entry.path@, size: entry.file_data_size },
    );
    match index_step(p, entry, answer) {
        Ok(q) => q.events,
        Err(_) => if answer.cancelled {
            p.events
        } else if !names_directory(entry.path@) && answer.decision is Write {
            with_reports(begun, pair_views(answer.reported@))
        } else {
            begun
        },
    }
}

/// What an extraction by the index told once it came to the end of the first `n` members,
/// or to the one among them that failed.
pub open spec fn told_indexing(
    index: Seq<ArchiveIndexEntry>,
    answers: Seq<IndexAnswer>,
    n: nat,
) -> Seq<EventView>
    decreases n,
{
    if n == 0 {
        Seq::empty()
    } else {
        match indexed(index, answers, (n - 1) as nat) {
            Err(_) => told_indexing(index, answers, (n - 1) as nat),
            Ok(p) => told_with_entry(p, index[n - 1], answers[n - 1]),
        }
    }
}

/// How far an extraction by the index has come once the first `n` members were
/// dealt with.
pub open spec fn indexed(
    index: Seq<ArchiveIndexEntry>,
    answers: Seq<IndexAnswer>,
    n: nat,
) -> Result<Progress, TzapFault>
    decreases n,
{
    if n == 0 {
        Ok(Progress { report: ExtractView::nothing(), events: Seq::empty() })
    } else {
        match indexed(index, answers, (n - 1) as nat) {
            Err(fault) => Err(fault),
            Ok(p) => index_step(p, index[n - 1], answers[n - 1]),
        }
    }
}

/// What an extraction by the index comes to.
pub open spec fn index_extraction(
    destination: Seq<char>,
    root: Result<(), IoFailure>,
    archive: Result<TzapArchive, TzapFault>,
    answers: Seq<IndexAnswer>,
) -> Result<Progress, TzapFault> {
    match (root, archive) {
        (Err(failure), _) => Err(TzapFault::Io { path: destination, source: failure@ }),
        (Ok(_), Err(fault)) => Err(fault),
        (Ok(_), Ok(archive)) => match archive.index {
            Err(fault) => Err(TzapFault::Format(fault@)),
            Ok(index) => indexed(index@, answers, index@.len()),
        },
    }
}

proof fn lemma_indexed_fails(
    index: Seq<ArchiveIndexEntry>,
    answers: Seq<IndexAnswer>,
    k: nat,
    n: nat,
)
    requires
        k <= n,
        indexed(index, answers, k) is Err,
    ensures
        indexed(index, answers, n) == indexed(index, answers, k),
    decreases n,
{
    if k < n {
        lemma_indexed_fails(index, answers, k, (n - 1) as nat);
    }
}

proof fn lemma_index_told_ends(
    index: Seq<ArchiveIndexEntry>,
    answers: Seq<IndexAnswer>,
    k: nat,
    n: nat,
)
    requires
        k <= n,
        indexed(index, answers, k) is Err,
    ensures
        told_indexing(index, answers, n) == told_indexing(index, answers, k),
    decreases n,
{
    if k < n {
        lemma_indexed_fails(index, answers, k, (n - 1) as nat);
        lemma_index_told_ends(index, answers, k, (n - 1) as nat);
    }
}

fn go_through_index(index: &Vec<ArchiveIndexEntry>, answers: &Vec<IndexAnswer>) -> (r: (
    Result<(), TzapError>,
    TzapExtraction,
))
    requires
        index@.len() == answers@.len(),
    ensures
        match r.0 {
            Ok(_) => indexed(index@, answers@, index@.len()) == Ok::<Progress, TzapFault>(r.1@),
            Err(e) => indexed(index@, answers@, index@.len()) == Err::<Progress, TzapFault>(e@),
        },
        event_views(r.1.events@) == told_indexing(index@, answers@, index@.len()),
{
    let mut x: TzapExtraction = TzapExtraction::new();
    let mut i: usize = 0;
    assert(index@.len() == index.len());
    while i < index.len()
        invariant
            i <= index@.len(),
            index@.len() == index.len(),
            index@.len() == answers@.len(),
            x.report.written_entries <= i,
            x.report.skipped_entries <= i,
            indexed(index@, answers@, i as nat) == Ok::<Progress, TzapFault>(x@),
            told_indexing(index@, answers@, i as nat) == x@.events,
        decreases index@.len() - i,
    {
        proof {
            if indexed(index@, answers@, (i + 1) as nat) is Err {
                lemma_indexed_fails(index@, answers@, (i + 1) as nat, index@.len());
                lemma_index_told_ends(index@, answers@, (i + 1) as nat, index@.len());
            }
        }
        match x.member_by_index(&index[i], &answers[i]) {
            Ok(_) => {},
            Err(e) => {
                return (Err(e), x);
            },
        }
        i = i + 1;
    }
    (Ok(()), x)
}

fn is_unsupported(error: &TzapError) -> (r: bool)
    ensures
        r == (error@ matches TzapFault::Format(FormatFaultView::ReaderUnsupported(_))),
{
    match error {
        TzapError::Format(FormatFault::ReaderUnsupported(_)) => true,
        _ => false,
    }
}

impl TzapExtraction {
    fn write_by_index(
        &mut self,
        entry: &ArchiveIndexEntry,
        answer: &IndexAnswer,
        destination: &str,
    ) -> (r: Result<(), TzapError>)
        requires
            old(self).report.skipped_entries < usize::MAX,
            old(self).report.written_entries < usize::MAX,
        ensures
            match r {
                Ok(_) => written_by_index(old(self)@, *entry, *answer, destination@) == Ok::<
                    Progress,
                    TzapFault,
                >(final(self)@),
                Err(e) => written_by_index(old(self)@, *entry, *answer, destination@) == Err::<
                    Progress,
                    TzapFault,
                >(e@),
            },
            r is Err ==> event_views(final(self).events@) == (if names_directory(entry.path@) {
                old(self)@.events
            } else {
                reported_member(old(self)@, answer.reported@).events
            }),
            final(self).report.written_entries <= old(self).report.written_entries + 1,
            final(self).report.skipped_entries <= old(self).report.skipped_entries + 1,
    {
        let path: &str = entry.path.as_str();
        let directory: bool = match tzap_index_entry_kind(path) {
            ExtractionKind::Directory => true,
            _ => false,
        };
        if directory {
            match &answer.made {
                Ok(_) => {},
                Err(failure) => {
                    return Err(io_failed(destination, failure));
                },
            }
            self.report.wrote(0);
            push_event(
                &mut self.events,
                JobEvent::EntryFinished { path: path.to_owned(), bytes: 0 },
            );
            return Ok(());
        }
        push_reports(&mut self.events, &answer.reported);
        match stream_regular_member_to_destination(
            path,
            entry.file_data_size,
            destination,
            &answer.stream,
        ) {
            Err(e) => {
                if is_unsupported(&e) {
                    self.skip(path, concat2("skipped unsupported entry ", path));
                    return Ok(());
                }
                Err(e)
            },
            Ok(None) => {
                self.skip(path, missing_warning(path));
                Ok(())
            },
            Ok(Some(size)) => {
                let bytes: u64 = self.report.written_bytes.saturating_add(size);
                self.report.wrote(0);
                self.report.written_bytes = bytes;
                push_event(
                    &mut self.events,
                    JobEvent::EntryFinished { path: path.to_owned(), bytes: size },
                );
                Ok(())
            },
        }
    }

    fn member_by_index(&mut self, entry: &ArchiveIndexEntry, answer: &IndexAnswer) -> (r: Result<
        (),
        TzapError,
    >)
        requires
            old(self).report.skipped_entries < usize::MAX,
            old(self).report.written_entries < usize::MAX,
        ensures
            match r {
                Ok(_) => index_step(old(self)@, *entry, *answer) == Ok::<Progress, TzapFault>(
                    final(self)@,
                ),
                Err(e) => index_step(old(self)@, *entry, *answer) == Err::<Progress, TzapFault>(e@),
            },
            event_views(final(self).events@) == told_with_entry(old(self)@, *entry, *answer),
            final(self).report.written_entries <= old(self).report.written_entries + 1,
            final(self).report.skipped_entries <= old(self).report.skipped_entries + 1,
    {
        if answer.cancelled {
            return Err(TzapError::Cancelled);
        }
        push_event(
            &mut self.events,
            JobEvent::EntryStarted { path: entry.path.clone(), size: entry.file_data_size },
        );
        match &answer.decision {
            MemberDecision::Rejected(message) => Err(TzapError::Safety(message.clone())),
            MemberDecision::Skip(reason) => {
                let warning: String = concat4(
                    "skipped ",
                    entry.path.as_str(),
                    ": ",
                    reason.as_str(),
                );
                self.skip(entry.path.as_str(), warning);
                Ok(())
            },
            MemberDecision::Write { destination, replace_existing, link_target } => {
                self.write_by_index(entry, answer, destination.as_str())
            },
        }
    }
}

/// Extracts `.tzap` entries by the index alone.
///
/// This skips decoding full tar member metadata up front and uses index entries
/// when possible. Directory-only entries are created from index paths that end
/// with `/`. Unsupported or missing entries are skipped with warnings.
pub fn extract_tzap_with_optional_password_and_context_fast(
    input: &ArchiveInput,
    password: Option<&str>,
    destination: &str,
    root: &Result<(), IoFailure>,
    answers: &Vec<IndexAnswer>,
) -> (r: Result<TzapExtraction, TzapError>)
    requires
        input.is_complete(),
        input.archive matches Ok(a) ==> (a.index matches Ok(index) ==> index@.len()
            == answers@.len()),
    ensures
        extraction_result(r) == index_extraction(
            destination@,
            *root,
            input.opened_with(password_view(password), false, false),
            answers@,
        ),
{
    match root {
        Ok(_) => {},
        Err(failure) => {
            return Err(io_failed(destination, failure));
        },
    }
    let archive: Result<&TzapArchive, TzapError> = input.open_with(password, false, false);
    let opened: &TzapArchive = match archive {
        Ok(opened) => opened,
        Err(e) => {
            return Err(e);
        },
    };
    let index: &Vec<ArchiveIndexEntry> = match &opened.index {
        Ok(index) => index,
        Err(fault) => {
            return Err(TzapError::Format(fault.copy()));
        },
    };
    let (done, x) = go_through_index(index, answers);
    match done {
        Ok(_) => Ok(x),
        Err(e) => Err(e),
    }
}

/// What an extraction by the index told, as far as it got.
pub open spec fn index_extraction_told(
    root: Result<(), IoFailure>,
    archive: Result<TzapArchive, TzapFault>,
    answers: Seq<IndexAnswer>,
) -> Seq<EventView> {
    match (root, archive) {
        (Ok(_), Ok(archive)) => match archive.index {
            Err(_) => Seq::empty(),
            Ok(index) => told_indexing(index@, answers, index@.len()),
        },
        _ => Seq::empty(),
    }
}

/// What an extraction by the index tells, as far as it gets: where it fails, everything
/// up to the failure.
pub fn index_extraction_events(
    input: &ArchiveInput,
    password: Option<&str>,
    root: &Result<(), IoFailure>,
    answers: &Vec<IndexAnswer>,
) -> (events: Vec<JobEvent>)
    requires
        input.is_complete(),
        input.archive matches Ok(a) ==> (a.index matches Ok(index) ==> index@.len()
            == answers@.len()),
    ensures
        event_views(events@) == index_extraction_told(
            *root,
            input.opened_with(password_view(password), false, false),
            answers@,
        ),
{
    let none: Vec<JobEvent> = Vec::new();
    assert(event_views(none@) =~= Seq::<EventView>::empty());
    if root.is_err() {
        return none;
    }
    match input.open_with(password, false, false) {
        Ok(opened) => match &opened.index {
            Ok(index) => {
                let (_, x) = go_through_index(index, answers);
                x.events
            },
            Err(_) => none,
        },
        Err(_) => none,
    }
}

proof fn lemma_extracted_counts(files: Seq<ArchiveEntry>, answers: Seq<MemberAnswer>, n: nat)
    requires
        extracted(files, answers, n) is Ok,
    ensures
        ({
            let p = extracted(files, answers, n)->Ok_0;
            &&& p.report.written_entries + p.report.skipped_entries == n
            &&& p.report.warnings.len() == p.report.skipped_entries
            &&& p.report.written_bytes <= member_bytes(files, n)
            &&& 0 <= p.report.written_bytes
        }),
    decreases n,
{
    if n > 0 {
        lemma_extracted_counts(files, answers, (n - 1) as nat);
    }
}

/// An extraction accounts for every member: it was written, or skipped with a
/// warning of its own. No more bytes are reported than the members have.
pub proof fn law_extractions_account_for_every_member(
    files: Seq<ArchiveEntry>,
    answers: Seq<MemberAnswer>,
    p: Progress,
)
    requires
        extracted(files, answers, files.len()) == Ok::<Progress, TzapFault>(p),
    ensures
        p.report.written_entries + p.report.skipped_entries == files.len(),
        p.report.warnings.len() == p.report.skipped_entries,
        p.report.written_bytes <= member_bytes(files, files.len()),
{
    lemma_extracted_counts(files, answers, files.len());
}

/// Whether nothing stood in the way of a member: the planner let it through, and its
/// content or the member itself was there and could be written.
pub open spec fn went_well(entry: ArchiveEntry, answer: MemberAnswer) -> bool {
    &&& !answer.cancelled
    &&& answer.decision matches MemberDecision::Write { link_target, .. } && if entry.kind
        == TarEntryKind::Regular {
        answer.stream is Done
    } else {
        &&& answer.preloaded is Ok
        &&& member_to_make(entry, answer) matches Ok(Some(member)) && member.kind == entry.kind && (
        member.kind == TarEntryKind::Symlink ==> member.link_target is Some)
        &&& answer.made.removed is Ok && answer.made.made is Ok
        &&& answer.made.unsupported_symlink is None
        &&& entry.kind == TarEntryKind::Hardlink ==> link_target is Some
    }
}

/// The bytes of the files among the first `n` members.
pub open spec fn file_bytes(files: Seq<ArchiveEntry>, n: nat) -> int
    decreases n,
{
    if n == 0 {
        0
    } else {
        file_bytes(files, (n - 1) as nat) + (if files[n - 1].kind == TarEntryKind::Regular {
            files[n - 1].file_data_size as int
        } else {
            0
        })
    }
}

proof fn lemma_went_well(files: Seq<ArchiveEntry>, answers: Seq<MemberAnswer>, n: nat)
    requires
        n <= files.len(),
        forall|k: int| 0 <= k < n ==> went_well(#[trigger] files[k], answers[k]),
    ensures
        extracted(files, answers, n) matches Ok(p) && p.report.written_entries == n
            && p.report.skipped_entries == 0 && p.report.written_bytes == file_bytes(files, n)
            && p.report.warnings.len() == 0,
    decreases n,
{
    if n > 0 {
        lemma_went_well(files, answers, (n - 1) as nat);
        assert(went_well(files[n - 1], answers[n - 1]));
    }
}

/// Where nothing stands in the way, an extraction writes every member and counts the
/// bytes of every file, and it has nothing to warn of.
pub proof fn law_untroubled_extractions_write_everything(
    files: Seq<ArchiveEntry>,
    answers: Seq<MemberAnswer>,
)
    requires
        forall|k: int| 0 <= k < files.len() ==> went_well(#[trigger] files[k], answers[k]),
    ensures
        extracted(files, answers, files.len()) matches Ok(p) && p.report.written_entries
            == files.len() && p.report.skipped_entries == 0 && p.report.written_bytes
            == file_bytes(files, files.len()) && p.report.warnings.len() == 0,
{
    lemma_went_well(files, answers, files.len());
}

/// An extraction that came to its end told exactly what it says that it told.
pub proof fn law_finished_extractions_told_everything(
    files: Seq<ArchiveEntry>,
    answers: Seq<MemberAnswer>,
    n: nat,
)
    ensures
        extracted(files, answers, n) matches Ok(p) ==> told_extracting(files, answers, n)
            == p.events,
{
}

/// What an extraction told stays told, however it ends.
pub proof fn law_told_events_stay(
    files: Seq<ArchiveEntry>,
    answers: Seq<MemberAnswer>,
    k: nat,
    n: nat,
)
    requires
        k <= n,
    ensures
        told_extracting(files, answers, k).is_prefix_of(told_extracting(files, answers, n)),
    decreases n,
{
    if k < n {
        law_told_events_stay(files, answers, k, (n - 1) as nat);
        law_finished_extractions_told_everything(files, answers, (n - 1) as nat);
    }
}

proof fn lemma_indexed_counts(index: Seq<ArchiveIndexEntry>, answers: Seq<IndexAnswer>, n: nat)
    requires
        indexed(index, answers, n) is Ok,
    ensures
        ({
            let p = indexed(index, answers, n)->Ok_0;
            &&& p.report.written_entries + p.report.skipped_entries == n
            &&& p.report.warnings.len() == p.report.skipped_entries
        }),
    decreases n,
{
    if n > 0 {
        lemma_indexed_counts(index, answers, (n - 1) as nat);
    }
}

/// An extraction by the index accounts for every entry of it in the same way.
pub proof fn law_index_extractions_account_for_every_entry(
    index: Seq<ArchiveIndexEntry>,
    answers: Seq<IndexAnswer>,
    p: Progress,
)
    requires
        indexed(index, answers, index.len()) == Ok::<Progress, TzapFault>(p),
    ensures
        p.report.written_entries + p.report.skipped_entries == index.len(),
        p.report.warnings.len() == p.report.skipped_entries,
{
    lemma_indexed_counts(index, answers, index.len());
}

/// One more member adds to an extraction as follows. A cancelled job, a link that cannot
/// be read and a rejected member fail it. A skipped member is counted as skipped, with one
/// warning that names it. A file that was written counts with its size; one that is not
/// there is skipped with a warning; one that cannot be read or written fails the
/// extraction. A directory, a link to a target and a hard link whose target was resolved
/// count without bytes once they are made. A link that the system does not support, or
/// one without a target, is skipped with a warning.
pub proof fn law_extractions_add_what_was_done(
    files: Seq<ArchiveEntry>,
    answers: Seq<MemberAnswer>,
    n: nat,
    before: Progress,
)
    requires
        n < files.len(),
        extracted(files, answers, n) == Ok::<Progress, TzapFault>(before),
    ensures
        ({
            let entry = files[n as int];
            let answer = answers[n as int];
            let result = extracted(files, answers, n + 1);
            let link = entry.kind == TarEntryKind::Symlink || entry.kind == TarEntryKind::Hardlink;
            if answer.cancelled {
                result == Err::<Progress, TzapFault>(TzapFault::Cancelled)
            } else if link && answer.preloaded is Err {
                result matches Err(fault) && fault is Format
            } else {
                match answer.decision {
                    MemberDecision::Rejected(m) => result == Err::<Progress, TzapFault>(
                        TzapFault::Safety(m@),
                    ),
                    MemberDecision::Skip(_) => result matches Ok(after) && is_skipped_after(
                        before.report,
                        after.report,
                    ),
                    MemberDecision::Write { destination, replace_existing, link_target } => {
                        if entry.kind == TarEntryKind::Regular {
                            match answer.stream {
                                StreamStep::Done => result matches Ok(after) && is_written_after(
                                    before.report,
                                    after.report,
                                    entry.file_data_size as int,
                                ),
                                StreamStep::Missing => result matches Ok(after) && is_skipped_after(
                                    before.report,
                                    after.report,
                                ),
                                StreamStep::OutputFailed(m) => result == Err::<Progress, TzapFault>(
                                    TzapFault::Io { path: destination@, source: m@ },
                                ),
                                StreamStep::ContentFailed(_) => result is Err,
                            }
                        } else {
                            let member = if link && answer.preloaded->Ok_0 is Some {
                                answer.preloaded->Ok_0
                            } else if answer.loaded is Ok {
                                answer.loaded->Ok_0
                            } else {
                                None
                            };
                            match member {
                                None => if answer.loaded is Err {
                                    result matches Err(fault) && fault is Format
                                } else {
                                    result matches Ok(after) && is_skipped_after(
                                        before.report,
                                        after.report,
                                    )
                                },
                                Some(member) => if replace_existing && member.kind
                                    != TarEntryKind::Regular && answer.made.removed is Err {
                                    result == Err::<Progress, TzapFault>(
                                        TzapFault::Io {
                                            path: destination@,
                                            source: (answer.made.removed->Err_0)@,
                                        },
                                    )
                                } else if member.kind == TarEntryKind::Regular {
                                    result is Err
                                } else if member.kind == TarEntryKind::Symlink && (
                                answer.made.unsupported_symlink is Some
                                    || member.link_target is None) {
                                    result matches Ok(after) && is_skipped_after(
                                        before.report,
                                        after.report,
                                    )
                                } else if (member.kind == TarEntryKind::Hardlink
                                    && link_target is None) || answer.made.made is Err {
                                    result matches Err(TzapFault::Io { path, .. }) && path
                                        == destination@
                                } else {
                                    result matches Ok(after) && is_written_after(
                                        before.report,
                                        after.report,
                                        0,
                                    )
                                },
                            }
                        }
                    },
                }
            }
        }),
{
}

/// Whether a report has one more skipped member, with one more warning, and nothing else.
pub open spec fn is_skipped_after(before: ExtractView, after: ExtractView) -> bool {
    &&& after.written_entries == before.written_entries
    &&& after.written_bytes == before.written_bytes
    &&& after.skipped_entries == before.skipped_entries + 1
    &&& after.warnings.len() == before.warnings.len() + 1
    &&& forall|k: int|
        0 <= k < before.warnings.len() ==> #[trigger] after.warnings[k] == before.warnings[k]
}

/// Whether a report has one more written member with so many bytes, and nothing else.
pub open spec fn is_written_after(before: ExtractView, after: ExtractView, bytes: int) -> bool {
    &&& after.written_entries == before.written_entries + 1
    &&& after.written_bytes == before.written_bytes + bytes
    &&& after.skipped_entries == before.skipped_entries
    &&& after.warnings == before.warnings
}

/// Every member is told of from its beginning to its end: first that it begins, with its
/// size, and last that it has ended, with the bytes that were written for it.
pub proof fn law_members_are_told_of_from_beginning_to_end(
    files: Seq<ArchiveEntry>,
    answers: Seq<MemberAnswer>,
    n: nat,
    before: Progress,
    after: Progress,
)
    requires
        n < files.len(),
        extracted(files, answers, n) == Ok::<Progress, TzapFault>(before),
        extracted(files, answers, n + 1) == Ok::<Progress, TzapFault>(after),
    ensures
        ({
            let path = files[n as int].path@;
            &&& after.events.len() >= before.events.len() + 2
            &&& after.events.take(before.events.len() as int) == before.events
            &&& after.events[before.events.len() as int] == (EventView::EntryStarted {
                path,
                size: files[n as int].file_data_size,
            })
            &&& after.events.last() == (EventView::EntryFinished {
                path,
                bytes: (after.report.written_bytes - before.report.written_bytes) as u64,
            })
        }),
{
    let entry = files[n as int];
    let answer = answers[n as int];
    let begun = before.events.push(
        EventView::EntryStarted { path: entry.path@, size: entry.file_data_size },
    );
    lemma_reports_extend(begun, pair_views(answer.reported@));
    assert(after.events.take(before.events.len() as int) =~= before.events);
}

proof fn lemma_reports_extend(events: Seq<EventView>, reports: Seq<(Seq<char>, u64)>)
    ensures
        with_reports(events, reports).len() >= events.len(),
        with_reports(events, reports).take(events.len() as int) == events,
    decreases reports.len(),
{
    if reports.len() > 0 {
        lemma_reports_extend(events, reports.drop_last());
    }
    assert(with_reports(events, reports).take(events.len() as int) =~= events);
}

/// The planner is told what a member is and, of a link, where it points.
pub proof fn law_the_planner_is_told_where_links_point(
    entry: ArchiveEntry,
    member: ExtractedMember,
    target: String,
)
    requires
        member.link_target == Some(target),
    ensures
        entry.kind == TarEntryKind::Regular ==> safety_kind(entry, Some(member)) is File,
        entry.kind == TarEntryKind::Directory ==> safety_kind(entry, Some(member)) is Directory,
        entry.kind == TarEntryKind::Symlink ==> safety_kind(entry, Some(member)) == (
        SafetyKind::Symlink { target: target@ }),
        entry.kind == TarEntryKind::Hardlink ==> safety_kind(entry, Some(member)) == (
        SafetyKind::Hardlink { target: target@ }),
{
}

/// One more entry of the index adds to an extraction as follows. A cancelled job and a
/// rejected entry fail it, and a skipped entry is counted as skipped, with one warning. A
/// path that ends with a slash is a directory, which counts without bytes. Any other
/// entry is a file, which counts with its size once it is written; one that is not there,
/// or that the reader does not support, is skipped with a warning.
pub proof fn law_index_extractions_add_what_was_done(
    index: Seq<ArchiveIndexEntry>,
    answers: Seq<IndexAnswer>,
    n: nat,
    before: Progress,
)
    requires
        n < index.len(),
        indexed(index, answers, n) == Ok::<Progress, TzapFault>(before),
    ensures
        ({
            let entry = index[n as int];
            let answer = answers[n as int];
            let result = indexed(index, answers, n + 1);
            let is_directory = entry.path@.len() > 0 && entry.path@.last() == '/';
            if answer.cancelled {
                result == Err::<Progress, TzapFault>(TzapFault::Cancelled)
            } else {
                match answer.decision {
                    MemberDecision::Rejected(m) => result == Err::<Progress, TzapFault>(
                        TzapFault::Safety(m@),
                    ),
                    MemberDecision::Skip(_) => result matches Ok(after) && is_skipped_after(
                        before.report,
                        after.report,
                    ),
                    MemberDecision::Write { destination, .. } => if is_directory {
                        match answer.made {
                            Ok(_) => result matches Ok(after) && is_written_after(
                                before.report,
                                after.report,
                                0,
                            ),
                            Err(m) => result == Err::<Progress, TzapFault>(
                                TzapFault::Io { path: destination@, source: m@ },
                            ),
                        }
                    } else {
                        match answer.stream {
                            StreamStep::Done => result matches Ok(after) && (
                            before.report.written_bytes + entry.file_data_size <= u64::MAX
                                ==> is_written_after(
                                before.report,
                                after.report,
                                entry.file_data_size as int,
                            )),
                            StreamStep::Missing => result matches Ok(after) && is_skipped_after(
                                before.report,
                                after.report,
                            ),
                            StreamStep::OutputFailed(m) => result == Err::<Progress, TzapFault>(
                                TzapFault::Io { path: destination@, source: m@ },
                            ),
                            StreamStep::ContentFailed(failure) => if extract_fault(
                                entry.path@,
                                failure,
                            ) matches TzapFault::Format(FormatFaultView::ReaderUnsupported(_)) {
                                result matches Ok(after) && is_skipped_after(
                                    before.report,
                                    after.report,
                                )
                            } else {
                                result == Err::<Progress, TzapFault>(
                                    extract_fault(entry.path@, failure),
                                )
                            },
                        }
                    },
                }
            }
        }),
{
}

/// Nothing is told of an extraction whose destination or archive cannot be used; otherwise
/// everything that was told of every member is.
pub proof fn law_extractions_tell_of_every_member(
    root: Result<(), IoFailure>,
    archive: TzapArchive,
    answers: Seq<MemberAnswer>,
)
    ensures
        root is Err ==> extraction_told(root, Ok(archive), answers).len() == 0,
        forall|fault: TzapFault| #[trigger] extraction_told(root, Err(fault), answers).len() == 0,
        root is Ok ==> (archive.files matches Ok(files) ==> extraction_told(
            root,
            Ok(archive),
            answers,
        ) == told_extracting(files@, answers, files@.len())),
{
}

/// An extraction by the index goes through the whole index, unless the destination, the
/// archive or the index cannot be used, and it tells of every entry.
pub proof fn law_index_extractions_go_through_the_index(
    destination: Seq<char>,
    root: Result<(), IoFailure>,
    archive: TzapArchive,
    answers: Seq<IndexAnswer>,
)
    ensures
        root matches Err(failure) ==> index_extraction(destination, root, Ok(archive), answers)
            == Err::<Progress, TzapFault>(TzapFault::Io { path: destination, source: failure@ }),
        root is Ok ==> (archive.index matches Err(fault) ==> index_extraction(
            destination,
            root,
            Ok(archive),
            answers,
        ) == Err::<Progress, TzapFault>(TzapFault::Format(fault@))),
        root is Ok ==> (archive.index matches Ok(index) ==> index_extraction(
            destination,
            root,
            Ok(archive),
            answers,
        ) == indexed(index@, answers, index@.len())),
        root is Ok ==> (archive.index matches Ok(index) ==> index_extraction_told(
            root,
            Ok(archive),
            answers,
        ) == told_indexing(index@, answers, index@.len())),
        root is Err ==> index_extraction_told(root, Ok(archive), answers).len() == 0,
        forall|fault: TzapFault| #[trigger]
            index_extraction(destination, root, Err(fault), answers) is Err,
        forall|fault: TzapFault| #[trigger]
            index_extraction_told(root, Err(fault), answers).len() == 0,
{
}

/// An entry of the index is told of as begun before anything else is told of it; what was
/// told before stays told. A cancelled entry is not told of.
pub proof fn law_entries_of_the_index_are_told_of_from_their_beginning(
    index: Seq<ArchiveIndexEntry>,
    answers: Seq<IndexAnswer>,
    n: nat,
)
    requires
        n < index.len(),
        n < answers.len(),
        indexed(index, answers, n) is Ok,
    ensures
        ({
            let before = (indexed(index, answers, n)->Ok_0).events;
            let told = told_indexing(index, answers, n + 1);
            let entry = index[n as int];
            &&& told.take(before.len() as int) == before
            &&& answers[n as int].cancelled ==> told == before
            &&& !answers[n as int].cancelled ==> told.len() > before.len() && told[before.len() as int]
                == (EventView::EntryStarted { path: entry.path@, size: entry.file_data_size })
            &&& indexed(index, answers, n + 1) matches Ok(p) ==> told == p.events
        }),
{
    let p = indexed(index, answers, n)->Ok_0;
    let told = told_indexing(index, answers, n + 1);
    assert(told == told_with_entry(p, index[n as int], answers[n as int]));
    assert(told.take(p.events.len() as int) =~= p.events);
}

} // verus!
