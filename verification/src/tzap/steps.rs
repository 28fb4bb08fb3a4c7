//! What is done next for a member that is extracted, and when an extraction stops.
//!
//! The caller does one step after the other, notes which steps are done, and asks
//! again. What a step came to stands in the member's answer.
use crate::failure::IoFailure;
use crate::tzap::archive::{
    ArchiveEntry, ArchiveIndexEntry, ExtractFailure, TarEntryKind,
};
#[allow(unused_imports)]
use crate::tzap::error::TzapFault;
use crate::tzap::extract::{
    ExtractedMember, ExtractionKind, IndexAnswer, MemberAnswer, MemberDecision, StreamStep,
    is_preloaded, tzap_index_entry_kind,
};
#[allow(unused_imports)]
use crate::tzap::extract::{
    Progress, bytes_fit, extract_step, extracted, index_step, lemma_extracted_fails,
    member_to_make, names_directory, told_with_member,
};
use vstd::prelude::*;

verus! {

/// What is done next for a member.
#[derive(Clone, Copy, Debug, PartialEq, Eq, Structural)]
pub enum MemberStep {
    /// Find out whether the job was cancelled.
    CheckCancelled,
    /// Load a link ahead of the decision.
    Preload,
    /// Ask the safety planner.
    Decide,
    /// Stream a file to its destination.
    Stream,
    /// Load a member that is no file.
    Load,
    /// Remove what gives way.
    RemoveExisting,
    /// Find out whether the platform can make symbolic links.
    AskForSymlinks,
    /// Make a directory.
    MakeDirectory,
    /// Make a symbolic link.
    MakeSymlink,
    /// Make a hard link.
    MakeHardlink,
    /// Nothing more.
    Finished,
}

/// Which steps were done for a member.
#[derive(Clone, Copy, Debug, PartialEq, Eq, Structural)]
pub struct MemberDone {
    pub checked: bool,
    pub preloaded: bool,
    pub decided: bool,
    pub streamed: bool,
    pub loaded: bool,
    pub removed: bool,
    pub asked: bool,
    pub made: bool,
}

impl MemberDone {
    /// No step was done yet.
    pub fn nothing() -> (done: Self)
        ensures
            !done.checked && !done.preloaded && !done.decided && !done.streamed && !done.loaded
                && !done.removed && !done.asked && !done.made,
    {
        MemberDone {
            checked: false,
            preloaded: false,
            decided: false,
            streamed: false,
            loaded: false,
            removed: false,
            asked: false,
            made: false,
        }
    }
}

/// What is done next to make a member that is no file.
pub open spec fn making_step(
    member: ExtractedMember,
    replace: bool,
    resolved: bool,
    answer: MemberAnswer,
    done: MemberDone,
) -> MemberStep {
    if replace && member.kind != TarEntryKind::Regular && !done.removed {
        MemberStep::RemoveExisting
    } else if replace && member.kind != TarEntryKind::Regular && answer.made.removed is Err {
        MemberStep::Finished
    } else {
        match member.kind {
            TarEntryKind::Regular => MemberStep::Finished,
            TarEntryKind::Directory => if done.made {
                MemberStep::Finished
            } else {
                MemberStep::MakeDirectory
            },
            TarEntryKind::Symlink => if !done.asked {
                MemberStep::AskForSymlinks
            } else if answer.made.unsupported_symlink is Some || member.link_target is None
                || done.made {
                MemberStep::Finished
            } else {
                MemberStep::MakeSymlink
            },
            TarEntryKind::Hardlink => if !resolved || done.made {
                MemberStep::Finished
            } else {
                MemberStep::MakeHardlink
            },
        }
    }
}

/// What is done next for a member. A failure ends the work, and nothing is done that
/// an earlier step rules out.
pub open spec fn member_step(
    entry: ArchiveEntry,
    answer: MemberAnswer,
    done: MemberDone,
) -> MemberStep {
    let link = entry.kind == TarEntryKind::Symlink || entry.kind == TarEntryKind::Hardlink;
    if !done.checked {
        MemberStep::CheckCancelled
    } else if answer.cancelled {
        MemberStep::Finished
    } else if link && !done.preloaded {
        MemberStep::Preload
    } else if link && answer.preloaded is Err {
        MemberStep::Finished
    } else if !done.decided {
        MemberStep::Decide
    } else {
        match answer.decision {
            MemberDecision::Rejected(_) => MemberStep::Finished,
            MemberDecision::Skip(_) => MemberStep::Finished,
            MemberDecision::Write { destination, replace_existing, link_target } => {
                if entry.kind == TarEntryKind::Regular {
                    if done.streamed {
                        MemberStep::Finished
                    } else {
                        MemberStep::Stream
                    }
                } else if !(link && (answer.preloaded matches Ok(Some(_)))) && !done.loaded {
                    MemberStep::Load
                } else {
                    match member_to_make(entry, answer) {
                        Ok(Some(member)) => making_step(
                            member,
                            replace_existing,
                            link_target is Some,
                            answer,
                            done,
                        ),
                        _ => MemberStep::Finished,
                    }
                }
            },
        }
    }
}

/// The member that is made, if there is one.
fn find_member<'a>(entry: &ArchiveEntry, answer: &'a MemberAnswer) -> (member: Option<
    &'a ExtractedMember,
>)
    ensures
        match member {
            Some(m) => member_to_make(*entry, *answer) == Ok::<Option<ExtractedMember>, TzapFault>(
                Some(*m),
            ),
            None => !(member_to_make(*entry, *answer) matches Ok(Some(_))),
        },
{
    if is_preloaded(entry.kind) {
        match &answer.preloaded {
            Ok(Some(member)) => {
                return Some(member);
            },
            _ => {},
        }
    }
    match &answer.loaded {
        Ok(Some(member)) => Some(member),
        _ => None,
    }
}

fn next_making_step(
    member: &ExtractedMember,
    replace: bool,
    resolved: bool,
    answer: &MemberAnswer,
    done: &MemberDone,
) -> (step: MemberStep)
    ensures
        step == making_step(*member, replace, resolved, *answer, *done),
{
    if replace && member.kind != TarEntryKind::Regular {
        if !done.removed {
            return MemberStep::RemoveExisting;
        }
        match &answer.made.removed {
            Ok(_) => {},
            Err(_) => {
                return MemberStep::Finished;
            },
        }
    }
    match member.kind {
        TarEntryKind::Regular => MemberStep::Finished,
        TarEntryKind::Directory => if done.made {
            MemberStep::Finished
        } else {
            MemberStep::MakeDirectory
        },
        TarEntryKind::Symlink => {
            if !done.asked {
                return MemberStep::AskForSymlinks;
            }
            if answer.made.unsupported_symlink.is_some() || member.link_target.is_none()
                || done.made {
                MemberStep::Finished
            } else {
                MemberStep::MakeSymlink
            }
        },
        TarEntryKind::Hardlink => if !resolved || done.made {
            MemberStep::Finished
        } else {
            MemberStep::MakeHardlink
        },
    }
}

/// Decides what is done next for a member, given what was done and what came of it.
pub fn next_member_step(
    entry: &ArchiveEntry,
    so_far: &MemberAnswer,
    done: &MemberDone,
) -> (step: MemberStep)
    ensures
        step == member_step(*entry, *so_far, *done),
{
    if !done.checked {
        return MemberStep::CheckCancelled;
    }
    if so_far.cancelled {
        return MemberStep::Finished;
    }
    let mut ahead: bool = false;
    if is_preloaded(entry.kind) {
        if !done.preloaded {
            return MemberStep::Preload;
        }
        match &so_far.preloaded {
            Ok(Some(_)) => {
                ahead = true;
            },
            Ok(None) => {},
            Err(_) => {
                return MemberStep::Finished;
            },
        }
    }
    if !done.decided {
        return MemberStep::Decide;
    }
    match &so_far.decision {
        MemberDecision::Rejected(_) => MemberStep::Finished,
        MemberDecision::Skip(_) => MemberStep::Finished,
        MemberDecision::Write { destination, replace_existing, link_target } => {
            if entry.kind == TarEntryKind::Regular {
                return if done.streamed {
                    MemberStep::Finished
                } else {
                    MemberStep::Stream
                };
            }
            if !ahead && !done.loaded {
                return MemberStep::Load;
            }
            match find_member(entry, so_far) {
                Some(member) => next_making_step(
                    member,
                    *replace_existing,
                    link_target.is_some(),
                    so_far,
                    done,
                ),
                None => MemberStep::Finished,
            }
        },
    }
}

fn making_stops(
    member: &ExtractedMember,
    replace: bool,
    resolved: bool,
    answer: &MemberAnswer,
) -> (r: bool)
    ensures
        r == (if replace && member.kind != TarEntryKind::Regular && answer.made.removed is Err {
            true
        } else {
            match member.kind {
                TarEntryKind::Regular => true,
                TarEntryKind::Directory => answer.made.made is Err,
                TarEntryKind::Symlink => answer.made.unsupported_symlink is None
                    && member.link_target is Some && answer.made.made is Err,
                TarEntryKind::Hardlink => !resolved || answer.made.made is Err,
            }
        }),
{
    let unmade: bool = match &answer.made.made {
        Ok(_) => false,
        Err(_) => true,
    };
    if replace && member.kind != TarEntryKind::Regular {
        match &answer.made.removed {
            Ok(_) => {},
            Err(_) => {
                return true;
            },
        }
    }
    match member.kind {
        TarEntryKind::Regular => true,
        TarEntryKind::Directory => unmade,
        TarEntryKind::Symlink => answer.made.unsupported_symlink.is_none()
            && member.link_target.is_some() && unmade,
        TarEntryKind::Hardlink => !resolved || unmade,
    }
}

fn stream_stops(stream: &StreamStep) -> (r: bool)
    ensures
        r == (stream is OutputFailed || stream is ContentFailed),
{
    match stream {
        StreamStep::OutputFailed(_) => true,
        StreamStep::ContentFailed(_) => true,
        _ => false,
    }
}

/// Decides whether an extraction ends at a member, whatever came before it.
pub fn member_stops(entry: &ArchiveEntry, answer: &MemberAnswer) -> (r: bool)
    ensures
        forall|p: Progress| r == (#[trigger] extract_step(p, *entry, *answer) is Err),
{
    if answer.cancelled {
        return true;
    }
    if is_preloaded(entry.kind) {
        match &answer.preloaded {
            Ok(_) => {},
            Err(_) => {
                return true;
            },
        }
    }
    match &answer.decision {
        MemberDecision::Rejected(_) => true,
        MemberDecision::Skip(_) => false,
        MemberDecision::Write { destination, replace_existing, link_target } => {
            if entry.kind == TarEntryKind::Regular {
                return stream_stops(&answer.stream);
            }
            match find_member(entry, answer) {
                Some(member) => making_stops(
                    member,
                    *replace_existing,
                    link_target.is_some(),
                    answer,
                ),
                None => match &answer.loaded {
                    Ok(_) => false,
                    Err(_) => true,
                },
            }
        },
    }
}

/// The bytes that are written for a member.
pub open spec fn written_bytes(entry: ArchiveEntry, answer: MemberAnswer) -> int {
    if entry.kind == TarEntryKind::Regular && answer.decision is Write && answer.stream is Done {
        entry.file_data_size as int
    } else {
        0
    }
}

fn bytes_of(entry: &ArchiveEntry, answer: &MemberAnswer) -> (bytes: u64)
    ensures
        bytes as int == written_bytes(*entry, *answer),
{
    let let_through: bool = match &answer.decision {
        MemberDecision::Write { .. } => true,
        _ => false,
    };
    let whole: bool = match &answer.stream {
        StreamStep::Done => true,
        _ => false,
    };
    if entry.kind == TarEntryKind::Regular && let_through && whole {
        entry.file_data_size
    } else {
        0
    }
}

/// Decides whether there is an answer for every member, and the bytes that an extraction
/// writes can be counted.
pub fn extraction_fits(files: &Vec<ArchiveEntry>, answers: &Vec<MemberAnswer>) -> (r: bool)
    ensures
        r == bytes_fit(files@, answers@),
{
    if files.len() != answers.len() {
        return false;
    }
    let mut total: u64 = 0;
    let mut i: usize = 0;
    while i < files.len()
        invariant
            i <= files@.len(),
            files@.len() == answers@.len(),
            extracted(files@, answers@, i as nat) matches Ok(p) && p.report.written_bytes == total,
            forall|n: nat|
                n <= i ==> (#[trigger] extracted(files@, answers@, n) matches Ok(p)
                    ==> p.report.written_bytes <= u64::MAX),
        decreases files@.len() - i,
    {
        let ghost p = extracted(files@, answers@, i as nat)->Ok_0;
        let ghost next = extracted(files@, answers@, (i + 1) as nat);
        assert(next == extract_step(p, files@[i as int], answers@[i as int]));
        if member_stops(&files[i], &answers[i]) {
            proof {
                assert forall|n: nat| n <= files@.len() implies (#[trigger] extracted(
                    files@,
                    answers@,
                    n,
                ) matches Ok(p) ==> p.report.written_bytes <= u64::MAX) by {
                    if n > i {
                        lemma_extracted_fails(files@, answers@, (i + 1) as nat, n);
                    }
                }
            }
            return true;
        }
        assert(next matches Ok(q) && q.report.written_bytes == total + written_bytes(
            files@[i as int],
            answers@[i as int],
        ));
        match total.checked_add(bytes_of(&files[i], &answers[i])) {
            Some(sum) => {
                total = sum;
            },
            None => {
                return false;
            },
        }
        i = i + 1;
    }
    true
}

/// Whether two answers agree on the steps that were done.
pub open spec fn agree(one: MemberAnswer, other: MemberAnswer, done: MemberDone) -> bool {
    &&& done.checked ==> one.cancelled == other.cancelled
    &&& done.preloaded ==> one.preloaded == other.preloaded
    &&& done.decided ==> one.decision == other.decision
    &&& done.streamed ==> one.stream == other.stream && one.reported == other.reported
    &&& done.loaded ==> one.loaded == other.loaded
    &&& done.removed ==> one.made.removed == other.made.removed
    &&& done.asked ==> one.made.unsupported_symlink == other.made.unsupported_symlink
    &&& done.made ==> one.made.made == other.made.made
}

/// Once the work on a member is finished, what it comes to rests on the steps that were
/// done alone.
pub proof fn law_finished_work_decides_the_member(
    p: Progress,
    entry: ArchiveEntry,
    one: MemberAnswer,
    other: MemberAnswer,
    done: MemberDone,
)
    requires
        member_step(entry, one, done) is Finished,
        agree(one, other, done),
    ensures
        extract_step(p, entry, one) == extract_step(p, entry, other),
        told_with_member(p, entry, one) == told_with_member(p, entry, other),
{
}

/// Nothing is written, made or removed for a member that the planner did not let
/// through, and nothing is removed without its leave.
pub proof fn law_work_keeps_to_the_decision(
    entry: ArchiveEntry,
    answer: MemberAnswer,
    done: MemberDone,
)
    ensures
        ({
            let step = member_step(entry, answer, done);
            &&& (step is Stream || step is MakeDirectory || step is MakeSymlink
                || step is MakeHardlink || step is RemoveExisting) ==> done.decided
                && answer.decision is Write && !answer.cancelled
            &&& step is RemoveExisting ==> (answer.decision matches MemberDecision::Write {
                replace_existing,
                ..
            } && replace_existing)
        }),
{
}

/// What is done next for an entry of the index.
#[derive(Clone, Copy, Debug, PartialEq, Eq, Structural)]
pub enum IndexStep {
    /// Find out whether the job was cancelled.
    CheckCancelled,
    /// Ask the safety planner.
    Decide,
    /// Make a directory.
    MakeDirectory,
    /// Stream a file to its destination.
    Stream,
    /// Nothing more.
    Finished,
}

/// Which steps were done for an entry of the index.
#[derive(Clone, Copy, Debug, PartialEq, Eq, Structural)]
pub struct IndexDone {
    pub checked: bool,
    pub decided: bool,
    pub written: bool,
}

impl IndexDone {
    /// No step was done yet.
    pub fn nothing() -> (done: Self)
        ensures
            !done.checked && !done.decided && !done.written,
    {
        IndexDone { checked: false, decided: false, written: false }
    }
}

/// What is done next for an entry of the index.
pub open spec fn entry_step(
    entry: ArchiveIndexEntry,
    answer: IndexAnswer,
    done: IndexDone,
) -> IndexStep {
    if !done.checked {
        IndexStep::CheckCancelled
    } else if answer.cancelled {
        IndexStep::Finished
    } else if !done.decided {
        IndexStep::Decide
    } else if !(answer.decision is Write) || done.written {
        IndexStep::Finished
    } else if names_directory(entry.path@) {
        IndexStep::MakeDirectory
    } else {
        IndexStep::Stream
    }
}

fn is_directory(path: &str) -> (r: bool)
    ensures
        r == names_directory(path@),
{
    match tzap_index_entry_kind(path) {
        ExtractionKind::Directory => true,
        _ => false,
    }
}

/// Decides what is done next for an entry of the index.
pub fn next_index_step(
    entry: &ArchiveIndexEntry,
    so_far: &IndexAnswer,
    done: &IndexDone,
) -> (step: IndexStep)
    ensures
        step == entry_step(*entry, *so_far, *done),
{
    if !done.checked {
        return IndexStep::CheckCancelled;
    }
    if so_far.cancelled {
        return IndexStep::Finished;
    }
    if !done.decided {
        return IndexStep::Decide;
    }
    let let_through: bool = match &so_far.decision {
        MemberDecision::Write { .. } => true,
        _ => false,
    };
    if !let_through || done.written {
        IndexStep::Finished
    } else if is_directory(entry.path.as_str()) {
        IndexStep::MakeDirectory
    } else {
        IndexStep::Stream
    }
}

/// Decides whether an extraction by the index ends at an entry, whatever came before
/// it. Content that the reader does not support ends nothing.
pub fn entry_stops(entry: &ArchiveIndexEntry, answer: &IndexAnswer) -> (r: bool)
    ensures
        forall|p: Progress| r == (#[trigger] index_step(p, *entry, *answer) is Err),
{
    if answer.cancelled {
        return true;
    }
    match &answer.decision {
        MemberDecision::Rejected(_) => true,
        MemberDecision::Skip(_) => false,
        MemberDecision::Write { .. } => {
            if is_directory(entry.path.as_str()) {
                return match &answer.made {
                    Ok(_) => false,
                    Err(_) => true,
                };
            }
            match &answer.stream {
                StreamStep::OutputFailed(_) => true,
                StreamStep::ContentFailed(failure) => !is_unsupported_content(failure),
                _ => false,
            }
        },
    }
}

fn is_unsupported_content(failure: &ExtractFailure) -> (r: bool)
    ensures
        r == (failure matches ExtractFailure::Format(fault)
            && fault@ is ReaderUnsupported),
{
    match failure {
        ExtractFailure::Format(crate::tzap::error::FormatFault::ReaderUnsupported(_)) => true,
        _ => false,
    }
}

/// What the steps of streaming a file came to, as far as they were done.
#[derive(Debug, PartialEq, Eq)]
pub struct OutputAnswer {
    /// Making the output.
    pub created: Option<Result<(), IoFailure>>,
    /// Copying the content: whether the archive holds it.
    pub copied: Option<Result<bool, ExtractFailure>>,
    /// Putting the output in its place.
    pub committed: Option<Result<(), IoFailure>>,
}

impl OutputAnswer {
    /// No step was done yet.
    pub fn nothing() -> (answer: Self)
        ensures
            answer.created is None && answer.copied is None && answer.committed is None,
    {
        OutputAnswer { created: None, copied: None, committed: None }
    }
}

/// What is done next to stream a file.
#[derive(Clone, Copy, Debug, PartialEq, Eq, Structural)]
pub enum OutputStep {
    Create,
    Copy,
    Commit,
    Finished,
}

/// What is done next to stream a file: the output is put in its place only once the
/// whole content is in it.
pub open spec fn output_step(answer: OutputAnswer) -> OutputStep {
    match (answer.created, answer.copied, answer.committed) {
        (None, _, _) => OutputStep::Create,
        (Some(Err(_)), _, _) => OutputStep::Finished,
        (Some(Ok(_)), None, _) => OutputStep::Copy,
        (Some(Ok(_)), Some(Ok(true)), None) => OutputStep::Commit,
        _ => OutputStep::Finished,
    }
}

/// Decides what is done next to stream a file.
pub fn next_output_step(answer: &OutputAnswer) -> (step: OutputStep)
    ensures
        step == output_step(*answer),
{
    match &answer.created {
        None => {
            return OutputStep::Create;
        },
        Some(Err(_)) => {
            return OutputStep::Finished;
        },
        Some(Ok(_)) => {},
    }
    match &answer.copied {
        None => OutputStep::Copy,
        Some(Ok(held)) => {
            if *held && answer.committed.is_none() {
                OutputStep::Commit
            } else {
                OutputStep::Finished
            }
        },
        Some(Err(_)) => OutputStep::Finished,
    }
}

/// Settles what streaming a file came to.
pub fn settle_output(answer: OutputAnswer) -> (stream: StreamStep)
    requires
        output_step(answer) is Finished,
    ensures
        match (answer.created, answer.copied, answer.committed) {
            (Some(Err(message)), _, _) => stream == StreamStep::OutputFailed(message),
            (_, Some(Err(failure)), _) => stream == StreamStep::ContentFailed(failure),
            (_, Some(Ok(false)), _) => stream is Missing,
            (_, _, Some(Err(message))) => stream == StreamStep::OutputFailed(message),
            _ => stream is Done,
        },
{
    match answer.created {
        Some(Err(message)) => {
            return StreamStep::OutputFailed(message);
        },
        _ => {},
    }
    match answer.copied {
        Some(Err(failure)) => {
            return StreamStep::ContentFailed(failure);
        },
        Some(Ok(held)) => {
            if !held {
                return StreamStep::Missing;
            }
        },
        None => {},
    }
    match answer.committed {
        Some(Err(message)) => StreamStep::OutputFailed(message),
        _ => StreamStep::Done,
    }
}

/// Work on an entry of the index keeps to what was decided, and ends only when it was
/// done: a cancelled job, a rejected and a skipped entry are not worked on, a path that
/// ends with a slash is made as a directory, and any other is written as a file.
pub proof fn law_index_work_keeps_to_the_decision(
    entry: ArchiveIndexEntry,
    answer: IndexAnswer,
    done: IndexDone,
)
    ensures
        ({
            let step = entry_step(entry, answer, done);
            let is_directory = entry.path@.len() > 0 && entry.path@.last() == '/';
            &&& step is CheckCancelled <==> !done.checked
            &&& step is Decide <==> done.checked && !answer.cancelled && !done.decided
            &&& step is MakeDirectory <==> done.checked && !answer.cancelled && done.decided
                && answer.decision is Write && !done.written && is_directory
            &&& step is Stream <==> done.checked && !answer.cancelled && done.decided
                && answer.decision is Write && !done.written && !is_directory
        }),
{
}

/// A file appears only once it is whole: it is created, its content is copied, and only a
/// copy that succeeded is committed.
pub proof fn law_outputs_appear_once_they_are_whole(answer: OutputAnswer)
    ensures
        ({
            let step = output_step(answer);
            &&& step is Create <==> answer.created is None
            &&& step is Copy <==> (answer.created matches Some(created) && created is Ok)
                && answer.copied is None
            &&& step is Commit <==> (answer.created matches Some(created) && created is Ok)
                && answer.copied == Some(Ok::<bool, ExtractFailure>(true))
                && answer.committed is None
        }),
{
}

/// Work on a member ends only when all was done that its decision asks for: a file that is
/// to be written was streamed, and any other member that is there and can be made was made.
pub proof fn law_work_on_members_is_done_in_full(
    entry: ArchiveEntry,
    answer: MemberAnswer,
    done: MemberDone,
)
    requires
        member_step(entry, answer, done) is Finished,
        answer.decision is Write,
        !answer.cancelled,
        answer.preloaded is Ok,
    ensures
        done.checked,
        done.decided,
        entry.kind == TarEntryKind::Regular ==> done.streamed,
        entry.kind == TarEntryKind::Directory ==> done.loaded && (answer.loaded matches Ok(
            Some(member),
        ) ==> (member.kind == TarEntryKind::Directory && answer.made.removed is Ok ==> done.made)),
        entry.kind == TarEntryKind::Symlink ==> done.preloaded,
        entry.kind == TarEntryKind::Hardlink ==> done.preloaded,
{
}

} // verus!
