//! Taking one file out of an archive, to an exact place.
//!
//! The caller does one step after the other and asks again: the file is taken out
//! below a temporary directory and put in its place from there, and the temporary
//! directory is removed whatever came of it.
use crate::failure::{IoFailure, IoKind};
#[allow(unused_imports)]
use crate::failure::IoFailureView;
use crate::paths::{file_name_of, join, parent_of};
#[allow(unused_imports)]
use crate::paths::{file_name, joined, parent};
use crate::text::{
    chars_of, concat2, concat3, concat5, decimal_text, slice_to_chars, text_of,
};
#[allow(unused_imports)]
use crate::text::{decimal, find_char, has_prefix, lemma_find_char, lemma_find_char_is};
use crate::tzap::archive::TzapArchive;
use crate::tzap::error::{FormatFault, TzapError, io_error, io_failed};
#[allow(unused_imports)]
use crate::tzap::error::{FormatFaultView, TzapFault};
#[allow(unused_imports)]
use crate::tzap::extract::size_result;
#[allow(unused_imports)]
use crate::tzap::keys::password_view;
use crate::tzap::opening::ArchiveInput;
#[allow(unused_imports)]
use crate::tzap::opening::lent_archive;
use vstd::prelude::*;

verus! {

/// The components of an archive path: what stands between its separators.
pub open spec fn components(path: Seq<char>) -> Seq<Seq<char>>
    decreases path.len(),
{
    let at = crate::text::find_char(path, '/');
    if at < 0 || at >= path.len() {
        seq![path]
    } else {
        seq![path.take(at)] + components(path.skip(at + 1))
    }
}

/// Whether a component leads to a name of its own.
pub open spec fn is_plain(component: Seq<char>) -> bool {
    component.len() > 0 && component != seq!['.'] && component != seq!['.', '.']
}

/// A path with components appended.
pub open spec fn descend(root: Seq<char>, parts: Seq<Seq<char>>) -> Seq<char>
    decreases parts.len(),
{
    if parts.len() == 0 {
        root
    } else {
        descend(joined(root, parts[0]), parts.skip(1))
    }
}

/// Where a member lands below a root; `None` where a component of its path is
/// empty or leads elsewhere.
pub open spec fn member_path(root: Seq<char>, path: Seq<char>) -> Option<Seq<char>> {
    let parts = components(path);
    if forall|k: int| 0 <= k < parts.len() ==> is_plain(#[trigger] parts[k]) {
        Some(descend(root, parts))
    } else {
        None
    }
}

fn plain(component: &Vec<char>) -> (r: bool)
    ensures
        r == is_plain(component@),
{
    if component.len() == 0 {
        return false;
    }
    if component.len() == 1 && component[0] == '.' {
        assert(component@ =~= seq!['.']);
        return false;
    }
    if component.len() == 2 && component[0] == '.' && component[1] == '.' {
        assert(component@ =~= seq!['.', '.']);
        return false;
    }
    true
}

proof fn lemma_first_plain(path: Seq<char>, at: int)
    requires
        at == crate::text::find_char(path, '/'),
        0 <= at < path.len(),
    ensures
        components(path).len() > 0,
        components(path)[0] == path.take(at),
        components(path).skip(1) == components(path.skip(at + 1)),
{
    assert(components(path).skip(1) =~= components(path.skip(at + 1)));
}

/// Where a member lands below a root.
pub fn archive_member_path_under_root(root: &str, entry_path: &str) -> (path: Result<
    String,
    TzapError,
>)
    ensures
        match path {
            Ok(path) => member_path(root@, entry_path@) == Some(path@),
            Err(e) => member_path(root@, entry_path@) is None && e@ == TzapFault::Format(
                FormatFaultView::UnsafeArchivePath,
            ),
        },
{
    let mut rest: Vec<char> = chars_of(entry_path);
    let mut path: String = root.to_owned();
    let ghost all = components(entry_path@);
    let ghost mut done: int = 0;
    assert(all.skip(0) =~= all);
    loop
        invariant
            all == components(entry_path@),
            0 <= done < all.len(),
            components(rest@) == all.skip(done),
            forall|k: int| 0 <= k < done ==> is_plain(#[trigger] all[k]),
            descend(path@, all.skip(done)) == descend(root@, all),
        decreases rest@.len(),
    {
        let at: usize = crate::text::position_of(rest.as_slice(), '/');
        let length: usize = rest.len();
        let last: bool = at >= length;
        let end: usize = if last {
            length
        } else {
            at
        };
        let component: Vec<char> = slice_to_chars(rest.as_slice(), 0, end);
        proof {
            crate::text::lemma_find_char(rest@, '/');
            if last {
                assert(component@ =~= rest@);
                assert(components(rest@) =~= seq![rest@]);
                assert(all.skip(done).len() == 1);
            } else {
                assert(component@ =~= rest@.take(at as int));
                lemma_first_plain(rest@, at as int);
            }
            assert(all.skip(done)[0] == all[done]);
        }
        if !plain(&component) {
            assert(!is_plain(all[done]));
            return Err(TzapError::Format(FormatFault::UnsafeArchivePath));
        }
        path = join(path.as_str(), text_of(component.as_slice()).as_str());
        if last {
            assert(descend(path@, Seq::empty()) == path@);
            assert(all.skip(done).skip(1) =~= Seq::<Seq<char>>::empty());
            return Ok(path);
        }
        rest = slice_to_chars(rest.as_slice(), at + 1, length);
        proof {
            let shorter = all.skip(done).skip(1);
            assert(shorter =~= all.skip(done + 1));
            lemma_components_exist(rest@);
            done = done + 1;
        }
    }
}

proof fn lemma_components_exist(path: Seq<char>)
    ensures
        components(path).len() > 0,
{
}

/// How a file is put in its place.
#[derive(Clone, Copy, Debug, PartialEq, Eq, Structural)]
pub enum CommitMove {
    /// It is linked there, which fails where something is there already.
    LinkNew,
    /// It is renamed to there, once what gives way was removed.
    RenameOver,
}

/// How a file is put in its place, with or without leave to replace what is there.
pub open spec fn commit_way(replace_existing: bool) -> CommitMove {
    if replace_existing {
        CommitMove::RenameOver
    } else {
        CommitMove::LinkNew
    }
}

/// Decides how a file is put in its place.
pub fn commit_move(replace_existing: bool) -> (how: CommitMove)
    ensures
        how == if replace_existing {
            CommitMove::RenameOver
        } else {
            CommitMove::LinkNew
        },
{
    if replace_existing {
        CommitMove::RenameOver
    } else {
        CommitMove::LinkNew
    }
}

/// What putting a file in its place came to.
#[derive(Debug, PartialEq, Eq)]
pub struct MoveAnswer {
    /// How it was done.
    pub how: CommitMove,
    /// Whether something was there already.
    pub existed: bool,
    /// What came of it.
    pub outcome: Result<(), IoFailure>,
}

/// Whether an answer can be had of a file system for a file that is put in its place:
/// it was done as decided, and a link is never made over something.
pub open spec fn is_move(answer: MoveAnswer, replace_existing: bool) -> bool {
    &&& answer.how == commit_way(replace_existing)
    &&& answer.how is LinkNew && answer.existed ==> answer.outcome is Err
}

/// What the steps of putting a file in its place came to, as far as they were done.
#[derive(Debug, PartialEq, Eq)]
pub struct CommitAnswer {
    /// Making the directory.
    pub directory: Option<Result<(), IoFailure>>,
    /// Removing the thing that gives way.
    pub removed: Option<Result<(), IoFailure>>,
    /// Putting the file there.
    pub moved: Option<MoveAnswer>,
}

impl CommitAnswer {
    /// No step was done yet.
    pub fn nothing() -> (answer: Self)
        ensures
            answer.directory is None && answer.removed is None && answer.moved is None,
    {
        CommitAnswer { directory: None, removed: None, moved: None }
    }
}

/// What is done next to put a file in its place.
#[derive(Clone, Copy, Debug, PartialEq, Eq, Structural)]
pub enum CommitStep {
    MakeDirectory,
    RemoveExisting,
    Move(CommitMove),
    Finished,
}

/// What is done next to put a file in its place: its directory is made, what gives way
/// is removed, and it is put there. Without leave to replace, nothing is removed and
/// nothing is moved over.
pub open spec fn commit_step(
    destination: Seq<char>,
    replace_existing: bool,
    answer: CommitAnswer,
) -> CommitStep {
    let inside = parent(destination).len() > 0;
    if inside && answer.directory is None {
        CommitStep::MakeDirectory
    } else if inside && (answer.directory matches Some(Err(_))) {
        CommitStep::Finished
    } else if replace_existing && answer.removed is None {
        CommitStep::RemoveExisting
    } else if replace_existing && (answer.removed matches Some(Err(_))) {
        CommitStep::Finished
    } else if answer.moved is None {
        CommitStep::Move(commit_way(replace_existing))
    } else {
        CommitStep::Finished
    }
}

/// Decides what is done next to put a file in its place.
pub fn next_commit_step(
    destination: &str,
    replace_existing: bool,
    answer: &CommitAnswer,
) -> (step: CommitStep)
    ensures
        step == commit_step(destination@, replace_existing, *answer),
{
    let dir: String = parent_of(destination);
    if dir.as_str().unicode_len() > 0 {
        match &answer.directory {
            None => {
                return CommitStep::MakeDirectory;
            },
            Some(Err(_)) => {
                return CommitStep::Finished;
            },
            Some(Ok(_)) => {},
        }
    }
    if replace_existing {
        match &answer.removed {
            None => {
                return CommitStep::RemoveExisting;
            },
            Some(Err(_)) => {
                return CommitStep::Finished;
            },
            Some(Ok(_)) => {},
        }
    }
    match &answer.moved {
        None => CommitStep::Move(commit_move(replace_existing)),
        Some(_) => CommitStep::Finished,
    }
}

/// Why a file could not be put in its place, if it could not.
pub open spec fn commit_file_fault(
    destination: Seq<char>,
    replace_existing: bool,
    answer: CommitAnswer,
) -> Option<TzapFault> {
    if parent(destination).len() > 0 && (answer.directory matches Some(Err(_))) {
        Some(
            TzapFault::Io {
                path: parent(destination),
                source: ((answer.directory->0)->Err_0)@,
            },
        )
    } else if replace_existing && (answer.removed matches Some(Err(_))) {
        Some(TzapFault::Io { path: destination, source: ((answer.removed->0)->Err_0)@ })
    } else {
        match answer.moved {
            Some(moved) => match moved.outcome {
                Err(failure) => Some(TzapFault::Io { path: destination, source: failure@ }),
                Ok(_) => None,
            },
            None => None,
        }
    }
}

/// Settles what putting a file in its place came to. Where something is there and
/// there is no leave to replace it, that fails and what is there stays.
pub fn commit_extracted_file(
    destination: &str,
    replace_existing: bool,
    answer: &CommitAnswer,
) -> (r: Result<(), TzapError>)
    requires
        commit_step(destination@, replace_existing, *answer) is Finished,
        answer.moved matches Some(moved) ==> is_move(moved, replace_existing),
    ensures
        match r {
            Ok(_) => commit_file_fault(destination@, replace_existing, *answer) is None,
            Err(e) => commit_file_fault(destination@, replace_existing, *answer) == Some(e@),
        },
        !replace_existing ==> (answer.moved matches Some(moved) ==> (moved.existed ==> (r matches Err(
            e,
        ) && (e@ matches TzapFault::Io { path, .. } && (path == destination@ || path == parent(
            destination@,
        )))))),
{
    let dir: String = parent_of(destination);
    if dir.as_str().unicode_len() > 0 {
        match &answer.directory {
            Some(Err(failure)) => {
                return Err(io_failed(dir.as_str(), failure));
            },
            _ => {},
        }
    }
    if replace_existing {
        match &answer.removed {
            Some(Err(failure)) => {
                return Err(io_failed(destination, failure));
            },
            _ => {},
        }
    }
    match &answer.moved {
        Some(moved) => match &moved.outcome {
            Ok(_) => Ok(()),
            Err(failure) => Err(io_failed(destination, failure)),
        },
        None => Ok(()),
    }
}

/// What making a directory came to.
#[derive(Debug, PartialEq, Eq)]
pub enum DirectoryOutcome {
    Created,
    Exists,
    Failed(IoFailure),
}

/// How many names are tried for a temporary directory.
pub const TZAP_TEMP_EXTRACT_ATTEMPTS: usize = 100;

/// The name of a temporary directory: it carries the name of the file that it is
/// for, the process, the time and the number of the attempt.
pub open spec fn temporary_path(
    destination: Seq<char>,
    process: u32,
    stamp: Seq<char>,
    attempt: nat,
) -> Seq<char> {
    let name = match file_name(destination) {
        Some(name) => name,
        None => "entry"@,
    };
    joined(
        parent(destination),
        ".zmanager-tzap-extract-"@ + name + "-"@ + decimal(process as nat) + "-"@ + (stamp + "-"@
            + decimal(attempt)),
    )
}

/// The name of a temporary directory.
pub fn temporary_extraction_path(
    destination: &str,
    process: u32,
    stamp: &str,
    attempt: usize,
) -> (path: String)
    ensures
        path@ == temporary_path(destination@, process, stamp@, attempt as nat),
{
    let name: String = match file_name_of(destination) {
        Some(name) => name,
        None => "entry".to_owned(),
    };
    let head: String = concat5(
        ".zmanager-tzap-extract-",
        name.as_str(),
        "-",
        decimal_text(process as u64).as_str(),
        "-",
    );
    let tail: String = concat3(stamp, "-", decimal_text(attempt as u64).as_str());
    join(parent_of(destination).as_str(), concat2(head.as_str(), tail.as_str()).as_str())
}

/// The first attempt that did not find its name taken, or the number of attempts.
pub open spec fn deciding_attempt(outcomes: Seq<DirectoryOutcome>) -> int
    decreases outcomes.len(),
{
    if outcomes.len() == 0 {
        0
    } else {
        let earlier = deciding_attempt(outcomes.drop_last());
        if earlier < outcomes.len() - 1 || !(outcomes.last() is Exists) {
            earlier
        } else {
            outcomes.len() as int
        }
    }
}

/// What is said where every name of a temporary directory is taken.
pub open spec fn no_root_left() -> IoFailureView {
    IoFailureView {
        kind: IoKind::AlreadyExists,
        message: "could not allocate temporary TZAP extraction root"@,
    }
}

/// The temporary directory that was made, or why there is none. `directory` says
/// whether the directory that it goes to could be made.
pub open spec fn temporary_root(
    destination: Seq<char>,
    process: u32,
    stamp: Seq<char>,
    directory: Result<(), IoFailure>,
    outcomes: Seq<DirectoryOutcome>,
) -> Result<Seq<char>, TzapFault> {
    let at = deciding_attempt(outcomes);
    if directory is Err {
        Err(
            TzapFault::Io {
                path: parent(destination),
                source: (directory->Err_0)@,
            },
        )
    } else if at >= outcomes.len() {
        Err(
            TzapFault::Io {
                path: parent(destination),
                source: no_root_left(),
            },
        )
    } else {
        let path = temporary_path(destination, process, stamp, at as nat);
        match outcomes[at] {
            DirectoryOutcome::Failed(failure) => Err(TzapFault::Io { path, source: failure@ }),
            _ => Ok(path),
        }
    }
}

proof fn lemma_deciding(outcomes: Seq<DirectoryOutcome>, at: int)
    requires
        0 <= at < outcomes.len(),
        deciding_attempt(outcomes.take(at)) == at,
        !(outcomes[at] is Exists),
    ensures
        deciding_attempt(outcomes) == at,
    decreases outcomes.len(),
{
    if at == outcomes.len() - 1 {
        assert(outcomes.drop_last() =~= outcomes.take(at));
    } else {
        assert(outcomes.drop_last().take(at) =~= outcomes.take(at));
        lemma_deciding(outcomes.drop_last(), at);
    }
}

/// Settles which temporary directory is used, given what each attempt came to.
pub fn allocate_extraction_root(
    destination: &str,
    process: u32,
    stamp: &str,
    directory: &Result<(), IoFailure>,
    outcomes: &Vec<DirectoryOutcome>,
) -> (path: Result<String, TzapError>)
    requires
        outcomes@.len() <= TZAP_TEMP_EXTRACT_ATTEMPTS,
    ensures
        match path {
            Ok(path) => temporary_root(destination@, process, stamp@, *directory, outcomes@)
                == Ok::<Seq<char>, TzapFault>(path@),
            Err(e) => temporary_root(destination@, process, stamp@, *directory, outcomes@)
                == Err::<Seq<char>, TzapFault>(e@),
        },
{
    match directory {
        Ok(_) => {},
        Err(failure) => {
            return Err(io_failed(parent_of(destination).as_str(), failure));
        },
    }
    let mut i: usize = 0;
    while i < outcomes.len()
        invariant
            i <= outcomes@.len(),
            *directory is Ok,
            deciding_attempt(outcomes@.take(i as int)) == i,
        decreases outcomes@.len() - i,
    {
        assert(outcomes@.take(i + 1).drop_last() =~= outcomes@.take(i as int));
        match &outcomes[i] {
            DirectoryOutcome::Exists => {},
            DirectoryOutcome::Created => {
                proof {
                    lemma_deciding(outcomes@, i as int);
                }
                return Ok(temporary_extraction_path(destination, process, stamp, i));
            },
            DirectoryOutcome::Failed(failure) => {
                proof {
                    lemma_deciding(outcomes@, i as int);
                }
                let path: String = temporary_extraction_path(destination, process, stamp, i);
                return Err(io_failed(path.as_str(), failure));
            },
        }
        i = i + 1;
    }
    assert(outcomes@.take(outcomes@.len() as int) =~= outcomes@);
    Err(
        io_error(
            parent_of(destination).as_str(),
            IoKind::AlreadyExists,
            "could not allocate temporary TZAP extraction root",
        ),
    )
}

/// What the steps of taking out one file came to, as far as they were done.
#[derive(Debug, PartialEq, Eq)]
pub struct SingleFileAnswer {
    /// Looking the file up: the size that the index gives for it, if it knows it.
    pub lookup: Option<Result<Option<u64>, FormatFault>>,
    /// Making the temporary directory.
    pub root: Option<Result<String, TzapError>>,
    /// Taking the file out: whether the archive holds the content.
    pub held: Option<Result<bool, FormatFault>>,
    /// Putting the file in its place.
    pub commit: CommitAnswer,
    /// Whether the temporary directory was removed.
    pub root_removed: bool,
}

impl SingleFileAnswer {
    /// No step was done yet.
    pub fn nothing() -> (answer: Self)
        ensures
            answer.lookup is None && answer.root is None && answer.held is None,
            answer.commit.directory is None && answer.commit.removed is None
                && answer.commit.moved is None,
            !answer.root_removed,
    {
        SingleFileAnswer {
            lookup: None,
            root: None,
            held: None,
            commit: CommitAnswer::nothing(),
            root_removed: false,
        }
    }
}

/// What is done next to take out one file.
#[derive(Clone, Copy, Debug, PartialEq, Eq, Structural)]
pub enum SingleFileStep {
    /// Look the file up in the index.
    LookUp,
    /// Make the temporary directory.
    MakeRoot,
    /// Take the file out below it.
    Extract,
    /// Put the file in its place.
    Commit(CommitStep),
    /// Remove the temporary directory.
    RemoveRoot,
    /// Nothing more.
    Finished,
}

/// What is done next to take a file out and put it in its place, once there is a
/// temporary directory.
pub open spec fn below_root_step(
    root: Seq<char>,
    entry_path: Seq<char>,
    destination: Seq<char>,
    replace_existing: bool,
    answer: SingleFileAnswer,
) -> SingleFileStep {
    match answer.held {
        None => SingleFileStep::Extract,
        Some(Ok(true)) => if member_path(root, entry_path) is None {
            SingleFileStep::Finished
        } else {
            match commit_step(destination, replace_existing, answer.commit) {
                CommitStep::Finished => SingleFileStep::Finished,
                step => SingleFileStep::Commit(step),
            }
        },
        _ => SingleFileStep::Finished,
    }
}

/// What is done next to take out one file of an archive that was opened. Once there is
/// a temporary directory, its removal comes last, whatever fails before.
pub open spec fn single_file_step(
    entry_path: Seq<char>,
    destination: Seq<char>,
    replace_existing: bool,
    answer: SingleFileAnswer,
) -> SingleFileStep {
    match answer.lookup {
        None => SingleFileStep::LookUp,
        Some(Ok(Some(_))) => match answer.root {
            None => SingleFileStep::MakeRoot,
            Some(Err(_)) => SingleFileStep::Finished,
            Some(Ok(root)) => match below_root_step(
                root@,
                entry_path,
                destination,
                replace_existing,
                answer,
            ) {
                SingleFileStep::Finished => if answer.root_removed {
                    SingleFileStep::Finished
                } else {
                    SingleFileStep::RemoveRoot
                },
                step => step,
            },
        },
        _ => SingleFileStep::Finished,
    }
}

fn next_below_root(
    root: &str,
    entry_path: &str,
    destination: &str,
    replace_existing: bool,
    answer: &SingleFileAnswer,
) -> (step: SingleFileStep)
    ensures
        step == below_root_step(root@, entry_path@, destination@, replace_existing, *answer),
{
    match &answer.held {
        None => SingleFileStep::Extract,
        Some(Err(_)) => SingleFileStep::Finished,
        Some(Ok(held)) => {
            if !*held {
                return SingleFileStep::Finished;
            }
            match archive_member_path_under_root(root, entry_path) {
                Ok(_) => {},
                Err(_) => {
                    return SingleFileStep::Finished;
                },
            }
            match next_commit_step(destination, replace_existing, &answer.commit) {
                CommitStep::Finished => SingleFileStep::Finished,
                step => SingleFileStep::Commit(step),
            }
        },
    }
}

/// Decides what is done next to take out one file of an archive that was opened.
pub fn next_single_file_step(
    entry_path: &str,
    destination: &str,
    replace_existing: bool,
    answer: &SingleFileAnswer,
) -> (step: SingleFileStep)
    ensures
        step == single_file_step(entry_path@, destination@, replace_existing, *answer),
{
    match &answer.lookup {
        None => {
            return SingleFileStep::LookUp;
        },
        Some(Ok(Some(_))) => {},
        _ => {
            return SingleFileStep::Finished;
        },
    }
    match &answer.root {
        None => SingleFileStep::MakeRoot,
        Some(Err(_)) => SingleFileStep::Finished,
        Some(Ok(root)) => match next_below_root(
            root.as_str(),
            entry_path,
            destination,
            replace_existing,
            answer,
        ) {
            SingleFileStep::Finished => if answer.root_removed {
                SingleFileStep::Finished
            } else {
                SingleFileStep::RemoveRoot
            },
            step => step,
        },
    }
}

/// Whether the work on one file is finished, or was never begun because the archive
/// could not be opened.
pub open spec fn is_finished(
    input: ArchiveInput,
    entry_path: Seq<char>,
    destination: Seq<char>,
    replace_existing: bool,
    answer: SingleFileAnswer,
) -> bool {
    &&& input.is_complete()
    &&& input.archive is Ok ==> single_file_step(
        entry_path,
        destination,
        replace_existing,
        answer,
    ) is Finished
    &&& answer.commit.moved matches Some(moved) ==> is_move(moved, replace_existing)
}

/// What taking out one file comes to: its size, or `None` where the archive does
/// not hold it.
pub open spec fn single_file(
    archive: Result<TzapArchive, TzapFault>,
    entry_path: Seq<char>,
    destination: Seq<char>,
    replace_existing: bool,
    answer: SingleFileAnswer,
) -> Result<Option<u64>, TzapFault> {
    match (archive, answer.lookup) {
        (Err(fault), _) => Err(fault),
        (Ok(_), Some(Err(fault))) => Err(TzapFault::Format(fault@)),
        (Ok(_), Some(Ok(Some(size)))) => match (answer.root, answer.held) {
            (Some(Err(e)), _) => Err(e@),
            (_, Some(Err(fault))) => Err(TzapFault::Format(fault@)),
            (Some(Ok(root)), Some(Ok(true))) => if member_path(root@, entry_path) is None {
                Err(TzapFault::Format(FormatFaultView::UnsafeArchivePath))
            } else {
                match commit_file_fault(destination, replace_existing, answer.commit) {
                    Some(fault) => Err(fault),
                    None => Ok(Some(size)),
                }
            },
            _ => Ok(None),
        },
        _ => Ok(None),
    }
}

fn extract_tzap_file_from_opened_archive(
    archive: Result<&TzapArchive, TzapError>,
    entry_path: &str,
    destination: &str,
    replace_existing: bool,
    answer: &SingleFileAnswer,
) -> (size: Result<Option<u64>, TzapError>)
    requires
        archive is Ok ==> single_file_step(
            entry_path@,
            destination@,
            replace_existing,
            *answer,
        ) is Finished,
        answer.commit.moved matches Some(moved) ==> is_move(moved, replace_existing),
    ensures
        size_result(size) == single_file(
            lent_archive(archive),
            entry_path@,
            destination@,
            replace_existing,
            *answer,
        ),
{
    match archive {
        Ok(_) => {},
        Err(e) => {
            return Err(e);
        },
    }
    let size: u64 = match &answer.lookup {
        Some(Ok(Some(size))) => *size,
        Some(Err(fault)) => {
            return Err(TzapError::Format(fault.copy()));
        },
        _ => {
            return Ok(None);
        },
    };
    let root: &String = match &answer.root {
        Some(Ok(root)) => root,
        Some(Err(e)) => {
            return Err(e.copy());
        },
        None => {
            return Ok(None);
        },
    };
    match &answer.held {
        Some(Ok(held)) => {
            if !*held {
                return Ok(None);
            }
        },
        Some(Err(fault)) => {
            return Err(TzapError::Format(fault.copy()));
        },
        None => {
            return Ok(None);
        },
    }
    match archive_member_path_under_root(root.as_str(), entry_path) {
        Ok(_) => {},
        Err(e) => {
            return Err(e);
        },
    }
    match commit_extracted_file(destination, replace_existing, &answer.commit) {
        Ok(_) => Ok(Some(size)),
        Err(e) => Err(e),
    }
}

/// Extracts one regular `.tzap` file member to an exact destination path, opened with a
/// passphrase.
pub fn extract_tzap_file_to_destination(
    input: &ArchiveInput,
    password: &str,
    entry_path: &str,
    destination: &str,
    replace_existing: bool,
    answer: &SingleFileAnswer,
) -> (size: Result<Option<u64>, TzapError>)
    requires
        is_finished(*input, entry_path@, destination@, replace_existing, *answer),
    ensures
        size_result(size) == single_file(
            input.opened_with(Some(password@), false, false),
            entry_path@,
            destination@,
            replace_existing,
            *answer,
        ),
{
    extract_tzap_file_to_destination_with_optional_password(
        input,
        Some(password),
        entry_path,
        destination,
        replace_existing,
        answer,
    )
}

/// Extracts one regular `.tzap` file member to an exact destination path, opened
/// with an optional passphrase.
pub fn extract_tzap_file_to_destination_with_optional_password(
    input: &ArchiveInput,
    password: Option<&str>,
    entry_path: &str,
    destination: &str,
    replace_existing: bool,
    answer: &SingleFileAnswer,
) -> (size: Result<Option<u64>, TzapError>)
    requires
        is_finished(*input, entry_path@, destination@, replace_existing, *answer),
    ensures
        size_result(size) == single_file(
            input.opened_with(password_view(password), false, false),
            entry_path@,
            destination@,
            replace_existing,
            *answer,
        ),
{
    extract_tzap_file_from_opened_archive(
        input.open_with(password, false, false),
        entry_path,
        destination,
        replace_existing,
        answer,
    )
}

/// Extracts one regular recipient-wrapped `.tzap` member to an exact destination
/// path, opened with a private key in a file.
pub fn extract_tzap_file_to_destination_with_recipient_key(
    input: &ArchiveInput,
    entry_path: &str,
    destination: &str,
    replace_existing: bool,
    answer: &SingleFileAnswer,
) -> (size: Result<Option<u64>, TzapError>)
    requires
        is_finished(*input, entry_path@, destination@, replace_existing, *answer),
    ensures
        size_result(size) == single_file(
            input.opened_with(None, true, false),
            entry_path@,
            destination@,
            replace_existing,
            *answer,
        ),
{
    extract_tzap_file_from_opened_archive(
        input.open_with(None, true, false),
        entry_path,
        destination,
        replace_existing,
        answer,
    )
}

/// Without leave to replace, a file that is there already is kept: nothing is removed
/// or moved over it in any step, and taking out a file to its place fails there.
pub proof fn law_existing_files_are_kept(
    archive: TzapArchive,
    entry_path: Seq<char>,
    destination: Seq<char>,
    answer: SingleFileAnswer,
)
    ensures
        ({
            let step = single_file_step(entry_path, destination, false, answer);
            step != SingleFileStep::Commit(CommitStep::RemoveExisting) && step
                != SingleFileStep::Commit(CommitStep::Move(CommitMove::RenameOver))
        }),
        answer.commit.moved matches Some(moved) ==> (moved.existed && is_move(moved, false) ==> !(
        single_file(Ok(archive), entry_path, destination, false, answer) matches Ok(Some(_)))),
        answer.commit.moved matches Some(moved) ==> (moved.existed && is_move(moved, false)
            && !(answer.commit.directory matches Some(Err(_))) ==> (answer.lookup matches Some(
            Ok(Some(_)),
        ) ==> (answer.held == Some(Ok::<bool, FormatFault>(true)) ==> (answer.root matches Some(
            Ok(root),
        ) ==> (member_path(root@, entry_path) is Some ==> (single_file(
            Ok(archive),
            entry_path,
            destination,
            false,
            answer,
        ) matches Err(TzapFault::Io { path, .. }) && path == destination)))))),
{
}

/// No temporary directory is left behind: where one was made, the work is not finished
/// before it was removed.
pub proof fn law_no_temporary_directory_is_left(
    entry_path: Seq<char>,
    destination: Seq<char>,
    replace_existing: bool,
    answer: SingleFileAnswer,
)
    requires
        single_file_step(entry_path, destination, replace_existing, answer) is Finished,
        answer.lookup matches Some(Ok(Some(_))),
        answer.root matches Some(Ok(_)),
    ensures
        answer.root_removed,
{
}

proof fn lemma_descend_keeps_prefix(root: Seq<char>, parts: Seq<Seq<char>>)
    ensures
        has_prefix(descend(root, parts), root),
        descend(root, parts).len() >= root.len(),
    decreases parts.len(),
{
    if parts.len() > 0 {
        let next = joined(root, parts[0]);
        lemma_descend_keeps_prefix(next, parts.skip(1));
        let whole = descend(root, parts);
        assert(next.take(root.len() as int) =~= root);
        assert(whole.take(root.len() as int) =~= whole.take(next.len() as int).take(
            root.len() as int,
        ));
    } else {
        assert(root.take(root.len() as int) =~= root);
    }
}

/// A member never lands outside the root: its path begins with the root, and no
/// component of its archive path leads upwards.
pub proof fn law_members_stay_below_the_root(root: Seq<char>, path: Seq<char>)
    requires
        member_path(root, path) is Some,
    ensures
        has_prefix(member_path(root, path)->0, root),
        forall|k: int|
            0 <= k < components(path).len() ==> #[trigger] components(path)[k] != seq!['.', '.'],
{
    lemma_descend_keeps_prefix(root, components(path));
    assert forall|k: int| 0 <= k < components(path).len() implies #[trigger] components(path)[k]
        != seq!['.', '.'] by {
        assert(is_plain(components(path)[k]));
    }
}

/// The components of a path are its parts between slashes: two paths that are put together
/// with a slash have the components of both.
pub proof fn law_components_lie_between_slashes(upper: Seq<char>, lower: Seq<char>)
    ensures
        components(upper.push('/') + lower) == components(upper) + components(lower),
        !upper.contains('/') ==> components(upper) == seq![upper],
    decreases upper.len(),
{
    let path = upper.push('/') + lower;
    lemma_find_char(upper, '/');
    let at = find_char(upper, '/');
    if at < upper.len() {
        assert(upper.contains(upper[at]));
        assert forall|k: int| 0 <= k < at implies path[k] != '/' by {
            assert(path[k] == upper[k]);
        }
        assert(path[at] == upper[at]);
        lemma_find_char_is(path, '/', at);
        let rest = upper.skip(at + 1);
        assert(path.skip(at + 1) =~= rest.push('/') + lower);
        assert(path.take(at) =~= upper.take(at));
        law_components_lie_between_slashes(rest, lower);
        assert(components(path) =~= components(upper) + components(lower));
    } else {
        assert forall|k: int| 0 <= k < upper.len() implies path[k] != '/' by {
            assert(path[k] == upper[k]);
        }
        assert(path[upper.len() as int] == '/');
        lemma_find_char_is(path, '/', upper.len() as int);
        assert(path.take(upper.len() as int) =~= upper);
        assert(path.skip((upper.len() + 1) as int) =~= lower);
    }
}

/// A path that leads upwards, or that has an empty component, is refused wherever the
/// component stands.
pub proof fn law_paths_that_lead_elsewhere_are_refused(
    root: Seq<char>,
    upper: Seq<char>,
    bad: Seq<char>,
    lower: Seq<char>,
)
    requires
        bad == seq!['.', '.'] || bad == seq!['.'] || bad.len() == 0,
    ensures
        member_path(root, bad) is None,
        member_path(root, bad.push('/') + lower) is None,
        member_path(root, upper.push('/') + bad) is None,
        member_path(root, upper.push('/') + (bad.push('/') + lower)) is None,
{
    assert(!bad.contains('/'));
    law_components_lie_between_slashes(bad, lower);
    law_components_lie_between_slashes(upper, bad);
    law_components_lie_between_slashes(upper, bad.push('/') + lower);
    assert(components(bad)[0] == bad);
    assert((components(bad) + components(lower))[0] == bad);
    let n = components(upper).len() as int;
    assert((components(upper) + components(bad))[n] == bad);
    assert((components(upper) + (components(bad) + components(lower)))[n] == bad);
    assert(!is_plain(bad));
}

/// A member lies below the root at its own path.
pub proof fn law_members_lie_at_their_path_below_the_root(root: Seq<char>, path: Seq<char>)
    requires
        root.len() > 0,
        root.last() != '/',
        forall|k: int| 0 <= k < components(path).len() ==> is_plain(#[trigger] components(path)[k]),
    ensures
        member_path(root, path) == Some(root.push('/') + path),
    decreases path.len(),
{
    lemma_find_char(path, '/');
    let at = find_char(path, '/');
    if at < path.len() {
        let first = path.take(at);
        let rest = path.skip(at + 1);
        lemma_first_plain(path, at);
        assert(is_plain(components(path)[0]));
        let below = joined(root, first);
        assert(below == root.push('/') + first);
        assert(below.last() == first.last());
        assert(first.last() == path[at - 1]);
        assert forall|k: int| 0 <= k < components(rest).len() implies is_plain(
            #[trigger] components(rest)[k],
        ) by {
            assert(components(rest)[k] == components(path).skip(1)[k]);
            assert(is_plain(components(path)[k + 1]));
        }
        law_members_lie_at_their_path_below_the_root(below, rest);
        assert(below.push('/') + rest =~= root.push('/') + path);
    } else {
        assert(is_plain(components(path)[0]));
        assert(seq![path].skip(1) =~= Seq::<Seq<char>>::empty());
        reveal_with_fuel(descend, 2);
    }
}

/// A file is put in its place exactly when everything on the way there succeeded: making
/// the directory, removing what may be replaced, and the move itself. A move that is not
/// allowed to replace anything links, and one that is renames.
pub proof fn law_files_are_committed_when_every_step_succeeds(
    destination: Seq<char>,
    replace_existing: bool,
    answer: CommitAnswer,
)
    requires
        commit_step(destination, replace_existing, answer) is Finished,
    ensures
        commit_file_fault(destination, replace_existing, answer) is None <==> {
            &&& parent(destination).len() > 0 ==> (answer.directory matches Some(made)
                && made is Ok)
            &&& replace_existing ==> (answer.removed matches Some(removed) && removed is Ok)
            &&& answer.moved matches Some(moved) && moved.outcome is Ok
        },
        commit_way(replace_existing) == CommitMove::RenameOver <==> replace_existing,
{
}

/// A file is extracted exactly when the archive opens and holds it, its path is safe, and
/// it was put in its place; its size is then the one that the archive tells. A file that
/// the archive does not hold is none.
pub proof fn law_files_are_extracted_when_the_archive_holds_them(
    archive: Result<TzapArchive, TzapFault>,
    entry_path: Seq<char>,
    destination: Seq<char>,
    replace_existing: bool,
    answer: SingleFileAnswer,
)
    requires
        single_file_step(entry_path, destination, replace_existing, answer) is Finished,
    ensures
        ({
            let result = single_file(archive, entry_path, destination, replace_existing, answer);
            &&& result matches Ok(Some(size)) ==> {
                &&& archive is Ok
                &&& answer.lookup == Some(Ok::<Option<u64>, FormatFault>(Some(size)))
                &&& answer.held == Some(Ok::<bool, FormatFault>(true))
                &&& commit_file_fault(destination, replace_existing, answer.commit) is None
                &&& answer.root matches Some(Ok(root)) && member_path(root@, entry_path) is Some
            }
            &&& archive is Ok && answer.lookup == Some(Ok::<Option<u64>, FormatFault>(None))
                ==> result == Ok::<Option<u64>, TzapFault>(None)
            &&& archive matches Err(fault) ==> result == Err::<Option<u64>, TzapFault>(fault)
        }),
{
}

proof fn lemma_deciding_attempt(outcomes: Seq<DirectoryOutcome>)
    ensures
        ({
            let at = deciding_attempt(outcomes);
            &&& 0 <= at <= outcomes.len()
            &&& at < outcomes.len() ==> !(outcomes[at] is Exists)
            &&& forall|k: int| 0 <= k < at ==> #[trigger] outcomes[k] is Exists
        }),
    decreases outcomes.len(),
{
    if outcomes.len() > 0 {
        lemma_deciding_attempt(outcomes.drop_last());
        assert forall|k: int| 0 <= k < outcomes.len() - 1 implies #[trigger] outcomes[k]
            == outcomes.drop_last()[k] by {}
    }
}

/// The temporary directory is the first that did not exist before, and a failure on the
/// way to it ends the search.
pub proof fn law_the_first_free_directory_is_taken(
    destination: Seq<char>,
    process: u32,
    stamp: Seq<char>,
    outcomes: Seq<DirectoryOutcome>,
    at: int,
)
    requires
        0 <= at < outcomes.len(),
        !(outcomes[at] is Exists),
        forall|k: int| 0 <= k < at ==> #[trigger] outcomes[k] is Exists,
    ensures
        match outcomes[at] {
            DirectoryOutcome::Failed(failure) => temporary_root(
                destination,
                process,
                stamp,
                Ok(()),
                outcomes,
            ) == Err::<Seq<char>, TzapFault>(
                TzapFault::Io {
                    path: temporary_path(destination, process, stamp, at as nat),
                    source: failure@,
                },
            ),
            _ => temporary_root(destination, process, stamp, Ok(()), outcomes) == Ok::<
                Seq<char>,
                TzapFault,
            >(temporary_path(destination, process, stamp, at as nat)),
        },
{
    lemma_deciding_attempt(outcomes);
    let found = deciding_attempt(outcomes);
    if found < at {
        assert(outcomes[found] is Exists);
    } else if at < found {
        assert(outcomes[at] is Exists);
    }
}

/// What is taken out is kept beside its destination under a name of its own, and under
/// another one with every attempt.
pub proof fn law_temporary_paths_lie_beside_their_destination(
    destination: Seq<char>,
    process: u32,
    stamp: Seq<char>,
    one: nat,
    other: nat,
)
    ensures
        exists|rest: Seq<char>| #[trigger]
            joined(parent(destination), ".zmanager-tzap-extract-"@ + rest) == temporary_path(
                destination,
                process,
                stamp,
                one,
            ),
        one != other ==> temporary_path(destination, process, stamp, one) != temporary_path(
            destination,
            process,
            stamp,
            other,
        ),
{
    let name = match file_name(destination) {
        Some(name) => name,
        None => "entry"@,
    };
    let mark = ".zmanager-tzap-extract-"@;
    let rest = name + "-"@ + decimal(process as nat) + "-"@ + (stamp + "-"@ + decimal(one));
    assert(mark + rest =~= mark + name + "-"@ + decimal(process as nat) + "-"@ + (stamp + "-"@
        + decimal(one)));
    assert(joined(parent(destination), mark + rest) == temporary_path(
        destination,
        process,
        stamp,
        one,
    ));
    if temporary_path(destination, process, stamp, one) == temporary_path(
        destination,
        process,
        stamp,
        other,
    ) {
        let dir = parent(destination);
        let before = mark + name + "-"@ + decimal(process as nat) + "-"@ + (stamp + "-"@);
        let first = before + decimal(one);
        let second = before + decimal(other);
        assert(first =~= mark + rest);
        assert(second =~= mark + name + "-"@ + decimal(process as nat) + "-"@ + (stamp + "-"@
            + decimal(other)));
        assert(joined(dir, first) == joined(dir, second));
        let from = joined(dir, first).len() - first.len();
        assert(joined(dir, first).skip(from) =~= first);
        assert(joined(dir, second).skip(from) =~= second);
        assert(first.skip(before.len() as int) =~= decimal(one));
        assert(second.skip(before.len() as int) =~= decimal(other));
        crate::text::lemma_decimal_round_trip(one);
        crate::text::lemma_decimal_round_trip(other);
    }
}

/// A file is put in its place step by step: its directory is made where it lies in one,
/// what is there is removed where it is to be replaced, and then it is moved.
pub proof fn law_files_are_put_in_place_step_by_step(
    destination: Seq<char>,
    replace_existing: bool,
    answer: CommitAnswer,
)
    ensures
        ({
            let inside = parent(destination).len() > 0;
            let made = !inside || (answer.directory is Some && answer.directory->0 is Ok);
            let removed = !replace_existing || (answer.removed is Some && answer.removed->0 is Ok);
            let step = commit_step(destination, replace_existing, answer);
            &&& step is MakeDirectory <==> inside && answer.directory is None
            &&& step is RemoveExisting <==> made && replace_existing && answer.removed is None
            &&& step is Move <==> made && removed && answer.moved is None
        }),
{
}

} // verus!
