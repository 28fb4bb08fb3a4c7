//! Where an archive is written: which files may be replaced, which ones are
//! removed, and what the output reports.
use crate::failure::{IoFailure, IoKind};
#[allow(unused_imports)]
use crate::failure::IoFailureView;
use crate::report::contains_text;
use crate::text::{concat2, concat4, same_text};
#[allow(unused_imports)]
use crate::text::texts;
use crate::tzap::error::{FormatFault, TzapError, io_error, io_failed, writer_invariant};
#[allow(unused_imports)]
use crate::tzap::error::{FormatFaultView, TzapFault, tzap_message};
use crate::tzap::names::{tzap_bootstrap_sidecar_path, tzap_output_volume_paths};
#[allow(unused_imports)]
use crate::tzap::names::{output_paths, sidecar_path};
use vstd::prelude::*;

verus! {

/// What stands at a path.
#[derive(Debug, PartialEq, Eq)]
pub enum FileState {
    /// Nothing.
    Missing,
    /// A directory that is no link.
    Directory,
    /// A file, or anything else that is no directory.
    Other,
    /// It could not be found out.
    Unreadable(IoFailure),
}

/// What stands at a path, and what removing it came to.
pub struct PathState {
    /// The path.
    pub path: String,
    /// What stands there.
    pub state: FileState,
    /// What removing it came to.
    pub removed: Result<(), IoFailure>,
}

/// What stands at a path, with texts taken as sequences.
pub enum StateView {
    Missing,
    Directory,
    Other,
    Unreadable(IoFailureView),
}

impl View for FileState {
    type V = StateView;

    open spec fn view(&self) -> StateView {
        match self {
            FileState::Missing => StateView::Missing,
            FileState::Directory => StateView::Directory,
            FileState::Other => StateView::Other,
            FileState::Unreadable(message) => StateView::Unreadable(message@),
        }
    }
}

/// Where a path stands in a list, or -1.
pub open spec fn state_position(states: Seq<PathState>, path: Seq<char>) -> int
    decreases states.len(),
{
    if states.len() == 0 {
        -1
    } else {
        let earlier = state_position(states.drop_last(), path);
        if earlier >= 0 {
            earlier
        } else if states.last().path@ == path {
            states.len() - 1
        } else {
            -1
        }
    }
}

/// What stands at a path; nothing, where the list does not hold it.
pub open spec fn state_at(states: Seq<PathState>, path: Seq<char>) -> StateView {
    let at = state_position(states, path);
    if at < 0 {
        StateView::Missing
    } else {
        states[at].state@
    }
}

proof fn lemma_state_found(states: Seq<PathState>, path: Seq<char>, at: int)
    requires
        0 <= at < states.len(),
        state_position(states.take(at), path) == -1,
        states[at].path@ == path,
    ensures
        state_position(states, path) == at,
    decreases states.len(),
{
    if at == states.len() - 1 {
        assert(states.drop_last() =~= states.take(at));
    } else {
        assert(states.drop_last().take(at) =~= states.take(at));
        lemma_state_found(states.drop_last(), path, at);
    }
}

fn find_state(states: &Vec<PathState>, path: &str) -> (at: Option<usize>)
    ensures
        match at {
            Some(at) => at < states@.len() && at as int == state_position(states@, path@),
            None => state_position(states@, path@) == -1,
        },
{
    let mut i: usize = 0;
    while i < states.len()
        invariant
            i <= states@.len(),
            state_position(states@.take(i as int), path@) == -1,
        decreases states@.len() - i,
    {
        assert(states@.take(i + 1).drop_last() =~= states@.take(i as int));
        if same_text(states[i].path.as_str(), path) {
            proof {
                lemma_state_found(states@, path@, i as int);
            }
            return Some(i);
        }
        i = i + 1;
    }
    assert(states@.take(states@.len() as int) =~= states@);
    None
}

/// What is said of a directory that stands where a file is to go.
pub open spec fn directory_in_the_way(path: Seq<char>) -> IoFailureView {
    IoFailureView { kind: IoKind::IsADirectory, message: "cannot replace directory "@ + path }
}

/// What is said of a file that stands where another is to go.
pub open spec fn file_in_the_way(path: Seq<char>) -> IoFailureView {
    IoFailureView { kind: IoKind::AlreadyExists, message: "destination already exists: "@ + path }
}

/// Why a path cannot be written to, if it cannot. A directory is never replaced,
/// and anything else only where that is asked for.
pub open spec fn destination_fault(path: Seq<char>, state: StateView, replace: bool) -> Option<
    TzapFault,
> {
    match state {
        StateView::Missing => None,
        StateView::Directory => Some(
            TzapFault::Io { path, source: directory_in_the_way(path) },
        ),
        StateView::Other => if replace {
            None
        } else {
            Some(TzapFault::Io { path, source: file_in_the_way(path) })
        },
        StateView::Unreadable(failure) => Some(TzapFault::Io { path, source: failure }),
    }
}

/// Checks that a path can be written to.
pub fn ensure_file_destination_available(
    path: &str,
    states: &Vec<PathState>,
    replace_existing: bool,
) -> (r: Result<(), TzapError>)
    ensures
        match r {
            Ok(_) => destination_fault(path@, state_at(states@, path@), replace_existing) is None,
            Err(e) => destination_fault(path@, state_at(states@, path@), replace_existing) == Some(
                e@,
            ),
        },
{
    let at: usize = match find_state(states, path) {
        Some(at) => at,
        None => {
            return Ok(());
        },
    };
    match &states[at].state {
        FileState::Missing => Ok(()),
        FileState::Directory => Err(
            io_error(
                path,
                IoKind::IsADirectory,
                concat2("cannot replace directory ", path).as_str(),
            ),
        ),
        FileState::Other => if replace_existing {
            Ok(())
        } else {
            Err(
                io_error(
                    path,
                    IoKind::AlreadyExists,
                    concat2("destination already exists: ", path).as_str(),
                ),
            )
        },
        FileState::Unreadable(failure) => Err(io_failed(path, failure)),
    }
}

/// A list without what comes again in it.
pub open spec fn unique(list: Seq<Seq<char>>) -> Seq<Seq<char>>
    decreases list.len(),
{
    if list.len() == 0 {
        Seq::empty()
    } else {
        let earlier = unique(list.drop_last());
        if earlier.contains(list.last()) {
            earlier
        } else {
            earlier.push(list.last())
        }
    }
}

fn add_unique(list: &mut Vec<String>, more: &Vec<String>, Ghost(before): Ghost<Seq<Seq<char>>>)
    requires
        texts(old(list)@) == unique(before),
    ensures
        texts(final(list)@) == unique(before + texts(more@)),
{
    let ghost added = texts(more@);
    let mut i: usize = 0;
    assert(before + added.take(0) =~= before);
    while i < more.len()
        invariant
            i <= more@.len(),
            added == texts(more@),
            texts(list@) == unique(before + added.take(i as int)),
        decreases more@.len() - i,
    {
        let ghost so_far = list@;
        assert((before + added.take(i + 1)).drop_last() =~= before + added.take(i as int));
        assert((before + added.take(i + 1)).last() == more@[i as int]@);
        if !contains_text(list, more[i].as_str()) {
            let item: String = more[i].clone();
            list.push(item);
            assert(texts(list@) =~= texts(so_far).push(item@));
        }
        i = i + 1;
    }
    assert(added.take(more@.len() as int) =~= added);
}

/// The paths of two lists, each once, in the order in which they come first.
pub fn unique_paths(left: &Vec<String>, right: &Vec<String>) -> (list: Vec<String>)
    ensures
        texts(list@) == unique(texts(left@) + texts(right@)),
{
    let mut list: Vec<String> = Vec::new();
    assert(texts(list@) =~= Seq::<Seq<char>>::empty());
    add_unique(&mut list, left, Ghost(Seq::empty()));
    assert(Seq::<Seq<char>>::empty() + texts(left@) =~= texts(left@));
    add_unique(&mut list, right, Ghost(texts(left@)));
    list
}

/// The first of some paths that cannot be written to, and why.
pub open spec fn first_destination_fault(
    paths: Seq<Seq<char>>,
    states: Seq<PathState>,
    replace: bool,
) -> Option<TzapFault>
    decreases paths.len(),
{
    if paths.len() == 0 {
        None
    } else {
        let earlier = first_destination_fault(paths.drop_last(), states, replace);
        if earlier is Some {
            earlier
        } else {
            destination_fault(paths.last(), state_at(states, paths.last()), replace)
        }
    }
}

proof fn lemma_fault_stays(
    paths: Seq<Seq<char>>,
    states: Seq<PathState>,
    replace: bool,
    k: int,
)
    requires
        0 <= k <= paths.len(),
        first_destination_fault(paths.take(k), states, replace) is Some,
    ensures
        first_destination_fault(paths, states, replace) == first_destination_fault(
            paths.take(k),
            states,
            replace,
        ),
    decreases paths.len(),
{
    if k == paths.len() {
        assert(paths.take(k) =~= paths);
    } else {
        assert(paths.drop_last().take(k) =~= paths.take(k));
        lemma_fault_stays(paths.drop_last(), states, replace, k);
    }
}

/// The paths that have to be free before an archive is written: the destination,
/// its volumes, and the volumes that are there already.
pub open spec fn claimed_paths(
    destination: Seq<char>,
    volumes: Seq<Seq<char>>,
    existing: Seq<Seq<char>>,
) -> Seq<Seq<char>> {
    seq![destination] + unique(volumes + existing)
}

/// Checks that an archive can be written.
pub fn ensure_tzap_destinations_available(
    destination: &str,
    volume_paths: &Vec<String>,
    existing_volume_paths: &Vec<String>,
    replace_existing: bool,
    states: &Vec<PathState>,
) -> (r: Result<(), TzapError>)
    ensures
        ({
            let fault = first_destination_fault(
                claimed_paths(destination@, texts(volume_paths@), texts(existing_volume_paths@)),
                states@,
                replace_existing,
            );
            match r {
                Ok(_) => fault is None,
                Err(e) => fault == Some(e@),
            }
        }),
{
    let list: Vec<String> = unique_paths(volume_paths, existing_volume_paths);
    let ghost all = claimed_paths(
        destination@,
        texts(volume_paths@),
        texts(existing_volume_paths@),
    );
    assert(all.take(1).drop_last() =~= Seq::<Seq<char>>::empty());
    assert(all.take(1).last() == destination@);
    assert(first_destination_fault(Seq::empty(), states@, replace_existing) is None);
    assert(first_destination_fault(all.take(1), states@, replace_existing) == destination_fault(
        destination@,
        state_at(states@, destination@),
        replace_existing,
    ));
    match ensure_file_destination_available(destination, states, replace_existing) {
        Ok(_) => {},
        Err(e) => {
            proof {
                lemma_fault_stays(all, states@, replace_existing, 1);
            }
            return Err(e);
        },
    }
    let mut i: usize = 0;
    while i < list.len()
        invariant
            i <= list@.len(),
            all.len() == list@.len() + 1,
            all == seq![destination@] + texts(list@),
            all == claimed_paths(
                destination@,
                texts(volume_paths@),
                texts(existing_volume_paths@),
            ),
            first_destination_fault(all.take(i + 1), states@, replace_existing) is None,
        decreases list@.len() - i,
    {
        assert(all.take(i + 2).drop_last() =~= all.take(i + 1));
        assert(all.take(i + 2).last() == list@[i as int]@);
        match ensure_file_destination_available(list[i].as_str(), states, replace_existing) {
            Ok(_) => {},
            Err(e) => {
                proof {
                    lemma_fault_stays(all, states@, replace_existing, i + 2);
                }
                return Err(e);
            },
        }
        i = i + 1;
    }
    assert(all.take(all.len() as int) =~= all);
    Ok(())
}

/// Why a path could not be cleared, if it could not. What is there is removed,
/// unless it is a directory.
pub open spec fn removal_fault(states: Seq<PathState>, path: Seq<char>) -> Option<TzapFault> {
    let at = state_position(states, path);
    match state_at(states, path) {
        StateView::Missing => None,
        StateView::Directory => Some(
            TzapFault::Io { path, source: directory_in_the_way(path) },
        ),
        StateView::Other => match states[at].removed {
            Ok(_) => None,
            Err(failure) => Some(TzapFault::Io { path, source: failure@ }),
        },
        StateView::Unreadable(failure) => Some(TzapFault::Io { path, source: failure }),
    }
}

/// Whether a path has to be removed before it is written.
pub fn needs_removal(path: &str, states: &Vec<PathState>) -> (r: bool)
    ensures
        r == (state_at(states@, path@) is Other),
{
    match find_state(states, path) {
        Some(at) => match &states[at].state {
            FileState::Other => true,
            _ => false,
        },
        None => false,
    }
}

/// Clears a path, given what removing it came to.
pub fn remove_file_destination_for_replace(path: &str, states: &Vec<PathState>) -> (r: Result<
    (),
    TzapError,
>)
    ensures
        match r {
            Ok(_) => removal_fault(states@, path@) is None,
            Err(e) => removal_fault(states@, path@) == Some(e@),
        },
{
    let at: usize = match find_state(states, path) {
        Some(at) => at,
        None => {
            return Ok(());
        },
    };
    match &states[at].state {
        FileState::Missing => Ok(()),
        FileState::Directory => Err(
            io_error(
                path,
                IoKind::IsADirectory,
                concat2("cannot replace directory ", path).as_str(),
            ),
        ),
        FileState::Other => match &states[at].removed {
            Ok(_) => Ok(()),
            Err(failure) => Err(io_failed(path, failure)),
        },
        FileState::Unreadable(failure) => Err(io_failed(path, failure)),
    }
}

/// The first of some paths that could not be cleared, and why.
pub open spec fn first_removal_fault(paths: Seq<Seq<char>>, states: Seq<PathState>) -> Option<
    TzapFault,
>
    decreases paths.len(),
{
    if paths.len() == 0 {
        None
    } else {
        let earlier = first_removal_fault(paths.drop_last(), states);
        if earlier is Some {
            earlier
        } else {
            removal_fault(states, paths.last())
        }
    }
}

proof fn lemma_removal_stays(paths: Seq<Seq<char>>, states: Seq<PathState>, k: int)
    requires
        0 <= k <= paths.len(),
        first_removal_fault(paths.take(k), states) is Some,
    ensures
        first_removal_fault(paths, states) == first_removal_fault(paths.take(k), states),
    decreases paths.len(),
{
    if k == paths.len() {
        assert(paths.take(k) =~= paths);
    } else {
        assert(paths.drop_last().take(k) =~= paths.take(k));
        lemma_removal_stays(paths.drop_last(), states, k);
    }
}

/// What clearing the way for a new archive came to: the volumes that are there
/// go first, the destination last. Without leave to replace nothing is removed.
pub open spec fn clearing_fault(
    destination: Seq<char>,
    existing: Seq<Seq<char>>,
    replace: bool,
    states: Seq<PathState>,
) -> Option<TzapFault> {
    if replace {
        first_removal_fault(existing.push(destination), states)
    } else {
        None
    }
}

/// Clears the way for a new archive, given what each removal came to.
pub fn remove_tzap_destinations_for_replace(
    destination: &str,
    existing_volume_paths: &Vec<String>,
    replace_existing: bool,
    states: &Vec<PathState>,
) -> (r: Result<(), TzapError>)
    ensures
        ({
            let fault = clearing_fault(
                destination@,
                texts(existing_volume_paths@),
                replace_existing,
                states@,
            );
            match r {
                Ok(_) => fault is None,
                Err(e) => fault == Some(e@),
            }
        }),
{
    if !replace_existing {
        return Ok(());
    }
    let ghost all = texts(existing_volume_paths@).push(destination@);
    let mut i: usize = 0;
    while i < existing_volume_paths.len()
        invariant
            i <= existing_volume_paths@.len(),
            replace_existing,
            all == texts(existing_volume_paths@).push(destination@),
            first_removal_fault(all.take(i as int), states@) is None,
        decreases existing_volume_paths@.len() - i,
    {
        assert(all.take(i + 1).drop_last() =~= all.take(i as int));
        assert(all.take(i + 1).last() == existing_volume_paths@[i as int]@);
        match remove_file_destination_for_replace(existing_volume_paths[i].as_str(), states) {
            Ok(_) => {},
            Err(e) => {
                proof {
                    lemma_removal_stays(all, states@, i + 1);
                }
                return Err(e);
            },
        }
        i = i + 1;
    }
    assert(all.drop_last() =~= all.take(existing_volume_paths@.len() as int));
    remove_file_destination_for_replace(destination, states)
}

/// A fault of the archive writer.
#[derive(Debug, PartialEq, Eq)]
pub enum WriteFault {
    /// The writer refuses.
    Format(FormatFault),
    /// The output failed.
    Io(IoFailure),
    /// The job was cancelled.
    Cancelled,
}

/// A fault of the archive writer, with its texts taken as sequences.
pub enum WriteFaultView {
    Format(FormatFaultView),
    Io(IoFailureView),
    Cancelled,
}

impl View for WriteFault {
    type V = WriteFaultView;

    open spec fn view(&self) -> WriteFaultView {
        match self {
            WriteFault::Format(fault) => WriteFaultView::Format(fault@),
            WriteFault::Io(message) => WriteFaultView::Io(message@),
            WriteFault::Cancelled => WriteFaultView::Cancelled,
        }
    }
}

impl WriteFault {
    /// The same fault once more.
    pub fn copy(&self) -> (fault: WriteFault)
        ensures
            fault@ == self@,
    {
        match self {
            WriteFault::Format(fault) => WriteFault::Format(fault.copy()),
            WriteFault::Io(message) => WriteFault::Io(message.copy()),
            WriteFault::Cancelled => WriteFault::Cancelled,
        }
    }
}

/// How an error passes through the archive writer.
pub open spec fn into_write_fault(fault: TzapFault) -> WriteFaultView {
    match fault {
        TzapFault::Format(source) => WriteFaultView::Format(source),
        TzapFault::Io { path, source } => WriteFaultView::Io(source),
        TzapFault::Cancelled => WriteFaultView::Cancelled,
        _ => WriteFaultView::Io(
            IoFailureView { kind: IoKind::Other, message: tzap_message(fault) },
        ),
    }
}

/// How an error of the archive writer is reported.
pub open spec fn from_write_fault(path: Seq<char>, fault: WriteFaultView) -> TzapFault {
    match fault {
        WriteFaultView::Format(source) => TzapFault::Format(source),
        WriteFaultView::Io(failure) => TzapFault::Io { path, source: failure },
        WriteFaultView::Cancelled => TzapFault::Cancelled,
    }
}

/// Takes an error through the archive writer.
pub fn tzap_archive_write_error(error: TzapError) -> (fault: WriteFault)
    ensures
        fault@ == into_write_fault(error@),
{
    match error {
        TzapError::Format(source) => WriteFault::Format(source),
        TzapError::Io { path: _, source } => WriteFault::Io(source),
        TzapError::Cancelled => WriteFault::Cancelled,
        other => WriteFault::Io(
            IoFailure { kind: IoKind::Other, message: other.message() },
        ),
    }
}

/// Reports an error of the archive writer.
pub fn tzap_write_error(path: &str, fault: WriteFault) -> (error: TzapError)
    ensures
        error@ == from_write_fault(path@, fault@),
{
    match fault {
        WriteFault::Format(source) => TzapError::Format(source),
        WriteFault::Io(failure) => TzapError::Io { path: path.to_owned(), source: failure },
        WriteFault::Cancelled => TzapError::Cancelled,
    }
}

/// The output of an archive that is being written.
pub struct TzapArchiveFileSink {
    /// Where the archive goes.
    pub destination: String,
    /// Whether files in the way are replaced.
    pub replace_existing: bool,
    /// Whether the sidecar is kept.
    pub emit_bootstrap_sidecar: bool,
    /// The volumes that are there already.
    pub existing_volume_paths: Vec<String>,
    /// The volumes that are being written.
    pub volume_paths: Vec<String>,
    /// How many of them are open.
    pub outputs: usize,
    /// The sidecar, once the writer has handed it over.
    pub bootstrap_sidecar: Option<Vec<u8>>,
}

/// The writer's fault of an archive without volumes.
pub open spec fn no_volumes() -> FormatFaultView {
    FormatFaultView::WriterInvariant("no TZAP volumes emitted"@)
}

/// Why writing cannot begin, if it cannot.
pub open spec fn begin_fault(
    sink: TzapArchiveFileSink,
    volume_count: nat,
    cancelled: bool,
    states: Seq<PathState>,
) -> Option<WriteFaultView> {
    if cancelled {
        Some(WriteFaultView::Cancelled)
    } else if volume_count == 0 {
        Some(WriteFaultView::Format(no_volumes()))
    } else {
        match first_destination_fault(
            claimed_paths(
                sink.destination@,
                output_paths(sink.destination@, volume_count),
                texts(sink.existing_volume_paths@),
            ),
            states,
            sink.replace_existing,
        ) {
            Some(fault) => Some(into_write_fault(fault)),
            None => None,
        }
    }
}

/// The first output that could not be made, or the number of outputs.
pub open spec fn first_failed(outcomes: Seq<Result<(), IoFailure>>) -> int {
    crate::tzap::keys::first_unopened(outcomes)
}

/// Why the outputs could not all be made, if they could not.
pub open spec fn creation_fault(
    paths: Seq<Seq<char>>,
    created: Seq<Result<(), IoFailure>>,
) -> Option<WriteFaultView> {
    let at = first_failed(created);
    if at < created.len() {
        Some(
            WriteFaultView::Io(
                IoFailureView {
                    kind: (created[at]->Err_0).kind,
                    message: "failed to create TZAP output volume "@ + paths[at] + ": "@ + (
                    created[at]->Err_0).message@,
                },
            ),
        )
    } else {
        None
    }
}

/// What is done with an output.
#[derive(Clone, Copy, Debug, PartialEq, Eq, Structural)]
pub enum OutputStep {
    Access,
    Write,
}

impl TzapArchiveFileSink {
    /// An output that nothing was written to yet. `existing` are the volumes that
    /// are there already, or why they could not be looked for.
    pub fn new(
        destination: &str,
        replace_existing: bool,
        emit_bootstrap_sidecar: bool,
        existing: Result<Vec<String>, TzapError>,
    ) -> (sink: Result<Self, TzapError>)
        ensures
            match existing {
                Err(e) => sink matches Err(r) && r@ == e@,
                Ok(paths) => sink matches Ok(s) && s.destination@ == destination@
                    && s.replace_existing == replace_existing && s.emit_bootstrap_sidecar
                    == emit_bootstrap_sidecar && s.existing_volume_paths == paths
                    && s.volume_paths@.len() == 0 && s.outputs == 0 && s.bootstrap_sidecar is None,
            },
    {
        match existing {
            Err(e) => Err(e),
            Ok(paths) => Ok(
                TzapArchiveFileSink {
                    destination: destination.to_owned(),
                    replace_existing,
                    emit_bootstrap_sidecar,
                    existing_volume_paths: paths,
                    volume_paths: Vec::new(),
                    outputs: 0,
                    bootstrap_sidecar: None,
                },
            ),
        }
    }

    /// The volumes that the writer may begin with.
    pub fn begin_archive(
        &self,
        volume_count: usize,
        cancelled: bool,
        states: &Vec<PathState>,
    ) -> (paths: Result<Vec<String>, WriteFault>)
        ensures
            match paths {
                Ok(paths) => begin_fault(*self, volume_count as nat, cancelled, states@) is None
                    && texts(paths@) == output_paths(self.destination@, volume_count as nat),
                Err(fault) => begin_fault(*self, volume_count as nat, cancelled, states@) == Some(
                    fault@,
                ),
            },
    {
        if cancelled {
            return Err(WriteFault::Cancelled);
        }
        if volume_count == 0 {
            return Err(
                WriteFault::Format(
                    FormatFault::WriterInvariant("no TZAP volumes emitted".to_owned()),
                ),
            );
        }
        let paths: Vec<String> = tzap_output_volume_paths(self.destination.as_str(), volume_count);
        match ensure_tzap_destinations_available(
            self.destination.as_str(),
            &paths,
            &self.existing_volume_paths,
            self.replace_existing,
            states,
        ) {
            Ok(_) => Ok(paths),
            Err(e) => Err(tzap_archive_write_error(e)),
        }
    }

    /// Takes note of the outputs that were made for the volumes.
    pub fn outputs_created(&mut self, paths: Vec<String>, created: &Vec<Result<(), IoFailure>>) -> (r:
        Result<(), WriteFault>)
        requires
            created@.len() == paths@.len(),
        ensures
            match r {
                Ok(_) => {
                    &&& creation_fault(texts(paths@), created@) is None
                    &&& final(self).volume_paths == paths
                    &&& final(self).outputs == paths@.len()
                },
                Err(fault) => {
                    &&& creation_fault(texts(paths@), created@) == Some(fault@)
                    &&& final(self).volume_paths == old(self).volume_paths
                    &&& final(self).outputs == old(self).outputs
                },
            },
            final(self).destination == old(self).destination,
            final(self).replace_existing == old(self).replace_existing,
            final(self).emit_bootstrap_sidecar == old(self).emit_bootstrap_sidecar,
            final(self).existing_volume_paths == old(self).existing_volume_paths,
            final(self).bootstrap_sidecar == old(self).bootstrap_sidecar,
    {
        let at: usize = crate::tzap::keys::find_unopened(created);
        if at < created.len() {
            match &created[at] {
                Err(failure) => {
                    return Err(
                        WriteFault::Io(
                            IoFailure {
                                kind: failure.kind,
                                message: concat4(
                                    "failed to create TZAP output volume ",
                                    paths[at].as_str(),
                                    ": ",
                                    failure.message.as_str(),
                                ),
                            },
                        ),
                    );
                },
                Ok(_) => {},
            }
        }
        self.outputs = paths.len();
        self.volume_paths = paths;
        Ok(())
    }

    /// The volume that some bytes go to.
    pub fn write_volume(&self, volume_index: usize, cancelled: bool) -> (path: Result<
        String,
        WriteFault,
    >)
        ensures
            match path {
                Ok(path) => !cancelled && volume_index < self.volume_paths@.len() && volume_index
                    < self.outputs && path@ == self.volume_paths@[volume_index as int]@,
                Err(fault) => fault@ == (if cancelled {
                    WriteFaultView::Cancelled
                } else if volume_index >= self.volume_paths@.len() {
                    WriteFaultView::Format(
                        FormatFaultView::WriterInvariant(
                            "TZAP volume path index is out of bounds"@,
                        ),
                    )
                } else {
                    WriteFaultView::Format(
                        FormatFaultView::WriterInvariant(
                            "TZAP volume sink index is out of bounds"@,
                        ),
                    )
                }) && (cancelled || volume_index >= self.volume_paths@.len() || volume_index
                    >= self.outputs),
            },
    {
        if cancelled {
            return Err(WriteFault::Cancelled);
        }
        if volume_index >= self.volume_paths.len() {
            return Err(
                WriteFault::Format(
                    FormatFault::WriterInvariant(
                        "TZAP volume path index is out of bounds".to_owned(),
                    ),
                ),
            );
        }
        if volume_index >= self.outputs {
            return Err(
                WriteFault::Format(
                    FormatFault::WriterInvariant(
                        "TZAP volume sink index is out of bounds".to_owned(),
                    ),
                ),
            );
        }
        Ok(self.volume_paths[volume_index].clone())
    }

    /// Keeps the sidecar that the writer hands over.
    pub fn write_bootstrap_sidecar(&mut self, bytes: Vec<u8>, cancelled: bool) -> (r: Result<
        (),
        WriteFault,
    >)
        ensures
            cancelled ==> (r matches Err(fault) && fault@ == WriteFaultView::Cancelled)
                && final(self).bootstrap_sidecar == old(self).bootstrap_sidecar,
            !cancelled ==> r is Ok && final(self).bootstrap_sidecar == Some(bytes),
            final(self).destination == old(self).destination,
            final(self).replace_existing == old(self).replace_existing,
            final(self).emit_bootstrap_sidecar == old(self).emit_bootstrap_sidecar,
            final(self).existing_volume_paths == old(self).existing_volume_paths,
            final(self).volume_paths == old(self).volume_paths,
            final(self).outputs == old(self).outputs,
    {
        if cancelled {
            return Err(WriteFault::Cancelled);
        }
        self.bootstrap_sidecar = Some(bytes);
        Ok(())
    }
}

/// The writer's fault of an output that failed.
pub fn output_error(step: OutputStep, path: &str, failure: &IoFailure) -> (fault: WriteFault)
    ensures
        fault@ == WriteFaultView::Io(
            IoFailureView {
                kind: failure.kind,
                message: (match step {
                    OutputStep::Access => "failed to access TZAP output volume "@,
                    OutputStep::Write => "failed to write TZAP output volume "@,
                }) + path@ + ": "@ + failure.message@,
            },
        ),
{
    let said: &str = failure.message.as_str();
    let message: String = match step {
        OutputStep::Access => concat4("failed to access TZAP output volume ", path, ": ", said),
        OutputStep::Write => concat4("failed to write TZAP output volume ", path, ": ", said),
    };
    WriteFault::Io(IoFailure { kind: failure.kind, message })
}

/// Whether a sidecar is written when the archive is committed.
pub open spec fn keeps_sidecar(sink: TzapArchiveFileSink) -> bool {
    sink.emit_bootstrap_sidecar && (sink.bootstrap_sidecar matches Some(bytes) && bytes@.len() > 0)
}

/// Why a sidecar could not be written, if it could not.
pub open spec fn sidecar_fault(
    destination: Seq<char>,
    replace: bool,
    states: Seq<PathState>,
    written: Result<(), IoFailure>,
) -> Option<TzapFault> {
    let path = sidecar_path(destination);
    let blocked = if replace {
        removal_fault(states, path)
    } else {
        destination_fault(path, state_at(states, path), false)
    };
    if blocked is Some {
        blocked
    } else {
        match written {
            Ok(_) => None,
            Err(failure) => Some(TzapFault::Io { path, source: failure@ }),
        }
    }
}

/// Writes the sidecar beside the archive, given what the output came to.
pub fn commit_bootstrap_sidecar(
    destination: &str,
    replace_existing: bool,
    states: &Vec<PathState>,
    written: &Result<(), IoFailure>,
) -> (r: Result<(), TzapError>)
    ensures
        match r {
            Ok(_) => sidecar_fault(destination@, replace_existing, states@, *written) is None,
            Err(e) => sidecar_fault(destination@, replace_existing, states@, *written) == Some(e@),
        },
{
    let path: String = tzap_bootstrap_sidecar_path(destination);
    let blocked: Result<(), TzapError> = if replace_existing {
        remove_file_destination_for_replace(path.as_str(), states)
    } else {
        ensure_file_destination_available(path.as_str(), states, false)
    };
    match blocked {
        Ok(_) => {},
        Err(e) => {
            return Err(e);
        },
    }
    match written {
        Ok(_) => Ok(()),
        Err(failure) => Err(io_failed(path.as_str(), failure)),
    }
}

/// What the steps of a commit came to, as far as they were done.
pub struct CommitAnswers {
    /// Whether the job was found cancelled.
    pub cancelled: Option<bool>,
    /// The places that were cleared, in order.
    pub cleared: Vec<PathState>,
    /// What putting each volume in its place came to, in order.
    pub committed: Vec<Result<(), IoFailure>>,
    /// The place of the sidecar.
    pub sidecar_place: Option<PathState>,
    /// What writing the sidecar came to.
    pub sidecar: Option<Result<(), IoFailure>>,
}

impl CommitAnswers {
    /// No step was done yet.
    pub fn nothing() -> (done: Self)
        ensures
            done.cancelled is None,
            done.cleared@.len() == 0,
            done.committed@.len() == 0,
            done.sidecar_place is None,
            done.sidecar is None,
    {
        CommitAnswers {
            cancelled: None,
            cleared: Vec::new(),
            committed: Vec::new(),
            sidecar_place: None,
            sidecar: None,
        }
    }
}

/// What is done next to commit an archive.
#[derive(Debug, PartialEq, Eq)]
pub enum SinkStep {
    /// Find out whether the job was cancelled.
    CheckCancelled,
    /// Look at a place and remove the file that stands there.
    Clear {
        /// The place.
        path: String,
    },
    /// Put a volume in its place.
    Commit {
        /// Which one.
        index: usize,
    },
    /// Look at the place of the sidecar.
    PrepareSidecar {
        /// The place.
        path: String,
        /// Whether the file that stands there is removed.
        remove: bool,
    },
    /// Write the sidecar.
    WriteSidecar {
        /// Its place.
        path: String,
    },
    /// Nothing more.
    Finished,
}

/// What is done next to commit an archive, with texts taken as sequences.
pub enum SinkStepView {
    CheckCancelled,
    Clear { path: Seq<char> },
    Commit { index: nat },
    PrepareSidecar { path: Seq<char>, remove: bool },
    WriteSidecar { path: Seq<char> },
    Finished,
}

impl View for SinkStep {
    type V = SinkStepView;

    open spec fn view(&self) -> SinkStepView {
        match self {
            SinkStep::CheckCancelled => SinkStepView::CheckCancelled,
            SinkStep::Clear { path } => SinkStepView::Clear { path: path@ },
            SinkStep::Commit { index } => SinkStepView::Commit { index: *index as nat },
            SinkStep::PrepareSidecar { path, remove } => SinkStepView::PrepareSidecar {
                path: path@,
                remove: *remove,
            },
            SinkStep::WriteSidecar { path } => SinkStepView::WriteSidecar { path: path@ },
            SinkStep::Finished => SinkStepView::Finished,
        }
    }
}

/// Why a commit cannot begin, if it cannot.
pub open spec fn readiness_fault(sink: TzapArchiveFileSink, cancelled: bool) -> Option<TzapFault> {
    if cancelled {
        Some(TzapFault::Cancelled)
    } else if sink.volume_paths@.len() == 0 {
        Some(TzapFault::Format(no_volumes()))
    } else if sink.outputs != sink.volume_paths@.len() {
        Some(
            TzapFault::Format(
                FormatFaultView::WriterInvariant(
                    "TZAP output sink did not open every planned volume"@,
                ),
            ),
        )
    } else {
        None
    }
}

/// The places that are cleared before the volumes go to theirs: those of the volumes that
/// are there already, and the destination. Without leave to replace there are none.
pub open spec fn places_to_clear(sink: TzapArchiveFileSink) -> Seq<Seq<char>> {
    if sink.replace_existing {
        texts(sink.existing_volume_paths@).push(sink.destination@)
    } else {
        Seq::empty()
    }
}

/// The place of the sidecar, if it was looked at.
pub open spec fn sidecar_states(done: CommitAnswers) -> Seq<PathState> {
    match done.sidecar_place {
        Some(place) => seq![place],
        None => Seq::empty(),
    }
}

/// What is done next to commit an archive: everything that is in the way goes, then each
/// volume is put in its place, and then comes the sidecar. The first failure ends it.
pub open spec fn commit_step(sink: TzapArchiveFileSink, done: CommitAnswers) -> SinkStepView {
    let places = places_to_clear(sink);
    let path = sidecar_path(sink.destination@);
    if done.cancelled is None {
        SinkStepView::CheckCancelled
    } else if readiness_fault(sink, done.cancelled->0) is Some {
        SinkStepView::Finished
    } else if first_removal_fault(places, done.cleared@) is Some {
        SinkStepView::Finished
    } else if done.cleared@.len() < places.len() {
        SinkStepView::Clear { path: places[done.cleared@.len() as int] }
    } else if first_failed(done.committed@) < done.committed@.len() {
        SinkStepView::Finished
    } else if done.committed@.len() < sink.volume_paths@.len() {
        SinkStepView::Commit { index: done.committed@.len() }
    } else if !keeps_sidecar(sink) {
        SinkStepView::Finished
    } else if done.sidecar_place is None {
        SinkStepView::PrepareSidecar { path, remove: sink.replace_existing }
    } else if done.sidecar is None && sidecar_fault(
        sink.destination@,
        sink.replace_existing,
        sidecar_states(done),
        Ok(()),
    ) is None {
        SinkStepView::WriteSidecar { path }
    } else {
        SinkStepView::Finished
    }
}

/// Why an archive could not be committed, if it could not.
pub open spec fn commit_fault(sink: TzapArchiveFileSink, done: CommitAnswers) -> Option<TzapFault> {
    let at = first_failed(done.committed@);
    let readiness = readiness_fault(sink, done.cancelled == Some(true));
    let clearing = first_removal_fault(places_to_clear(sink), done.cleared@);
    if readiness is Some {
        readiness
    } else if clearing is Some {
        clearing
    } else if at < done.committed@.len() {
        Some(
            TzapFault::Io {
                path: sink.volume_paths@[at]@,
                source: (done.committed@[at]->Err_0)@,
            },
        )
    } else if keeps_sidecar(sink) {
        sidecar_fault(
            sink.destination@,
            sink.replace_existing,
            sidecar_states(done),
            match done.sidecar {
                Some(written) => written,
                None => Ok(()),
            },
        )
    } else {
        None
    }
}

fn copy_state(state: &PathState) -> (copied: PathState)
    ensures
        copied.path@ == state.path@,
        copied.state@ == state.state@,
        crate::text::viewed(copied.removed) == crate::text::viewed(state.removed),
{
    PathState {
        path: state.path.clone(),
        state: match &state.state {
            FileState::Missing => FileState::Missing,
            FileState::Directory => FileState::Directory,
            FileState::Other => FileState::Other,
            FileState::Unreadable(failure) => FileState::Unreadable(failure.copy()),
        },
        removed: match &state.removed {
            Ok(_) => Ok(()),
            Err(failure) => Err(failure.copy()),
        },
    }
}

impl TzapArchiveFileSink {
    fn check_readiness(&self, cancelled: bool) -> (r: Result<(), TzapError>)
        ensures
            match r {
                Ok(_) => readiness_fault(*self, cancelled) is None,
                Err(e) => readiness_fault(*self, cancelled) == Some(e@),
            },
    {
        if cancelled {
            return Err(TzapError::Cancelled);
        }
        let count: usize = self.volume_paths.len();
        if count == 0 {
            return Err(writer_invariant("no TZAP volumes emitted"));
        }
        if self.outputs != count {
            return Err(writer_invariant("TZAP output sink did not open every planned volume"));
        }
        Ok(())
    }

    fn check_clearing(&self, done: &CommitAnswers) -> (r: Result<(), TzapError>)
        ensures
            match r {
                Ok(_) => first_removal_fault(places_to_clear(*self), done.cleared@) is None,
                Err(e) => first_removal_fault(places_to_clear(*self), done.cleared@) == Some(e@),
            },
    {
        remove_tzap_destinations_for_replace(
            self.destination.as_str(),
            &self.existing_volume_paths,
            self.replace_existing,
            &done.cleared,
        )
    }

    fn next_place(&self, cleared: usize) -> (path: Option<String>)
        ensures
            match path {
                Some(path) => cleared < places_to_clear(*self).len() && path@ == places_to_clear(
                    *self,
                )[cleared as int],
                None => cleared >= places_to_clear(*self).len(),
            },
    {
        if !self.replace_existing {
            return None;
        }
        if cleared < self.existing_volume_paths.len() {
            Some(self.existing_volume_paths[cleared].clone())
        } else if cleared == self.existing_volume_paths.len() {
            Some(self.destination.clone())
        } else {
            None
        }
    }

    fn has_sidecar(&self) -> (r: bool)
        ensures
            r == keeps_sidecar(*self),
    {
        self.emit_bootstrap_sidecar && match &self.bootstrap_sidecar {
            Some(bytes) => bytes.len() > 0,
            None => false,
        }
    }

    fn check_sidecar(&self, done: &CommitAnswers, written: &Result<(), IoFailure>) -> (r: Result<
        (),
        TzapError,
    >)
        ensures
            ({
                let fault = sidecar_fault(
                    self.destination@,
                    self.replace_existing,
                    sidecar_states(*done),
                    *written,
                );
                match r {
                    Ok(_) => fault is None,
                    Err(e) => fault == Some(e@),
                }
            }),
    {
        let mut states: Vec<PathState> = Vec::new();
        match &done.sidecar_place {
            Some(place) => {
                states.push(copy_state(place));
            },
            None => {},
        }
        proof {
            let path = sidecar_path(self.destination@);
            let given = sidecar_states(*done);
            assert(states@.len() == given.len());
            reveal_with_fuel(state_position, 2);
            if given.len() == 1 {
                assert(states@.drop_last() =~= Seq::<PathState>::empty());
                assert(given.drop_last() =~= Seq::<PathState>::empty());
                assert(states@.last().path@ == given.last().path@);
            }
            assert(state_position(states@, path) == state_position(given, path));
            assert(state_at(states@, path) == state_at(given, path));
            assert(removal_fault(states@, path) == removal_fault(given, path));
        }
        commit_bootstrap_sidecar(
            self.destination.as_str(),
            self.replace_existing,
            &states,
            written,
        )
    }

    /// What is done next to commit the archive.
    pub fn next_commit_step(&self, done: &CommitAnswers) -> (step: SinkStep)
        ensures
            step@ == commit_step(*self, *done),
    {
        match done.cancelled {
            None => {
                return SinkStep::CheckCancelled;
            },
            Some(cancelled) => {
                if self.check_readiness(cancelled).is_err() {
                    return SinkStep::Finished;
                }
            },
        }
        if self.check_clearing(done).is_err() {
            return SinkStep::Finished;
        }
        match self.next_place(done.cleared.len()) {
            Some(path) => {
                return SinkStep::Clear { path };
            },
            None => {},
        }
        let committed: usize = done.committed.len();
        if crate::tzap::keys::find_unopened(&done.committed) < committed {
            return SinkStep::Finished;
        }
        if committed < self.volume_paths.len() {
            return SinkStep::Commit { index: committed };
        }
        if !self.has_sidecar() {
            return SinkStep::Finished;
        }
        let path: String = tzap_bootstrap_sidecar_path(self.destination.as_str());
        if done.sidecar_place.is_none() {
            return SinkStep::PrepareSidecar { path, remove: self.replace_existing };
        }
        if done.sidecar.is_none() && self.check_sidecar(done, &Ok(())).is_ok() {
            return SinkStep::WriteSidecar { path };
        }
        SinkStep::Finished
    }

    /// Commits an archive, given what each step came to, and counts its volumes.
    pub fn commit(&self, done: &CommitAnswers) -> (count: Result<usize, TzapError>)
        requires
            commit_step(*self, *done) is Finished,
            done.committed@.len() <= self.volume_paths@.len(),
        ensures
            match count {
                Ok(count) => commit_fault(*self, *done) is None && count
                    == self.volume_paths@.len(),
                Err(e) => commit_fault(*self, *done) == Some(e@),
            },
    {
        let cancelled: bool = match done.cancelled {
            Some(cancelled) => cancelled,
            None => false,
        };
        match self.check_readiness(cancelled) {
            Ok(_) => {},
            Err(e) => {
                return Err(e);
            },
        }
        match self.check_clearing(done) {
            Ok(_) => {},
            Err(e) => {
                return Err(e);
            },
        }
        let at: usize = crate::tzap::keys::find_unopened(&done.committed);
        if at < done.committed.len() {
            match &done.committed[at] {
                Err(failure) => {
                    return Err(io_failed(self.volume_paths[at].as_str(), failure));
                },
                Ok(_) => {},
            }
        }
        if self.has_sidecar() {
            let written: Result<(), IoFailure> = match &done.sidecar {
                Some(Err(failure)) => Err(failure.copy()),
                _ => Ok(()),
            };
            match self.check_sidecar(done, &written) {
                Ok(_) => {},
                Err(e) => {
                    return Err(e);
                },
            }
        }
        Ok(self.volume_paths.len())
    }
}

/// The steps of a commit keep their order: a volume is put in its place only once
/// everything that was in the way is gone, and the sidecar is written only once every
/// volume is in its place.
pub proof fn law_commits_keep_their_order(sink: TzapArchiveFileSink, done: CommitAnswers)
    ensures
        ({
            let step = commit_step(sink, done);
            &&& (step is Clear || step is Commit || step is PrepareSidecar || step is WriteSidecar)
                ==> done.cancelled == Some(false)
            &&& step is Clear ==> sink.replace_existing
            &&& (step is Commit || step is PrepareSidecar || step is WriteSidecar)
                ==> done.cleared@.len() >= places_to_clear(sink).len() && first_removal_fault(
                places_to_clear(sink),
                done.cleared@,
            ) is None
            &&& (step is PrepareSidecar || step is WriteSidecar) ==> done.committed@.len()
                >= sink.volume_paths@.len() && first_failed(done.committed@)
                >= done.committed@.len() && keeps_sidecar(sink)
        }),
{
}

/// A cancelled job, and a refusal of the format, are reported as such after they
/// passed through the archive writer.
pub proof fn law_faults_pass_through_the_writer(fault: TzapFault, path: Seq<char>)
    ensures
        fault is Cancelled ==> from_write_fault(path, into_write_fault(fault))
            == TzapFault::Cancelled,
        fault is Format ==> from_write_fault(path, into_write_fault(fault)) == fault,
        fault matches TzapFault::Io { path: _, source } ==> from_write_fault(
            path,
            into_write_fault(fault),
        ) == (TzapFault::Io { path, source }),
{
}

proof fn lemma_claimed(
    paths: Seq<Seq<char>>,
    states: Seq<PathState>,
    replace: bool,
    k: int,
)
    requires
        first_destination_fault(paths, states, replace) is None,
        0 <= k < paths.len(),
    ensures
        destination_fault(paths[k], state_at(states, paths[k]), replace) is None,
    decreases paths.len(),
{
    if k < paths.len() - 1 {
        lemma_claimed(paths.drop_last(), states, replace, k);
    }
}

/// Without leave to replace, writing begins only where the destination does not
/// exist, and with it only where no directory is in the way.
pub proof fn law_nothing_is_overwritten_unasked(
    sink: TzapArchiveFileSink,
    volume_count: nat,
    states: Seq<PathState>,
)
    requires
        begin_fault(sink, volume_count, false, states) is None,
    ensures
        state_at(states, sink.destination@) is Missing || (sink.replace_existing && state_at(
            states,
            sink.destination@,
        ) is Other),
{
    let paths = claimed_paths(
        sink.destination@,
        output_paths(sink.destination@, volume_count),
        texts(sink.existing_volume_paths@),
    );
    lemma_claimed(paths, states, sink.replace_existing, 0);
}

proof fn lemma_state_position(states: Seq<PathState>, path: Seq<char>)
    ensures
        ({
            let at = state_position(states, path);
            &&& -1 <= at < states.len()
            &&& at >= 0 ==> states[at].path@ == path
            &&& forall|j: int|
                0 <= j < (if at >= 0 {
                    at
                } else {
                    states.len() as int
                }) ==> (#[trigger] states[j]).path@ != path
        }),
    decreases states.len(),
{
    if states.len() > 0 {
        lemma_state_position(states.drop_last(), path);
        assert forall|j: int| 0 <= j < states.len() - 1 implies #[trigger] states[j]
            == states.drop_last()[j] by {}
    }
}

/// A path is in the state that was first found for it; one that was not looked at is
/// missing.
pub proof fn law_paths_are_in_the_state_that_was_found(states: Seq<PathState>, at: int)
    requires
        0 <= at < states.len(),
        forall|k: int| 0 <= k < at ==> (#[trigger] states[k]).path@ != states[at].path@,
    ensures
        state_at(states, states[at].path@) == states[at].state@,
        forall|path: Seq<char>|
            (forall|k: int| 0 <= k < states.len() ==> (#[trigger] states[k]).path@ != path)
                ==> #[trigger] state_at(states, path) is Missing,
{
    lemma_state_position(states, states[at].path@);
    let found = state_position(states, states[at].path@);
    if found < at && found >= 0 {
        assert(states[found].path@ != states[at].path@);
    } else if found > at || found < 0 {
        assert(states[at].path@ != states[at].path@);
    }
    assert forall|path: Seq<char>|
        (forall|k: int| 0 <= k < states.len() ==> (#[trigger] states[k]).path@ != path) implies
        #[trigger] state_at(states, path) is Missing by {
        lemma_state_position(states, path);
    }
}

/// A file may be written where nothing is, and where something that is no directory may be
/// replaced. It is an error of its own kind where a directory is in the way, where
/// something else is that may not be replaced, and where that could not be found out.
pub proof fn law_files_are_written_where_nothing_is_in_the_way(
    path: Seq<char>,
    state: StateView,
    replace: bool,
)
    ensures
        destination_fault(path, state, replace) is None <==> state is Missing || (state is Other
            && replace),
        destination_fault(path, state, replace) matches Some(fault) ==> (fault matches TzapFault::Io {
            path: at,
            source,
        } && at == path && match state {
            StateView::Directory => source.kind == IoKind::IsADirectory,
            StateView::Other => source.kind == IoKind::AlreadyExists,
            StateView::Unreadable(failure) => source == failure,
            StateView::Missing => false,
        }),
{
}

/// An archive begins to be written only where none of its places is in the way: neither its
/// destination, nor any of its volumes, nor any volume that an earlier archive left.
pub proof fn law_no_volume_is_overwritten_unasked(
    sink: TzapArchiveFileSink,
    volume_count: nat,
    cancelled: bool,
    states: Seq<PathState>,
    path: Seq<char>,
)
    requires
        begin_fault(sink, volume_count, cancelled, states) is None,
        path == sink.destination@ || output_paths(sink.destination@, volume_count).contains(path)
            || texts(sink.existing_volume_paths@).contains(path),
    ensures
        !cancelled,
        volume_count > 0,
        state_at(states, path) is Missing || (sink.replace_existing && state_at(states, path)
            is Other),
{
    let all = output_paths(sink.destination@, volume_count) + texts(sink.existing_volume_paths@);
    let claimed = claimed_paths(
        sink.destination@,
        output_paths(sink.destination@, volume_count),
        texts(sink.existing_volume_paths@),
    );
    lemma_unique(all);
    if path == sink.destination@ {
        assert(claimed[0] == path);
        lemma_claimed(claimed, states, sink.replace_existing, 0);
    } else {
        if output_paths(sink.destination@, volume_count).contains(path) {
            let list = output_paths(sink.destination@, volume_count);
            let k = choose|k: int| 0 <= k < list.len() && list[k] == path;
            assert(all[k] == path);
        } else {
            let list = texts(sink.existing_volume_paths@);
            let k = choose|k: int| 0 <= k < list.len() && list[k] == path;
            assert(all[output_paths(sink.destination@, volume_count).len() + k] == path);
        }
        assert(all.contains(path));
        assert(unique(all).contains(path));
        let k = choose|k: int| 0 <= k < unique(all).len() && unique(all)[k] == path;
        assert(claimed[k + 1] == path);
        lemma_claimed(claimed, states, sink.replace_existing, k + 1);
    }
}

proof fn lemma_unique(list: Seq<Seq<char>>)
    ensures
        forall|path: Seq<char>| #[trigger] unique(list).contains(path) <==> list.contains(path),
        forall|i: int, j: int|
            0 <= i < j < unique(list).len() ==> #[trigger] unique(list)[i] != #[trigger] unique(
                list,
            )[j],
    decreases list.len(),
{
    if list.len() > 0 {
        let head = list.drop_last();
        lemma_unique(head);
        assert forall|path: Seq<char>| #[trigger] unique(list).contains(path) <==> list.contains(
            path,
        ) by {
            if list.contains(path) {
                let k = choose|k: int| 0 <= k < list.len() && list[k] == path;
                if k < head.len() {
                    assert(head[k] == path);
                    assert(unique(head).contains(path));
                    let at = choose|at: int| 0 <= at < unique(head).len() && unique(head)[at] == path;
                    assert(unique(list)[at] == path);
                } else if !unique(head).contains(path) {
                    assert(unique(list)[unique(head).len() as int] == path);
                }
            }
            if unique(list).contains(path) {
                let at = choose|at: int| 0 <= at < unique(list).len() && unique(list)[at] == path;
                if at < unique(head).len() {
                    assert(unique(head).contains(path));
                    let k = choose|k: int| 0 <= k < head.len() && head[k] == path;
                    assert(list[k] == path);
                } else {
                    assert(list[list.len() - 1] == path);
                }
            }
        }
    }
}

/// Two lists of paths are put together without losing a path and without naming one twice.
pub proof fn law_paths_are_named_once(list: Seq<Seq<char>>, path: Seq<char>, i: int, j: int)
    ensures
        unique(list).contains(path) <==> list.contains(path),
        0 <= i < j < unique(list).len() ==> unique(list)[i] != unique(list)[j],
{
    lemma_unique(list);
}

/// An archive is committed exactly when it was not cancelled, all its volumes were opened,
/// what it replaces was removed, every volume was put in its place, and its sidecar, if it
/// has one, was written.
pub proof fn law_archives_are_committed_when_every_step_succeeds(
    sink: TzapArchiveFileSink,
    done: CommitAnswers,
)
    requires
        commit_step(sink, done) is Finished,
    ensures
        commit_fault(sink, done) is None ==> {
            &&& done.cancelled == Some(false)
            &&& sink.volume_paths@.len() > 0
            &&& sink.outputs == sink.volume_paths@.len()
            &&& done.committed@.len() >= sink.volume_paths@.len()
            &&& forall|k: int| 0 <= k < done.committed@.len() ==> #[trigger] done.committed@[k] is Ok
            &&& sink.replace_existing ==> done.cleared@.len() > sink.existing_volume_paths@.len()
            &&& sink.emit_bootstrap_sidecar && (sink.bootstrap_sidecar is Some
                && sink.bootstrap_sidecar->0@.len() > 0) ==> (done.sidecar matches Some(written)
                && written is Ok)
        },
        done.cancelled == Some(true) ==> commit_fault(sink, done) == Some(TzapFault::Cancelled),
{
    lemma_first_failed(done.committed@);
}

proof fn lemma_first_failed(outcomes: Seq<Result<(), IoFailure>>)
    ensures
        0 <= first_failed(outcomes) <= outcomes.len(),
        forall|k: int| 0 <= k < first_failed(outcomes) ==> #[trigger] outcomes[k] is Ok,
        first_failed(outcomes) < outcomes.len() ==> outcomes[first_failed(outcomes)] is Err,
    decreases outcomes.len(),
{
    if outcomes.len() > 0 {
        lemma_first_failed(outcomes.drop_last());
        assert forall|k: int| 0 <= k < outcomes.len() - 1 implies #[trigger] outcomes[k]
            == outcomes.drop_last()[k] by {}
    }
}

/// The first volume that could not be created is told, with its path and what went wrong.
pub proof fn law_the_first_volume_that_fails_is_told(
    paths: Seq<Seq<char>>,
    created: Seq<Result<(), IoFailure>>,
)
    ensures
        creation_fault(paths, created) is None <==> forall|k: int|
            0 <= k < created.len() ==> #[trigger] created[k] is Ok,
        creation_fault(paths, created) matches Some(fault) ==> exists|at: int|
            {
                &&& 0 <= at < created.len()
                &&& #[trigger] created[at] is Err
                &&& forall|k: int| 0 <= k < at ==> #[trigger] created[k] is Ok
                &&& fault matches WriteFaultView::Io(failure) && failure.kind == (
                created[at]->Err_0).kind
            },
{
    lemma_first_failed(created);
    let at = first_failed(created);
    if at < created.len() {
        assert(created[at] is Err);
    }
}

/// Where an archive replaces another, every volume of that and the destination are
/// removed, and the first that cannot be is told; where it does not, nothing is removed.
pub proof fn law_replaced_archives_are_removed_whole(
    destination: Seq<char>,
    existing: Seq<Seq<char>>,
    states: Seq<PathState>,
)
    ensures
        clearing_fault(destination, existing, false, states) is None,
        clearing_fault(destination, existing, true, states) is None ==> removal_fault(
            states,
            destination,
        ) is None && forall|k: int|
            0 <= k < existing.len() ==> removal_fault(states, #[trigger] existing[k]) is None,
        (forall|k: int|
            0 <= k < existing.len() ==> removal_fault(states, #[trigger] existing[k]) is None)
            ==> clearing_fault(destination, existing, true, states) == removal_fault(
            states,
            destination,
        ),
{
    let all = existing.push(destination);
    assert(all.drop_last() =~= existing);
    lemma_removals(existing, states);
}

proof fn lemma_removals(paths: Seq<Seq<char>>, states: Seq<PathState>)
    ensures
        first_removal_fault(paths, states) is None <==> forall|k: int|
            0 <= k < paths.len() ==> removal_fault(states, #[trigger] paths[k]) is None,
    decreases paths.len(),
{
    if paths.len() > 0 {
        let shorter = paths.drop_last();
        lemma_removals(shorter, states);
        assert forall|k: int| 0 <= k < shorter.len() implies #[trigger] shorter[k] == paths[k] by {}
        if first_removal_fault(paths, states) is None {
            assert forall|k: int| 0 <= k < paths.len() implies removal_fault(
                states,
                #[trigger] paths[k],
            ) is None by {
                if k < shorter.len() {
                    assert(shorter[k] == paths[k]);
                }
            }
        } else if forall|k: int|
            0 <= k < paths.len() ==> removal_fault(states, #[trigger] paths[k]) is None {
            assert forall|k: int| 0 <= k < shorter.len() implies removal_fault(
                states,
                #[trigger] shorter[k],
            ) is None by {
                assert(shorter[k] == paths[k]);
            }
            assert(paths.last() == paths[paths.len() - 1]);
        }
    }
}

/// A commit goes on step by step: it asks whether it is cancelled, clears every place in
/// order, commits every volume in order, and then prepares and writes the sidecar, where
/// there is one to be written.
pub proof fn law_the_steps_of_a_commit_follow_each_other(
    sink: TzapArchiveFileSink,
    done: CommitAnswers,
)
    ensures
        keeps_sidecar(sink) <==> sink.emit_bootstrap_sidecar && sink.bootstrap_sidecar is Some && (
        sink.bootstrap_sidecar->0)@.len() != 0,
        done.cancelled is None ==> commit_step(sink, done) is CheckCancelled,
        done.cancelled matches Some(cancelled) ==> (readiness_fault(sink, cancelled) is None
            && first_removal_fault(places_to_clear(sink), done.cleared@) is None ==> {
            let cleared = done.cleared@.len();
            let places = places_to_clear(sink);
            let committed = done.committed@.len();
            let whole = first_failed(done.committed@) >= committed;
            &&& cleared < places.len() ==> commit_step(sink, done) == (SinkStepView::Clear {
                path: places[cleared as int],
            })
            &&& cleared >= places.len() && whole && committed < sink.volume_paths@.len()
                ==> commit_step(sink, done) == (SinkStepView::Commit { index: committed })
            &&& cleared >= places.len() && whole && committed >= sink.volume_paths@.len()
                && keeps_sidecar(sink) && done.sidecar_place is None ==> commit_step(sink, done)
                == (SinkStepView::PrepareSidecar {
                path: sidecar_path(sink.destination@),
                remove: sink.replace_existing,
            })
            &&& cleared >= places.len() && whole && committed >= sink.volume_paths@.len()
                && !keeps_sidecar(sink) ==> commit_step(sink, done) is Finished
            &&& cleared >= places.len() && !whole ==> commit_step(sink, done) is Finished
        }),
        done.cancelled matches Some(cancelled) ==> (readiness_fault(sink, cancelled) is Some
            || first_removal_fault(places_to_clear(sink), done.cleared@) is Some ==> commit_step(
            sink,
            done,
        ) is Finished),
{
}

/// What is cleared before an archive replaces another is every volume of that and then the
/// destination; an archive that replaces none clears nothing.
pub proof fn law_replaced_volumes_are_cleared_before_the_destination(sink: TzapArchiveFileSink)
    ensures
        !sink.replace_existing ==> places_to_clear(sink).len() == 0,
        sink.replace_existing ==> {
            let existing = sink.existing_volume_paths@;
            let places = places_to_clear(sink);
            &&& places.len() == existing.len() + 1
            &&& places.last() == sink.destination@
            &&& forall|k: int| 0 <= k < existing.len() ==> #[trigger] places[k] == existing[k]@
        },
{
}

} // verus!
