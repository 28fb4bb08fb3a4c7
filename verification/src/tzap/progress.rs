//! What a job that writes an archive tells while it runs.
use crate::report::saturated;
use crate::text::same_text;
use vstd::prelude::*;

verus! {

/// The phases of a job.
#[derive(Clone, Copy, Debug, PartialEq, Eq, Structural)]
pub enum JobPhase {
    PlanningPayload,
    PlanningMetadata,
    EmittingPayload,
    EmittingMetadata,
    CommittingOutput,
}

/// The phases of the archive writer.
#[derive(Clone, Copy, Debug, PartialEq, Eq, Structural)]
pub enum ArchiveWritePhase {
    PlanningPayload,
    PlanningMetadata,
    EmittingPayload,
    EmittingMetadata,
}

/// The phase of a job that a phase of the writer stands for.
pub open spec fn job_phase(phase: ArchiveWritePhase) -> JobPhase {
    match phase {
        ArchiveWritePhase::PlanningPayload => JobPhase::PlanningPayload,
        ArchiveWritePhase::PlanningMetadata => JobPhase::PlanningMetadata,
        ArchiveWritePhase::EmittingPayload => JobPhase::EmittingPayload,
        ArchiveWritePhase::EmittingMetadata => JobPhase::EmittingMetadata,
    }
}

/// The phase of a job that a phase of the writer stands for.
pub fn job_phase_from_tzap(phase: ArchiveWritePhase) -> (r: JobPhase)
    ensures
        r == job_phase(phase),
{
    match phase {
        ArchiveWritePhase::PlanningPayload => JobPhase::PlanningPayload,
        ArchiveWritePhase::PlanningMetadata => JobPhase::PlanningMetadata,
        ArchiveWritePhase::EmittingPayload => JobPhase::EmittingPayload,
        ArchiveWritePhase::EmittingMetadata => JobPhase::EmittingMetadata,
    }
}

/// What happens when the writer begins a phase.
#[derive(Clone, Copy, Debug, PartialEq, Eq, Structural)]
pub struct PhaseStart {
    /// The phase whose pending progress is told first, if there was one.
    pub flushed: Option<JobPhase>,
    /// The phase that begins.
    pub phase: JobPhase,
    /// How many bytes it goes through, where that is known.
    pub total_bytes: Option<u64>,
}

/// Begins a phase of the writer: what is pending of the phase before it is told
/// first.
pub fn phase_started(active: Option<JobPhase>, phase: ArchiveWritePhase, total_source_bytes: u64)
    -> (start: PhaseStart)
    ensures
        start.flushed == active,
        phase == ArchiveWritePhase::PlanningPayload ==> start.phase == JobPhase::PlanningPayload
            && start.total_bytes == Some(total_source_bytes),
        phase == ArchiveWritePhase::PlanningMetadata ==> start.phase == JobPhase::PlanningMetadata
            && start.total_bytes is None,
        phase == ArchiveWritePhase::EmittingPayload ==> start.phase == JobPhase::EmittingPayload
            && start.total_bytes == Some(total_source_bytes),
        phase == ArchiveWritePhase::EmittingMetadata ==> start.phase == JobPhase::EmittingMetadata
            && start.total_bytes is None,
{
    let job: JobPhase = job_phase_from_tzap(phase);
    PhaseStart {
        flushed: active,
        phase: job,
        total_bytes: phase_total_bytes(job, total_source_bytes),
    }
}

/// How many bytes a phase goes through, where that is known: both payload phases
/// read every source.
pub fn phase_total_bytes(phase: JobPhase, total_source_bytes: u64) -> (total: Option<u64>)
    ensures
        total == (if phase == JobPhase::PlanningPayload || phase == JobPhase::EmittingPayload {
            Some(total_source_bytes)
        } else {
            None
        }),
{
    match phase {
        JobPhase::PlanningPayload => Some(total_source_bytes),
        JobPhase::EmittingPayload => Some(total_source_bytes),
        _ => None,
    }
}

/// One thing that a job tells.
#[derive(Debug, PartialEq, Eq)]
pub enum JobEvent {
    /// Work on an entry began.
    EntryStarted {
        /// The entry.
        path: String,
        /// How many bytes it has.
        size: u64,
    },
    /// Work on an entry ended.
    EntryFinished {
        /// The entry.
        path: String,
        /// How many of its bytes were processed.
        bytes: u64,
    },
    /// Some bytes of an entry were processed.
    BytesProcessed {
        /// The entry.
        path: String,
        /// How many bytes.
        bytes: u64,
    },
    /// Something that the user should know.
    Warning(String),
}

/// One thing that a job tells, with its texts taken as sequences.
pub enum EventView {
    EntryStarted { path: Seq<char>, size: u64 },
    EntryFinished { path: Seq<char>, bytes: u64 },
    BytesProcessed { path: Seq<char>, bytes: u64 },
    Warning(Seq<char>),
}

impl View for JobEvent {
    type V = EventView;

    open spec fn view(&self) -> EventView {
        match self {
            JobEvent::EntryStarted { path, size } => EventView::EntryStarted {
                path: path@,
                size: *size,
            },
            JobEvent::EntryFinished { path, bytes } => EventView::EntryFinished {
                path: path@,
                bytes: *bytes,
            },
            JobEvent::BytesProcessed { path, bytes } => EventView::BytesProcessed {
                path: path@,
                bytes: *bytes,
            },
            JobEvent::Warning(text) => EventView::Warning(text@),
        }
    }
}

/// What a job tells, in order.
pub open spec fn event_views(events: Seq<JobEvent>) -> Seq<EventView> {
    events.map_values(|e: JobEvent| e@)
}

/// Adds to what a job tells.
pub fn push_event(events: &mut Vec<JobEvent>, event: JobEvent)
    ensures
        event_views(final(events)@) == event_views(old(events)@).push(event@),
{
    let ghost before = events@;
    events.push(event);
    assert(event_views(events@) =~= event_views(before).push(event@));
}

/// What a job tells with the bytes that a reader told of, in order: a path and a number
/// each.
pub open spec fn with_reports(
    events: Seq<EventView>,
    reported: Seq<(Seq<char>, u64)>,
) -> Seq<EventView> {
    events + reported.map_values(
        |r: (Seq<char>, u64)| EventView::BytesProcessed { path: r.0, bytes: r.1 },
    )
}

/// Adds the bytes that a reader told of to what a job tells.
pub fn push_reports(events: &mut Vec<JobEvent>, reported: &Vec<(String, u64)>)
    ensures
        event_views(final(events)@) == with_reports(
            event_views(old(events)@),
            pair_views(reported@),
        ),
{
    let ghost before = event_views(events@);
    let mut i: usize = 0;
    assert(with_reports(before, pair_views(reported@.take(0))) =~= before);
    while i < reported.len()
        invariant
            i <= reported@.len(),
            event_views(events@) == with_reports(before, pair_views(reported@.take(i as int))),
        decreases reported@.len() - i,
    {
        let (path, bytes) = &reported[i];
        push_event(events, JobEvent::BytesProcessed { path: path.clone(), bytes: *bytes });
        assert(with_reports(before, pair_views(reported@.take(i + 1))) =~= with_reports(
            before,
            pair_views(reported@.take(i as int)),
        ).push(EventView::BytesProcessed { path: path@, bytes: *bytes }));
        i = i + 1;
    }
    assert(reported@.take(reported@.len() as int) =~= reported@);
}

/// The state of one entry.
struct Slot {
    path: String,
    size: u64,
    processed: u64,
    started: bool,
    finished: bool,
}

/// The state of one entry, with its path taken as a sequence.
pub struct SlotView {
    pub path: Seq<char>,
    pub size: u64,
    pub processed: u64,
    pub started: bool,
    pub finished: bool,
}

/// Where the entry `path` stands, or -1.
pub open spec fn slot_of(slots: Seq<SlotView>, path: Seq<char>) -> int
    decreases slots.len(),
{
    if slots.len() == 0 {
        -1
    } else {
        let earlier = slot_of(slots.drop_last(), path);
        if earlier >= 0 {
            earlier
        } else if slots.last().path == path {
            slots.len() - 1
        } else {
            -1
        }
    }
}

/// The entries of a job with one more source. A path that comes again keeps its
/// place and takes the size that was seen last.
pub open spec fn with_source(slots: Seq<SlotView>, path: Seq<char>, size: u64) -> Seq<SlotView> {
    let at = slot_of(slots, path);
    if at >= 0 {
        slots.update(at, SlotView { size, ..slots[at] })
    } else {
        slots.push(SlotView { path, size, processed: 0, started: false, finished: false })
    }
}

/// The sources of a job: a path and a size each.
pub open spec fn slots_for(sources: Seq<(Seq<char>, u64)>) -> Seq<SlotView>
    decreases sources.len(),
{
    if sources.len() == 0 {
        Seq::empty()
    } else {
        with_source(slots_for(sources.drop_last()), sources.last().0, sources.last().1)
    }
}

/// Paths with sizes, taken by their views.
pub open spec fn pair_views(sources: Seq<(String, u64)>) -> Seq<(Seq<char>, u64)> {
    sources.map_values(|s: (String, u64)| (s.0@, s.1))
}

proof fn lemma_slot_found(slots: Seq<SlotView>, path: Seq<char>, at: int)
    requires
        0 <= at < slots.len(),
        slot_of(slots.take(at), path) == -1,
        slots[at].path == path,
    ensures
        slot_of(slots, path) == at,
    decreases slots.len(),
{
    if at == slots.len() - 1 {
        assert(slots.drop_last() =~= slots.take(at));
    } else {
        assert(slots.drop_last().take(at) =~= slots.take(at));
        lemma_slot_found(slots.drop_last(), path, at);
    }
}

proof fn lemma_slot_of(slots: Seq<SlotView>, path: Seq<char>)
    ensures
        -1 <= slot_of(slots, path) < slots.len(),
        slot_of(slots, path) >= 0 ==> slots[slot_of(slots, path)].path == path,
    decreases slots.len(),
{
    if slots.len() > 0 {
        lemma_slot_of(slots.drop_last(), path);
    }
}

/// What reading some bytes of a source tells.
#[derive(Clone, Copy, Debug, PartialEq, Eq, Structural)]
pub struct ReadEvents {
    /// The size of the entry whose work begins with these bytes.
    pub started: Option<u64>,
    /// Whether the bytes count as processed.
    pub processed: bool,
    /// The size of the entry whose work ends with these bytes.
    pub finished: Option<u64>,
}

/// The state of an entry after some more of its bytes were processed.
pub open spec fn read_slot(slot: SlotView, bytes: u64) -> SlotView {
    let processed = saturated(slot.processed as int, bytes as int, u64::MAX as int) as u64;
    SlotView {
        path: slot.path,
        size: slot.size,
        processed,
        started: true,
        finished: slot.finished || processed >= slot.size,
    }
}

/// The entries after some bytes of `path` were read. Only bytes of the payload
/// count, and only those of a planned path.
pub open spec fn after_read(
    slots: Seq<SlotView>,
    phase: JobPhase,
    path: Seq<char>,
    bytes: u64,
) -> Seq<SlotView> {
    let at = slot_of(slots, path);
    if phase == JobPhase::EmittingPayload && at >= 0 {
        slots.update(at, read_slot(slots[at], bytes))
    } else {
        slots
    }
}

/// What reading some bytes of `path` tells: an entry begins with its first bytes
/// and ends with the bytes that complete it, once each.
pub open spec fn read_events(
    slots: Seq<SlotView>,
    phase: JobPhase,
    path: Seq<char>,
    bytes: u64,
) -> ReadEvents {
    let at = slot_of(slots, path);
    let known = phase == JobPhase::EmittingPayload && at >= 0;
    ReadEvents {
        started: if known && !slots[at].started {
            Some(slots[at].size)
        } else {
            None
        },
        processed: phase == JobPhase::EmittingPayload,
        finished: if known && !slots[at].finished && read_slot(slots[at], bytes).finished {
            Some(slots[at].size)
        } else {
            None
        },
    }
}

/// Per-entry progress of a job that writes an archive.
pub struct TzapEntryProgress {
    slots: Vec<Slot>,
}

impl View for TzapEntryProgress {
    type V = Seq<SlotView>;

    closed spec fn view(&self) -> Seq<SlotView> {
        self.slots@.map_values(
            |s: Slot|
                SlotView {
                    path: s.path@,
                    size: s.size,
                    processed: s.processed,
                    started: s.started,
                    finished: s.finished,
                },
        )
    }
}

impl TzapEntryProgress {
    /// The progress of a job that has these sources to write: their paths with their
    /// sizes. A path that comes again keeps its place and takes the later size.
    pub fn new(sources: &Vec<(String, u64)>) -> (progress: Self)
        ensures
            progress@ == slots_for(pair_views(sources@)),
    {
        let ghost wanted = pair_views(sources@);
        let mut progress = TzapEntryProgress { slots: Vec::new() };
        let mut i: usize = 0;
        assert(wanted.take(0) =~= Seq::<(Seq<char>, u64)>::empty());
        assert(progress@ =~= Seq::<SlotView>::empty());
        while i < sources.len()
            invariant
                i <= sources@.len(),
                wanted == pair_views(sources@),
                progress@ == slots_for(wanted.take(i as int)),
            decreases sources@.len() - i,
        {
            assert(wanted.take(i + 1).drop_last() =~= wanted.take(i as int));
            assert(wanted.take(i + 1).last() == (sources@[i as int].0@, sources@[i as int].1));
            progress.add(sources[i].0.as_str(), sources[i].1);
            i = i + 1;
        }
        assert(wanted.take(sources@.len() as int) =~= wanted);
        progress
    }

    /// Where the entry `path` stands.
    pub fn slot(&self, path: &str) -> (at: Option<usize>)
        ensures
            match at {
                Some(at) => at < self@.len() && at as int == slot_of(self@, path@),
                None => slot_of(self@, path@) == -1,
            },
    {
        let mut i: usize = 0;
        while i < self.slots.len()
            invariant
                i <= self.slots@.len(),
                self@.len() == self.slots@.len(),
                slot_of(self@.take(i as int), path@) == -1,
            decreases self.slots@.len() - i,
        {
            assert(self@.take(i + 1).drop_last() =~= self@.take(i as int));
            assert(self@[i as int].path == self.slots@[i as int].path@);
            if same_text(self.slots[i].path.as_str(), path) {
                proof {
                    lemma_slot_found(self@, path@, i as int);
                }
                return Some(i);
            }
            i = i + 1;
        }
        assert(self@.take(self.slots@.len() as int) =~= self@);
        None
    }

    /// Adds a source.
    pub fn add(&mut self, path: &str, size: u64)
        ensures
            final(self)@ == with_source(old(self)@, path@, size),
    {
        let ghost before = self@;
        match self.slot(path) {
            Some(at) => {
                let slot = Slot {
                    path: self.slots[at].path.clone(),
                    size,
                    processed: self.slots[at].processed,
                    started: self.slots[at].started,
                    finished: self.slots[at].finished,
                };
                self.slots.set(at, slot);
                assert(self@ =~= with_source(before, path@, size));
            },
            None => {
                self.slots.push(
                    Slot {
                        path: path.to_owned(),
                        size,
                        processed: 0,
                        started: false,
                        finished: false,
                    },
                );
                assert(self@ =~= with_source(before, path@, size));
            },
        }
    }

    /// The size of an entry.
    pub fn size(&self, slot: usize) -> (size: u64)
        requires
            slot < self@.len(),
        ensures
            size == self@[slot as int].size,
    {
        self.slots[slot].size
    }

    /// Claims the started event of an entry, returning true on the first claim.
    pub fn mark_started(&mut self, slot: usize) -> (first: bool)
        requires
            slot < old(self)@.len(),
        ensures
            first == !old(self)@[slot as int].started,
            final(self)@ == old(self)@.update(
                slot as int,
                SlotView { started: true, ..old(self)@[slot as int] },
            ),
    {
        let ghost before = self@;
        let first: bool = !self.slots[slot].started;
        let changed = Slot {
            path: self.slots[slot].path.clone(),
            size: self.slots[slot].size,
            processed: self.slots[slot].processed,
            started: true,
            finished: self.slots[slot].finished,
        };
        self.slots.set(slot, changed);
        assert(self@ =~= before.update(
            slot as int,
            SlotView { started: true, ..before[slot as int] },
        ));
        first
    }

    /// Claims the finished event of an entry, returning true on the first claim.
    pub fn mark_finished(&mut self, slot: usize) -> (first: bool)
        requires
            slot < old(self)@.len(),
        ensures
            first == !old(self)@[slot as int].finished,
            final(self)@ == old(self)@.update(
                slot as int,
                SlotView { finished: true, ..old(self)@[slot as int] },
            ),
    {
        let ghost before = self@;
        let first: bool = !self.slots[slot].finished;
        let changed = Slot {
            path: self.slots[slot].path.clone(),
            size: self.slots[slot].size,
            processed: self.slots[slot].processed,
            started: self.slots[slot].started,
            finished: true,
        };
        self.slots.set(slot, changed);
        assert(self@ =~= before.update(
            slot as int,
            SlotView { finished: true, ..before[slot as int] },
        ));
        first
    }

    /// Adds processed bytes to an entry and returns its size the one time that
    /// this completes it.
    pub fn record_processed(&mut self, slot: usize, bytes: u64) -> (completed: Option<u64>)
        requires
            slot < old(self)@.len(),
        ensures
            ({
                let before = old(self)@[slot as int];
                let after = read_slot(before, bytes);
                &&& completed == (if after.finished && !before.finished {
                    Some(before.size)
                } else {
                    None
                })
                &&& final(self)@ == old(self)@.update(
                    slot as int,
                    SlotView { started: before.started, ..after },
                )
            }),
    {
        let ghost before = self@;
        let processed: u64 = self.slots[slot].processed.saturating_add(bytes);
        let size: u64 = self.slots[slot].size;
        let was_finished: bool = self.slots[slot].finished;
        let now_finished: bool = was_finished || processed >= size;
        let changed = Slot {
            path: self.slots[slot].path.clone(),
            size,
            processed,
            started: self.slots[slot].started,
            finished: now_finished,
        };
        self.slots.set(slot, changed);
        assert(self@ =~= before.update(
            slot as int,
            SlotView {
                started: before[slot as int].started,
                ..read_slot(before[slot as int], bytes)
            },
        ));
        if now_finished && !was_finished {
            Some(size)
        } else {
            None
        }
    }

    /// Records that the writer read some bytes of a source.
    pub fn source_bytes_read(&mut self, phase: JobPhase, path: &str, bytes: u64) -> (events:
        ReadEvents)
        ensures
            final(self)@ == after_read(old(self)@, phase, path@, bytes),
            events == read_events(old(self)@, phase, path@, bytes),
    {
        let ghost before = self@;
        if phase != JobPhase::EmittingPayload {
            return ReadEvents { started: None, processed: false, finished: None };
        }
        let slot: usize = match self.slot(path) {
            Some(slot) => slot,
            None => {
                return ReadEvents { started: None, processed: true, finished: None };
            },
        };
        let size: u64 = self.size(slot);
        let first: bool = self.mark_started(slot);
        let finished: Option<u64> = self.record_processed(slot, bytes);
        assert(self@ =~= after_read(before, phase, path@, bytes));
        ReadEvents {
            started: if first {
                Some(size)
            } else {
                None
            },
            processed: true,
            finished,
        }
    }
}

/// What is told of one source when the writer is done: what it was not told
/// before.
pub open spec fn closing_events(slots: Seq<SlotView>, path: Seq<char>, size: u64) -> Seq<
    EventView,
> {
    let at = slot_of(slots, path);
    if at < 0 {
        Seq::empty()
    } else {
        (if slots[at].started {
            Seq::<EventView>::empty()
        } else {
            seq![EventView::EntryStarted { path, size }]
        }) + (if slots[at].finished {
            Seq::<EventView>::empty()
        } else {
            seq![EventView::EntryFinished { path, bytes: size }]
        })
    }
}

/// The entries when a source was closed.
pub open spec fn closed_slots(slots: Seq<SlotView>, path: Seq<char>) -> Seq<SlotView> {
    let at = slot_of(slots, path);
    if at < 0 {
        slots
    } else {
        slots.update(at, SlotView { started: true, finished: true, ..slots[at] })
    }
}

impl TzapEntryProgress {
    /// Tells what is still owed of a source when the writer is done.
    pub fn close(&mut self, path: &str, size: u64, events: &mut Vec<JobEvent>)
        ensures
            final(self)@ == closed_slots(old(self)@, path@),
            event_views(final(events)@) == event_views(old(events)@) + closing_events(
                old(self)@,
                path@,
                size,
            ),
    {
        let ghost before = self@;
        let ghost told = event_views(events@);
        let slot: usize = match self.slot(path) {
            Some(slot) => slot,
            None => {
                assert(told + closing_events(before, path@, size) =~= told);
                return;
            },
        };
        if self.mark_started(slot) {
            push_event(events, JobEvent::EntryStarted { path: path.to_owned(), size });
        }
        if self.mark_finished(slot) {
            push_event(events, JobEvent::EntryFinished { path: path.to_owned(), bytes: size });
        }
        assert(self@ =~= closed_slots(before, path@));
        assert(event_views(events@) =~= told + closing_events(before, path@, size));
    }
}

/// Work on an entry is announced once: after some of its bytes were read, or
/// after it was closed, no later step announces its begin again, and once it has
/// ended no later step ends it again.
pub proof fn law_entries_begin_and_end_once(
    slots: Seq<SlotView>,
    at: int,
    phase: JobPhase,
    path: Seq<char>,
    bytes: u64,
)
    requires
        0 <= at < slots.len(),
    ensures
        slots[at].started ==> after_read(slots, phase, path, bytes)[at].started && closed_slots(
            slots,
            path,
        )[at].started && (slot_of(slots, path) == at ==> read_events(
            slots,
            phase,
            path,
            bytes,
        ).started is None),
        slots[at].finished ==> after_read(slots, phase, path, bytes)[at].finished && closed_slots(
            slots,
            path,
        )[at].finished && (slot_of(slots, path) == at ==> read_events(
            slots,
            phase,
            path,
            bytes,
        ).finished is None && closing_events(slots, path, bytes).len() <= 1),
        slots[at].started && slots[at].finished && slot_of(slots, path) == at ==> closing_events(
            slots,
            path,
            bytes,
        ) =~= Seq::<EventView>::empty(),
{
    lemma_slot_of(slots, path);
}

/// Closing a source leaves its entry begun and ended.
pub proof fn law_closed_entries_are_complete(slots: Seq<SlotView>, path: Seq<char>)
    requires
        slot_of(slots, path) >= 0,
    ensures
        closed_slots(slots, path)[slot_of(slots, path)].started,
        closed_slots(slots, path)[slot_of(slots, path)].finished,
{
    lemma_slot_of(slots, path);
}

/// Reading bytes of an entry while the payload is written counts them for that entry and
/// for no other, tells once that the entry begins, and tells once that it has ended when
/// all its bytes were read. Nothing is counted in any other phase.
pub proof fn law_bytes_are_counted_for_the_entry_they_belong_to(
    slots: Seq<SlotView>,
    path: Seq<char>,
    at: int,
    phase: JobPhase,
    bytes: u64,
)
    requires
        slot_of(slots, path) == at,
        0 <= at < slots.len(),
    ensures
        ({
            let after = after_read(slots, phase, path, bytes);
            let told = read_events(slots, phase, path, bytes);
            &&& after.len() == slots.len()
            &&& forall|k: int| 0 <= k < slots.len() && k != at ==> #[trigger] after[k] == slots[k]
            &&& phase != JobPhase::EmittingPayload ==> after == slots && told.started is None
                && !told.processed && told.finished is None
            &&& phase == JobPhase::EmittingPayload ==> {
                &&& after[at].path == slots[at].path
                &&& after[at].size == slots[at].size
                &&& slots[at].processed + bytes <= u64::MAX ==> after[at].processed
                    == slots[at].processed + bytes
                &&& after[at].started
                &&& after[at].finished <==> slots[at].finished || after[at].processed
                    >= slots[at].size
                &&& told.processed
                &&& told.started == (if slots[at].started {
                    None
                } else {
                    Some(slots[at].size)
                })
                &&& told.finished == (if !slots[at].finished && after[at].finished {
                    Some(slots[at].size)
                } else {
                    None
                })
            }
        }),
{
}

/// Every source has a slot with its path and the size that was last told of it, which has
/// not begun.
pub proof fn law_every_source_has_a_slot(sources: Seq<(Seq<char>, u64)>, path: Seq<char>, size: u64)
    ensures
        ({
            let slots = slots_for(sources.push((path, size)));
            let at = slot_of(slots, path);
            &&& 0 <= at < slots.len()
            &&& slots[at].path == path
            &&& slots[at].size == size
        }),
        forall|k: int|
            0 <= k < slots_for(sources).len() ==> !(#[trigger] slots_for(sources)[k]).started
                && !slots_for(sources)[k].finished && slots_for(sources)[k].processed == 0,
{
    let list = sources.push((path, size));
    assert(list.drop_last() =~= sources);
    let before = slots_for(sources);
    lemma_slot_of(before, path);
    let after = slots_for(list);
    let at = slot_of(before, path);
    if at >= 0 {
        lemma_same_paths(before, after, path);
    } else {
        assert(after.drop_last() =~= before);
    }
    lemma_new_slots_are_idle(sources);
}

proof fn lemma_same_paths(one: Seq<SlotView>, other: Seq<SlotView>, path: Seq<char>)
    requires
        one.len() == other.len(),
        forall|k: int| 0 <= k < one.len() ==> (#[trigger] one[k]).path == other[k].path,
    ensures
        slot_of(one, path) == slot_of(other, path),
    decreases one.len(),
{
    if one.len() > 0 {
        let a = one.drop_last();
        let b = other.drop_last();
        assert forall|k: int| 0 <= k < a.len() implies (#[trigger] a[k]).path == b[k].path by {
            assert(one[k].path == other[k].path);
        }
        lemma_same_paths(a, b, path);
        assert(one[one.len() - 1].path == other[one.len() - 1].path);
    }
}

proof fn lemma_new_slots_are_idle(sources: Seq<(Seq<char>, u64)>)
    ensures
        forall|k: int|
            0 <= k < slots_for(sources).len() ==> !(#[trigger] slots_for(sources)[k]).started
                && !slots_for(sources)[k].finished && slots_for(sources)[k].processed == 0,
    decreases sources.len(),
{
    if sources.len() > 0 {
        lemma_new_slots_are_idle(sources.drop_last());
        lemma_slot_of(slots_for(sources.drop_last()), sources.last().0);
    }
}

/// Closing an entry tells what is still owed of it: that it began, if that was not told,
/// and that it ended, with its size, if that was not told.
pub proof fn law_closing_tells_what_is_owed(slots: Seq<SlotView>, path: Seq<char>, size: u64)
    ensures
        ({
            let at = slot_of(slots, path);
            let told = closing_events(slots, path, size);
            let begins = EventView::EntryStarted { path, size };
            let ends = EventView::EntryFinished { path, bytes: size };
            &&& at < 0 ==> told.len() == 0
            &&& at >= 0 && !slots[at].started && !slots[at].finished ==> told == seq![begins, ends]
            &&& at >= 0 && slots[at].started && !slots[at].finished ==> told == seq![ends]
            &&& at >= 0 && !slots[at].started && slots[at].finished ==> told == seq![begins]
            &&& at >= 0 && slots[at].started && slots[at].finished ==> told.len() == 0
        }),
{
    let begins = EventView::EntryStarted { path, size };
    let ends = EventView::EntryFinished { path, bytes: size };
    assert(seq![begins] + seq![ends] =~= seq![begins, ends]);
    assert(Seq::<EventView>::empty() + seq![ends] =~= seq![ends]);
    assert(seq![begins] + Seq::<EventView>::empty() =~= seq![begins]);
}

/// The phases of the writer are phases of the job under the same names.
pub proof fn law_phases_keep_their_names(phase: ArchiveWritePhase)
    ensures
        phase is PlanningPayload <==> job_phase(phase) is PlanningPayload,
        phase is PlanningMetadata <==> job_phase(phase) is PlanningMetadata,
        phase is EmittingPayload <==> job_phase(phase) is EmittingPayload,
        phase is EmittingMetadata <==> job_phase(phase) is EmittingMetadata,
{
}

} // verus!
