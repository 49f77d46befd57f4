//! One direction of a session: a task that copies bytes from a source to a
//! sink, one chunk at a time.
//!
//! The task reads, then writes what it read, then (for a buffered sink)
//! flushes, and only then reads again. It holds at most one chunk. The caller
//! performs the reads and writes and reports how each went.

use vstd::prelude::*;

verus! {

/// The most bytes that one read may produce.
pub const CHUNK_SIZE: usize = 2048;

/// Why a copy task stopped.
#[derive(Clone, Copy, Debug, PartialEq, Eq, Structural)]
pub enum TaskEnd {
    /// The source reached its end.
    SourceFinished,
    /// Reading from the source failed.
    ReadFailed,
    /// Writing to the sink failed.
    WriteFailed,
    /// Flushing the sink failed.
    FlushFailed,
}

/// What a copy task is waiting for.
#[derive(Clone, Copy, Debug, PartialEq, Eq, Structural)]
pub enum CopyPhase {
    /// The outcome of a read.
    Reading,
    /// The outcome of writing the chunk it holds.
    Writing,
    /// The outcome of a flush.
    Flushing,
    /// Nothing: the task is over.
    Ended(TaskEnd),
}

/// What the caller reports to a copy task.
#[derive(Clone, Debug, PartialEq, Eq)]
pub enum CopyEvent {
    /// The source is open but had no bytes this time.
    Idle,
    /// The source produced these bytes; an empty chunk is a read of length
    /// zero.
    Data(Vec<u8>),
    /// The source was finished by its peer.
    Finished,
    /// The read failed.
    ReadFailed,
    /// The sink took the whole chunk.
    Written,
    /// The write failed.
    WriteFailed,
    /// The sink was flushed.
    Flushed,
    /// The flush failed.
    FlushFailed,
}

/// What the caller has to do next for a copy task.
#[derive(Clone, Copy, Debug, PartialEq, Eq, Structural)]
pub enum CopyAction {
    /// Read at most `max` bytes from the source.
    Read { max: usize },
    /// Write the `len` pending bytes to the sink.
    Write { len: usize },
    /// Flush the sink.
    Flush,
    /// Stop: the task is over.
    Stop { end: TaskEnd },
}

/// A copy task as mathematical values.
pub struct CopyModel {
    /// Whether the sink is flushed after each write.
    pub flush: bool,
    pub phase: CopyPhase,
    /// The chunk that was read and not yet taken by the sink.
    pub held: Seq<u8>,
}

impl CopyModel {
    /// A task that is about to make its first read.
    pub open spec fn start(flush: bool) -> CopyModel {
        CopyModel { flush, phase: CopyPhase::Reading, held: Seq::empty() }
    }

    /// What the caller has to do while the task is in this state.
    pub open spec fn action(self) -> CopyAction {
        match self.phase {
            CopyPhase::Reading => CopyAction::Read { max: CHUNK_SIZE },
            CopyPhase::Writing => CopyAction::Write { len: self.held.len() as usize },
            CopyPhase::Flushing => CopyAction::Flush,
            CopyPhase::Ended(end) => CopyAction::Stop { end },
        }
    }

    /// The state after `event`.
    ///
    /// A read without bytes is followed by another read. A chunk is written
    /// before anything else is read. Any failure, and the end of the source,
    /// stops the task. An event that the phase does not wait for changes
    /// nothing.
    pub open spec fn step(self, event: CopyEvent) -> CopyModel {
        match self.phase {
            CopyPhase::Reading => match event {
                CopyEvent::Data(chunk) => if chunk@.len() > 0 {
                    CopyModel { phase: CopyPhase::Writing, held: chunk@, ..self }
                } else {
                    self
                },
                CopyEvent::Finished => CopyModel {
                    phase: CopyPhase::Ended(TaskEnd::SourceFinished),
                    ..self
                },
                CopyEvent::ReadFailed => CopyModel {
                    phase: CopyPhase::Ended(TaskEnd::ReadFailed),
                    ..self
                },
                _ => self,
            },
            CopyPhase::Writing => match event {
                CopyEvent::Written => CopyModel {
                    phase: if self.flush {
                        CopyPhase::Flushing
                    } else {
                        CopyPhase::Reading
                    },
                    held: Seq::empty(),
                    ..self
                },
                CopyEvent::WriteFailed => CopyModel {
                    phase: CopyPhase::Ended(TaskEnd::WriteFailed),
                    ..self
                },
                _ => self,
            },
            CopyPhase::Flushing => match event {
                CopyEvent::Flushed => CopyModel { phase: CopyPhase::Reading, ..self },
                CopyEvent::FlushFailed => CopyModel {
                    phase: CopyPhase::Ended(TaskEnd::FlushFailed),
                    ..self
                },
                _ => self,
            },
            CopyPhase::Ended(_) => self,
        }
    }

    /// The bytes that the task accepts from the source with `event`.
    pub open spec fn takes(self, event: CopyEvent) -> Seq<u8> {
        match event {
            CopyEvent::Data(chunk) if self.phase is Reading => chunk@,
            _ => Seq::empty(),
        }
    }

    /// The bytes that the sink has taken once `event` is reported.
    pub open spec fn gives(self, event: CopyEvent) -> Seq<u8> {
        match event {
            CopyEvent::Written if self.phase is Writing => self.held,
            _ => Seq::empty(),
        }
    }

    /// The state after all of `events`, in order.
    pub open spec fn run(self, events: Seq<CopyEvent>) -> CopyModel
        decreases events.len(),
    {
        if events.len() == 0 {
            self
        } else {
            self.step(events[0]).run(events.drop_first())
        }
    }

    /// Everything accepted from the source in the course of `events`.
    pub open spec fn taken(self, events: Seq<CopyEvent>) -> Seq<u8>
        decreases events.len(),
    {
        if events.len() == 0 {
            Seq::empty()
        } else {
            self.takes(events[0]) + self.step(events[0]).taken(events.drop_first())
        }
    }

    /// Everything taken by the sink in the course of `events`.
    pub open spec fn given(self, events: Seq<CopyEvent>) -> Seq<u8>
        decreases events.len(),
    {
        if events.len() == 0 {
            Seq::empty()
        } else {
            self.gives(events[0]) + self.step(events[0]).given(events.drop_first())
        }
    }

    /// A chunk is held exactly while it is being written, or after its write
    /// failed.
    pub open spec fn wf(self) -> bool {
        &&& self.phase is Writing ==> self.held.len() > 0
        &&& self.held.len() > 0 ==> self.phase is Writing || self.phase == CopyPhase::Ended(
            TaskEnd::WriteFailed,
        )
    }
}

/// One copy task, driven by the caller's events.
#[derive(Clone, Debug)]
pub struct CopyTask {
    flush: bool,
    phase: CopyPhase,
    held: Vec<u8>,
}

impl View for CopyTask {
    type V = CopyModel;

    closed spec fn view(&self) -> CopyModel {
        CopyModel { flush: self.flush, phase: self.phase, held: self.held@ }
    }
}

impl CopyTask {
    /// A task that is about to make its first read. With `flush` set, the
    /// sink is flushed after each write.
    pub fn new(flush: bool) -> (task: CopyTask)
        ensures
            task@ == CopyModel::start(flush),
    {
        CopyTask { flush, phase: CopyPhase::Reading, held: Vec::new() }
    }

    /// The phase the task is in.
    pub fn phase(&self) -> (phase: CopyPhase)
        ensures
            phase == self@.phase,
    {
        self.phase
    }

    /// The chunk that the sink has yet to take.
    pub fn pending(&self) -> (chunk: &[u8])
        ensures
            chunk@ == self@.held,
    {
        self.held.as_slice()
    }

    /// What the caller has to do now.
    pub fn action(&self) -> (action: CopyAction)
        ensures
            action == self@.action(),
    {
        match self.phase {
            CopyPhase::Reading => CopyAction::Read { max: CHUNK_SIZE },
            CopyPhase::Writing => CopyAction::Write { len: self.held.len() },
            CopyPhase::Flushing => CopyAction::Flush,
            CopyPhase::Ended(end) => CopyAction::Stop { end },
        }
    }

    /// Takes one event and answers with the next action.
    pub fn step(&mut self, event: CopyEvent) -> (action: CopyAction)
        ensures
            final(self)@ == old(self)@.step(event),
            action == final(self)@.action(),
    {
        match self.phase {
            CopyPhase::Reading => match event {
                CopyEvent::Data(chunk) => {
                    if chunk.len() > 0 {
                        self.held = chunk;
                        self.phase = CopyPhase::Writing;
                    }
                },
                CopyEvent::Finished => {
                    self.phase = CopyPhase::Ended(TaskEnd::SourceFinished);
                },
                CopyEvent::ReadFailed => {
                    self.phase = CopyPhase::Ended(TaskEnd::ReadFailed);
                },
                _ => {},
            },
            CopyPhase::Writing => match event {
                CopyEvent::Written => {
                    self.held = Vec::new();
                    self.phase = if self.flush {
                        CopyPhase::Flushing
                    } else {
                        CopyPhase::Reading
                    };
                },
                CopyEvent::WriteFailed => {
                    self.phase = CopyPhase::Ended(TaskEnd::WriteFailed);
                },
                _ => {},
            },
            CopyPhase::Flushing => match event {
                CopyEvent::Flushed => {
                    self.phase = CopyPhase::Reading;
                },
                CopyEvent::FlushFailed => {
                    self.phase = CopyPhase::Ended(TaskEnd::FlushFailed);
                },
                _ => {},
            },
            CopyPhase::Ended(_) => {},
        }
        self.action()
    }
}

/// Every state that a task can reach from a well-formed one is well formed.
pub proof fn lemma_copy_wf(task: CopyModel, events: Seq<CopyEvent>)
    requires
        task.wf(),
    ensures
        task.run(events).wf(),
    decreases events.len(),
{
    if events.len() > 0 {
        lemma_copy_wf(task.step(events[0]), events.drop_first());
    }
}

/// Nothing is lost, added or reordered: what a task held and took from the
/// source is what the sink took, followed by what the task still holds.
pub proof fn lemma_copy_conserves(task: CopyModel, events: Seq<CopyEvent>)
    requires
        task.wf(),
    ensures
        task.held + task.taken(events) == task.given(events) + task.run(events).held,
    decreases events.len(),
{
    if events.len() == 0 {
        assert(task.held + Seq::<u8>::empty() =~= Seq::<u8>::empty() + task.held);
    } else {
        let next = task.step(events[0]);
        let rest = events.drop_first();
        lemma_copy_conserves(next, rest);
        assert(task.held + task.takes(events[0]) =~= task.gives(events[0]) + next.held);
        assert(task.held + task.taken(events) =~= (task.held + task.takes(events[0]))
            + next.taken(rest));
        assert(task.given(events) + task.run(events).held =~= task.gives(events[0]) + (
        next.given(rest) + next.run(rest).held));
        assert((task.gives(events[0]) + next.held) + next.taken(rest) =~= task.gives(events[0])
            + (next.held + next.taken(rest)));
    }
}

/// A task copies in order: at every moment the sink has taken a prefix of
/// what was read, and the rest is the chunk in hand. Whenever the task is not
/// in the middle of a write, the sink has taken every byte that was read.
pub proof fn lemma_copy_in_order(flush: bool, events: Seq<CopyEvent>)
    ensures
        ({
            let start = CopyModel::start(flush);
            let end = start.run(events);
            &&& start.taken(events) == start.given(events) + end.held
            &&& start.given(events).is_prefix_of(start.taken(events))
            &&& end.held.len() <= start.taken(events).len()
            &&& !(end.phase is Writing) && end.phase != CopyPhase::Ended(TaskEnd::WriteFailed)
                ==> start.given(events) == start.taken(events)
        }),
{
    let start = CopyModel::start(flush);
    let end = start.run(events);
    lemma_copy_conserves(start, events);
    lemma_copy_wf(start, events);
    assert(start.held + start.taken(events) =~= start.taken(events));
    if end.held.len() == 0 {
        assert(start.given(events) + end.held =~= start.given(events));
    }
}

/// Two tasks in a row copy in order: where the far task reads exactly what
/// the near task's sink took, the far sink has taken a prefix of what the
/// near task read.
pub proof fn lemma_tunnel_in_order(
    near_flush: bool,
    near: Seq<CopyEvent>,
    far_flush: bool,
    far: Seq<CopyEvent>,
)
    requires
        CopyModel::start(far_flush).taken(far) == CopyModel::start(near_flush).given(near),
    ensures
        CopyModel::start(far_flush).given(far).is_prefix_of(
            CopyModel::start(near_flush).taken(near),
        ),
{
    lemma_copy_in_order(near_flush, near);
    lemma_copy_in_order(far_flush, far);
}

} // verus!
