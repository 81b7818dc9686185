//! How the requests in a virtqueue are served, one after the other.
//!
//! The host takes requests out of the queue, reads them, has them answered, writes the answers
//! and gives the requests back.  The functions here say what comes next after each of these.

use vstd::prelude::*;

use crate::bytes::{len_field, length_field};

verus! {

/// What the device makes of a response that does not fit, or cannot be written.
#[derive(Clone, Copy, Debug, PartialEq, Eq, Structural)]
pub enum QueueKind {
    /// The response fits; an empty one is not written.  What was written of it counts, even if
    /// not all could be.
    Request,
    /// Either all of the response is written, or none of it counts.
    Control,
}

/// How far the service of a request got.
#[derive(Clone, Copy, Debug, PartialEq, Eq, Structural)]
pub enum Phase {
    /// The next request is being taken out of the queue.
    Popping,
    /// The request is being read.
    Reading { index: u16 },
    /// The request is being answered.
    Serving { index: u16 },
    /// The response is being written.
    Writing { index: u16, len: usize },
    /// The request is being given back.
    Returning,
    /// The queue is empty.
    Finished,
}

/// The service of a queue.
#[derive(Clone, Copy, Debug, PartialEq, Eq, Structural)]
pub struct QueueService {
    pub kind: QueueKind,
    pub phase: Phase,
    /// A request was given back.
    pub used_any: bool,
}

/// What the host reports.
#[derive(Clone, Copy, Debug, PartialEq, Eq, Structural)]
pub enum Event {
    /// This request was in the queue, or none was.
    Popped(Option<u16>),
    /// The request could be read, or not.
    Read { ok: bool },
    /// The response has `len` bytes, and the guest left room for `capacity`.
    Served { len: usize, capacity: usize },
    /// So many bytes of the response were written, and that was all of them, or not.
    Written { ok: bool, bytes: usize },
    /// The request was given back, or that failed.
    Returned { ok: bool },
}

/// What the host has to do next.
#[derive(Clone, Copy, Debug, PartialEq, Eq, Structural)]
pub enum Action {
    /// Take the next request out of the queue.
    Pop,
    /// Read the request.
    Read { index: u16 },
    /// Have the request answered.
    Serve { index: u16 },
    /// Write the response.
    Write { index: u16 },
    /// Give the request back, with so many bytes of response.
    AddUsed { index: u16, len: u32 },
    /// Nothing more; tell the guest if `signal`.
    Finish { signal: bool },
}

/// The response is written at all.
pub open spec fn is_written(kind: QueueKind, len: usize, capacity: usize) -> bool {
    match kind {
        QueueKind::Request => len > 0,
        QueueKind::Control => len <= capacity,
    }
}

/// The bytes of response with which a request is given back after a write.
pub open spec fn used_len(kind: QueueKind, len: usize, ok: bool, bytes: usize) -> u32 {
    match kind {
        QueueKind::Request => len_field(bytes as nat),
        QueueKind::Control => if ok {
            len_field(len as nat)
        } else {
            0
        },
    }
}

impl QueueService {
    /// The host reports what it was asked for.
    pub open spec fn expects(self, event: Event) -> bool {
        match self.phase {
            Phase::Popping => event is Popped,
            Phase::Reading { index } => event is Read,
            Phase::Serving { index } => event is Served,
            Phase::Writing { index, len } => event is Written,
            Phase::Returning => event is Returned,
            Phase::Finished => false,
        }
    }

    /// The service after an event.
    pub open spec fn after(self, event: Event) -> QueueService {
        let phase = match (self.phase, event) {
            (Phase::Popping, Event::Popped(Some(index))) => Phase::Reading { index },
            (Phase::Popping, Event::Popped(None)) => Phase::Finished,
            // A request that cannot be read is dropped.
            (Phase::Reading { index }, Event::Read { ok }) => if ok {
                Phase::Serving { index }
            } else {
                Phase::Popping
            },
            (Phase::Serving { index }, Event::Served { len, capacity }) => if is_written(
                self.kind,
                len,
                capacity,
            ) {
                Phase::Writing { index, len }
            } else {
                Phase::Returning
            },
            (Phase::Writing { index, len }, Event::Written { ok, bytes }) => Phase::Returning,
            (Phase::Returning, Event::Returned { ok }) => Phase::Popping,
            _ => self.phase,
        };
        QueueService {
            kind: self.kind,
            phase,
            used_any: self.used_any || (self.phase is Returning && event is Returned),
        }
    }

    /// What the host has to do after an event.
    pub open spec fn action(self, event: Event) -> Action {
        match (self.phase, event) {
            (Phase::Popping, Event::Popped(Some(index))) => Action::Read { index },
            (Phase::Reading { index }, Event::Read { ok }) => if ok {
                Action::Serve { index }
            } else {
                Action::Pop
            },
            (Phase::Serving { index }, Event::Served { len, capacity }) => if is_written(
                self.kind,
                len,
                capacity,
            ) {
                Action::Write { index }
            } else {
                Action::AddUsed { index, len: 0 }
            },
            (Phase::Writing { index, len }, Event::Written { ok, bytes }) => Action::AddUsed {
                index,
                len: used_len(self.kind, len, ok, bytes),
            },
            (Phase::Returning, Event::Returned { ok }) => Action::Pop,
            _ => Action::Finish { signal: self.used_any },
        }
    }

    /// Starts to serve a queue: the host takes the first request out of it.
    pub fn start(kind: QueueKind) -> (r: Self)
        ensures
            r == (QueueService { kind, phase: Phase::Popping, used_any: false }),
    {
        QueueService { kind, phase: Phase::Popping, used_any: false }
    }

    /// Whether the host reports what it was asked for.
    pub fn awaits(&self, event: Event) -> (r: bool)
        ensures
            r == self.expects(event),
    {
        match (self.phase, event) {
            (Phase::Popping, Event::Popped(_)) => true,
            (Phase::Reading { .. }, Event::Read { .. }) => true,
            (Phase::Serving { .. }, Event::Served { .. }) => true,
            (Phase::Writing { .. }, Event::Written { .. }) => true,
            (Phase::Returning, Event::Returned { .. }) => true,
            _ => false,
        }
    }

    /// Takes what the host reports, and says what it has to do next.
    pub fn next(&mut self, event: Event) -> (r: Action)
        requires
            old(self).expects(event),
        ensures
            *final(self) == old(self).after(event),
            r == old(self).action(event),
    {
        match (self.phase, event) {
            (Phase::Popping, Event::Popped(Some(index))) => {
                self.phase = Phase::Reading { index };
                Action::Read { index }
            },
            (Phase::Reading { index }, Event::Read { ok }) => {
                if ok {
                    self.phase = Phase::Serving { index };
                    Action::Serve { index }
                } else {
                    self.phase = Phase::Popping;
                    Action::Pop
                }
            },
            (Phase::Serving { index }, Event::Served { len, capacity }) => {
                let write = match self.kind {
                    QueueKind::Request => len > 0,
                    QueueKind::Control => len <= capacity,
                };
                if write {
                    self.phase = Phase::Writing { index, len };
                    Action::Write { index }
                } else {
                    self.phase = Phase::Returning;
                    Action::AddUsed { index, len: 0 }
                }
            },
            (Phase::Writing { index, len }, Event::Written { ok, bytes }) => {
                self.phase = Phase::Returning;
                let used = match self.kind {
                    QueueKind::Request => length_field(bytes),
                    QueueKind::Control => if ok {
                        length_field(len)
                    } else {
                        0
                    },
                };
                Action::AddUsed { index, len: used }
            },
            (Phase::Returning, Event::Returned { ok }) => {
                self.phase = Phase::Popping;
                self.used_any = true;
                Action::Pop
            },
            _ => {
                self.phase = Phase::Finished;
                Action::Finish { signal: self.used_any }
            },
        }
    }
}

/// The service after some events.
pub open spec fn run(start: QueueService, events: Seq<Event>) -> QueueService
    decreases events.len(),
{
    if events.len() == 0 {
        start
    } else {
        run(start, events.drop_last()).after(events.last())
    }
}

/// Each event is what the host was asked for.
pub open spec fn in_turn(start: QueueService, events: Seq<Event>) -> bool {
    forall|i: int|
        0 <= i < events.len() ==> run(start, events.take(i)).expects(#[trigger] events[i])
}

/// The event reports that a request was given back.
pub open spec fn gives_back(events: Seq<Event>) -> bool {
    exists|i: int| 0 <= i < events.len() && (#[trigger] events[i]) is Returned
}

/// One more event gives a request back if it, or one before it, does.
proof fn gives_back_one_more(events: Seq<Event>)
    requires
        events.len() > 0,
    ensures
        gives_back(events) == (gives_back(events.drop_last()) || events.last() is Returned),
{
    let shorter = events.drop_last();
    if gives_back(shorter) {
        let i = choose|i: int| 0 <= i < shorter.len() && (#[trigger] shorter[i]) is Returned;
        assert(events[i] is Returned);
    }
    if events.last() is Returned {
        assert(events[events.len() - 1] is Returned);
    }
    if gives_back(events) && !(events.last() is Returned) {
        let i = choose|i: int| 0 <= i < events.len() && (#[trigger] events[i]) is Returned;
        assert(shorter[i] is Returned);
    }
}

/// Events that come in turn do so up to the last one, and that one does too.
proof fn in_turn_one_more(start: QueueService, events: Seq<Event>)
    requires
        events.len() > 0,
        in_turn(start, events),
    ensures
        in_turn(start, events.drop_last()),
        run(start, events.drop_last()).expects(events.last()),
{
    let shorter = events.drop_last();
    assert forall|i: int| 0 <= i < shorter.len() implies run(start, shorter.take(i)).expects(
        #[trigger] shorter[i],
    ) by {
        assert(shorter.take(i) =~= events.take(i));
        assert(shorter[i] == events[i]);
    }
    assert(events.take(events.len() - 1) =~= shorter);
    assert(run(start, events.take(events.len() - 1)).expects(events[events.len() - 1]));
}

/// When the queue is empty, the guest is told exactly if a request was given back since the
/// service started.
#[verifier::spinoff_prover]
pub proof fn guest_is_told_of_what_came_back(kind: QueueKind, events: Seq<Event>)
    requires
        in_turn(QueueService { kind, phase: Phase::Popping, used_any: false }, events),
    ensures
        ({
            let start = QueueService { kind, phase: Phase::Popping, used_any: false };
            let now = run(start, events);
            &&& now.kind == kind
            &&& now.used_any == gives_back(events)
            &&& now.phase is Popping ==> now.action(Event::Popped(None)) == (Action::Finish {
                signal: gives_back(events),
            })
        }),
    decreases events.len(),
{
    let start = QueueService { kind, phase: Phase::Popping, used_any: false };
    if events.len() > 0 {
        in_turn_one_more(start, events);
        gives_back_one_more(events);
        guest_is_told_of_what_came_back(kind, events.drop_last());
    }
}

/// A request that was read is given back, whatever comes of its response, before the next one is
/// taken out of the queue.
pub proof fn read_requests_are_given_back(
    s: QueueService,
    index: u16,
    served: Event,
    written: Event,
)
    requires
        s.phase == (Phase::Serving { index }),
        s.expects(served),
        written is Written,
    ensures
        s.action(served) == (Action::Write { index }) ==> {
            &&& s.after(served).action(written) is AddUsed
            &&& s.after(served).action(written)->AddUsed_index == index
        },
        s.action(served) != (Action::Write { index }) ==> s.action(served) == (Action::AddUsed {
            index,
            len: 0,
        }),
{
}

/// A response to the control queue is delivered whole or not at all.
pub proof fn control_responses_are_whole(s: QueueService, index: u16, len: usize, event: Event)
    requires
        s.kind == QueueKind::Control,
        s.phase == (Phase::Writing { index, len }),
        s.expects(event),
    ensures
        s.action(event) == (Action::AddUsed { index, len: len_field(len as nat) }) || s.action(
            event,
        ) == (Action::AddUsed { index, len: 0 }),
{
}

/// Any number of bytes that a machine counts is stated by its lowest 32 bits.
pub open spec fn stated(n: usize) -> int {
    n as int % 0x1_0000_0000
}

/// A request on the control queue, from the queue back to it.  A response of `len` bytes is written
/// exactly if the guest left room for at least so many.  After a write that succeeds the request is
/// given back with `len` bytes, and after one that fails, or without one, with none.
pub proof fn control_responses_are_written_where_they_fit(
    index: u16,
    used_any: bool,
    len: usize,
    capacity: usize,
    ok: bool,
    bytes: usize,
)
    ensures
        ({
            let kind = QueueKind::Control;
            let s = QueueService { kind, phase: Phase::Serving { index }, used_any };
            let served = Event::Served { len, capacity };
            let written = Event::Written { ok, bytes };
            if capacity >= len {
                &&& s.action(served) == (Action::Write { index })
                &&& s.after(served).expects(written)
                &&& s.after(served).action(written) is AddUsed
                &&& s.after(served).action(written)->AddUsed_index == index
                &&& s.after(served).action(written)->len == if ok {
                    stated(len)
                } else {
                    0
                }
                &&& s.after(served).after(written).phase is Returning
            } else {
                &&& s.action(served) is AddUsed
                &&& s.action(served)->AddUsed_index == index
                &&& s.action(served)->len == 0
                &&& s.after(served).phase is Returning
            }
        }),
{
}

/// A request on the request queue, from the queue back to it.  Every response that is not empty is
/// written, and the request is given back with as many bytes as were written, whether that was all
/// or not.
pub proof fn request_responses_are_written(
    index: u16,
    used_any: bool,
    len: usize,
    capacity: usize,
    ok: bool,
    bytes: usize,
)
    ensures
        ({
            let kind = QueueKind::Request;
            let s = QueueService { kind, phase: Phase::Serving { index }, used_any };
            let served = Event::Served { len, capacity };
            let written = Event::Written { ok, bytes };
            if len > 0 {
                &&& s.action(served) == (Action::Write { index })
                &&& s.after(served).expects(written)
                &&& s.after(served).action(written) is AddUsed
                &&& s.after(served).action(written)->AddUsed_index == index
                &&& s.after(served).action(written)->len == stated(bytes)
                &&& s.after(served).after(written).phase is Returning
            } else {
                &&& s.action(served) is AddUsed
                &&& s.action(served)->AddUsed_index == index
                &&& s.action(served)->len == 0
                &&& s.after(served).phase is Returning
            }
        }),
{
}

/// The rest of the way: a request that is in the queue is read; one that was read is answered, and
/// one that could not be read is dropped for the next; after a request was given back, whether that
/// worked or not, the next is taken; and when there is none, the service ends and the guest is told
/// exactly if something was given back.
pub proof fn requests_are_served_one_after_the_other(
    kind: QueueKind,
    used_any: bool,
    index: u16,
    ok: bool,
)
    ensures
        ({
            let popping = QueueService { kind, phase: Phase::Popping, used_any };
            let reading = QueueService { kind, phase: Phase::Reading { index }, used_any };
            let returning = QueueService { kind, phase: Phase::Returning, used_any };
            let some = Event::Popped(Some(index));
            let read = Event::Read { ok };
            let back = Event::Returned { ok };
            &&& popping.expects(some) && popping.expects(Event::Popped(None))
            &&& popping.action(some) == (Action::Read { index })
            &&& popping.after(some) == reading
            &&& popping.action(Event::Popped(None)) == (Action::Finish { signal: used_any })
            &&& popping.after(Event::Popped(None)).phase is Finished
            &&& reading.expects(read)
            &&& ok ==> {
                &&& reading.action(read) == (Action::Serve { index })
                &&& reading.after(read) == (QueueService {
                    kind,
                    phase: Phase::Serving { index },
                    used_any,
                })
            }
            &&& !ok ==> reading.action(read) == Action::Pop && reading.after(read) == popping
            &&& returning.expects(back)
            &&& returning.action(back) == Action::Pop
            &&& returning.after(back) == (QueueService {
                kind,
                phase: Phase::Popping,
                used_any: true,
            })
        }),
{
}

/// In each phase the host may report one thing only: what it was asked for.
pub proof fn events_come_in_turn(s: QueueService, event: Event)
    ensures
        s.expects(event) <==> {
            ||| s.phase is Popping && event is Popped
            ||| s.phase is Reading && event is Read
            ||| s.phase is Serving && event is Served
            ||| s.phase is Writing && event is Written
            ||| s.phase is Returning && event is Returned
        },
{
}

} // verus!
