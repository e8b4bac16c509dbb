//! One call of a guest: the resources that the host hands to it, what
//! becomes of them when the call ends, and the count of calls that failed.

use vstd::prelude::*;
use crate::host::ErrorKind;

verus! {

/// What became of the events that were handed to guests.
#[derive(Debug, Clone, Copy, PartialEq, Eq, Structural)]
pub struct DispatchStats {
    /// The events that were handed to a guest.
    pub events: u64,
    /// The events whose handler failed.
    pub processing_errors: u64,
}

impl DispatchStats {
    /// No event yet.
    pub fn new() -> (r: DispatchStats)
        ensures
            r == (DispatchStats { events: 0, processing_errors: 0 }),
    {
        DispatchStats { events: 0, processing_errors: 0 }
    }

    /// Counts one more event, and one more error where its handler failed.
    /// A counter that has reached its greatest value stays there.
    pub fn record(self, handler_failed: bool) -> (r: DispatchStats)
        ensures
            r.events == if self.events < u64::MAX {
                (self.events + 1) as u64
            } else {
                self.events
            },
            r.processing_errors == if handler_failed && self.processing_errors < u64::MAX {
                (self.processing_errors + 1) as u64
            } else {
                self.processing_errors
            },
    {
        DispatchStats {
            events: self.events.saturating_add(1),
            processing_errors: if handler_failed {
                self.processing_errors.saturating_add(1)
            } else {
                self.processing_errors
            },
        }
    }
}

/// Where a call of a guest stands.
#[derive(Debug, Clone, Copy, PartialEq, Eq, Structural)]
pub enum Phase {
    /// The store is made and its table is empty; the guest has not been
    /// called yet.
    Fresh,
    /// The guest's handler runs.
    Running,
    /// The handler has returned and the store is dropped.
    Finished,
    /// The guest was trapped and the store is released.
    Trapped,
}

/// What happens during a call of a guest.
#[derive(Debug, Clone, Copy, PartialEq, Eq, Structural)]
pub enum CallEvent {
    /// The input of the call was pushed into the table under this handle,
    /// and the handler is called with it.
    Start(u32),
    /// The host handed a resource to the guest under this handle.
    HandOut(u32),
    /// The guest uses the resource under this handle.
    Use(u32),
    /// The guest drops the resource under this handle.
    Drop(u32),
    /// The handler returned, with an error or without.
    Return { failed: bool },
}

/// What the host does after an event of a call.
#[derive(Debug, Clone, Copy, PartialEq, Eq, Structural)]
pub enum Verdict {
    /// The call goes on.
    Proceed,
    /// The guest is trapped: it misused the resource table.
    Trap,
    /// The call is over; the error is counted where the handler failed.
    Finish { failed: bool },
    /// The event comes at a time when it means nothing, and is passed over.
    Ignore,
}

/// One call of a guest: where it stands and the handles of the resources
/// that the guest holds. No handle occurs twice, and a call that is not
/// running holds none.
pub struct Invocation {
    phase: Phase,
    handles: Vec<u32>,
}

/// What an [`Invocation`] holds.
pub struct InvocationModel {
    pub phase: Phase,
    pub handles: Seq<u32>,
}

impl View for Invocation {
    type V = InvocationModel;

    closed spec fn view(&self) -> InvocationModel {
        InvocationModel { phase: self.phase, handles: self.handles@ }
    }
}

/// Whether a handle is another one than `handle`.
pub open spec fn other_than(handle: u32) -> spec_fn(u32) -> bool {
    |h: u32| h != handle
}

/// The handles `handles` without `handle`.
pub open spec fn without_handle(handles: Seq<u32>, handle: u32) -> Seq<u32> {
    handles.filter(other_than(handle))
}

/// What the host does after `event` in a call that stands at `m`.
///
/// A fresh call starts running with the handle of its input. While it
/// runs, a handle that is handed out must be new, and one that is used or
/// dropped must be held: anything else is misuse of the table and traps
/// the guest. The return of the handler finishes the call. Every other
/// event is passed over.
pub open spec fn verdict_of(m: InvocationModel, event: CallEvent) -> Verdict {
    match (m.phase, event) {
        (Phase::Fresh, CallEvent::Start(_)) => Verdict::Proceed,
        (Phase::Running, CallEvent::HandOut(h)) => if m.handles.contains(h) {
            Verdict::Trap
        } else {
            Verdict::Proceed
        },
        (Phase::Running, CallEvent::Use(h)) => if m.handles.contains(h) {
            Verdict::Proceed
        } else {
            Verdict::Trap
        },
        (Phase::Running, CallEvent::Drop(h)) => if m.handles.contains(h) {
            Verdict::Proceed
        } else {
            Verdict::Trap
        },
        (Phase::Running, CallEvent::Return { failed }) => Verdict::Finish { failed },
        _ => Verdict::Ignore,
    }
}

/// The call after `event`: a trap and the return of the handler release
/// every resource that the guest held.
pub open spec fn after(m: InvocationModel, event: CallEvent) -> InvocationModel {
    match verdict_of(m, event) {
        Verdict::Ignore => m,
        Verdict::Trap => InvocationModel { phase: Phase::Trapped, handles: Seq::<u32>::empty() },
        Verdict::Finish { failed } => InvocationModel {
            phase: Phase::Finished,
            handles: Seq::<u32>::empty(),
        },
        Verdict::Proceed => match event {
            CallEvent::Start(h) => InvocationModel { phase: Phase::Running, handles: seq![h] },
            CallEvent::HandOut(h) => InvocationModel {
                phase: Phase::Running,
                handles: m.handles.push(h),
            },
            CallEvent::Drop(h) => InvocationModel {
                phase: Phase::Running,
                handles: without_handle(m.handles, h),
            },
            _ => m,
        },
    }
}

/// Whether no handle occurs twice, and none is held outside a running call.
pub open spec fn well_formed(m: InvocationModel) -> bool {
    &&& forall|i: int, j: int| 0 <= i < j < m.handles.len() ==> m.handles[i] != m.handles[j]
    &&& m.phase != Phase::Running ==> m.handles.len() == 0
}

/// Every step of a call keeps it well formed, and a call that has ended
/// stays as it is.
pub proof fn lemma_step_keeps_well_formed(m: InvocationModel, event: CallEvent)
    requires
        well_formed(m),
    ensures
        well_formed(after(m, event)),
        m.phase == Phase::Finished || m.phase == Phase::Trapped ==> after(m, event) == m,
{
    match (m.phase, event, verdict_of(m, event)) {
        (Phase::Running, CallEvent::HandOut(h), Verdict::Proceed) => {
            let now = m.handles.push(h);
            assert forall|i: int, j: int| 0 <= i < j < now.len() implies now[i] != now[j] by {
                if j == m.handles.len() {
                    assert(m.handles.contains(m.handles[i]));
                }
            }
        },
        (Phase::Running, CallEvent::Drop(h), Verdict::Proceed) => {
            lemma_without_distinct(m.handles, h);
        },
        _ => {},
    }
}

/// Distinct handles stay distinct when one is left out.
#[verifier::rlimit(40)]
pub proof fn lemma_without_distinct(handles: Seq<u32>, handle: u32)
    requires
        forall|i: int, j: int| 0 <= i < j < handles.len() ==> handles[i] != handles[j],
    ensures
        forall|i: int, j: int|
            0 <= i < j < without_handle(handles, handle).len() ==> without_handle(
                handles,
                handle,
            )[i] != without_handle(handles, handle)[j],
        !without_handle(handles, handle).contains(handle),
    decreases handles.len(),
{
    let keep = other_than(handle);
    if handles.len() == 0 {
        assert(handles.filter(keep) =~= Seq::<u32>::empty()) by {
            reveal(Seq::filter);
        }
    } else {
        let front = handles.drop_last();
        let last = handles.last();
        assert forall|i: int, j: int| 0 <= i < j < front.len() implies front[i] != front[j] by {
            assert(front[i] == handles[i] && front[j] == handles[j]);
        }
        lemma_without_distinct(front, handle);
        assert(handles =~= front.push(last));
        front.lemma_filter_push(last, keep);
        let kept = front.filter(keep);
        if keep(last) {
            let now = kept.push(last);
            assert forall|i: int, j: int| 0 <= i < j < now.len() implies now[i] != now[j] by {
                if j == kept.len() {
                    assert(kept.contains(kept[i]));
                    front.lemma_filter_contains_rev(keep, kept[i]);
                    let k = choose|k: int| 0 <= k < front.len() && front[k] == kept[i];
                    assert(handles[k] == kept[i]);
                    assert(handles[handles.len() - 1] == last);
                }
            }
            assert(!now.contains(handle)) by {
                if now.contains(handle) {
                    let k = choose|k: int| 0 <= k < now.len() && now[k] == handle;
                    if k < kept.len() {
                        assert(kept.contains(kept[k]));
                    }
                }
            }
        }
    }
}

impl Invocation {
    #[verifier::type_invariant]
    closed spec fn inv(&self) -> bool {
        well_formed(self@)
    }

    /// A fresh call: its store is made and its table is empty.
    pub fn new() -> (r: Invocation)
        ensures
            r@ == (InvocationModel { phase: Phase::Fresh, handles: Seq::<u32>::empty() }),
    {
        Invocation { phase: Phase::Fresh, handles: Vec::new() }
    }

    /// Where the call stands.
    pub fn phase(&self) -> (r: Phase)
        ensures
            r == self@.phase,
    {
        self.phase
    }

    /// The number of resources that the guest holds. A call that is not
    /// running holds none.
    pub fn live(&self) -> (n: usize)
        ensures
            n == self@.handles.len(),
            self@.phase != Phase::Running ==> n == 0,
    {
        proof {
            use_type_invariant(self);
        }
        self.handles.len()
    }

    /// Whether the guest holds the resource under `handle`.
    pub fn holds(&self, handle: u32) -> (r: bool)
        ensures
            r == self@.handles.contains(handle),
    {
        let mut i: usize = 0;
        while i < self.handles.len()
            invariant
                i <= self.handles.len(),
                forall|k: int| 0 <= k < i ==> self.handles@[k] != handle,
            decreases self.handles.len() - i,
        {
            if self.handles[i] == handle {
                return true;
            }
            i = i + 1;
        }
        false
    }

    /// Takes an event of the call and says what the host does after it.
    #[verifier::rlimit(40)]
    pub fn step(&mut self, event: CallEvent) -> (r: Verdict)
        ensures
            r == verdict_of(old(self)@, event),
            final(self)@ == after(old(self)@, event),
    {
        proof {
            use_type_invariant(&*self);
            lemma_step_keeps_well_formed(self@, event);
        }
        let ghost before = self@;
        let verdict = match (self.phase, event) {
            (Phase::Fresh, CallEvent::Start(_)) => Verdict::Proceed,
            (Phase::Running, CallEvent::HandOut(h)) => if self.holds(h) {
                Verdict::Trap
            } else {
                Verdict::Proceed
            },
            (Phase::Running, CallEvent::Use(h)) => if self.holds(h) {
                Verdict::Proceed
            } else {
                Verdict::Trap
            },
            (Phase::Running, CallEvent::Drop(h)) => if self.holds(h) {
                Verdict::Proceed
            } else {
                Verdict::Trap
            },
            (Phase::Running, CallEvent::Return { failed }) => Verdict::Finish { failed },
            _ => Verdict::Ignore,
        };
        let mut handles: Vec<u32> = Vec::new();
        std::mem::swap(&mut handles, &mut self.handles);
        let phase = match verdict {
            Verdict::Ignore => self.phase,
            Verdict::Trap => {
                handles = Vec::new();
                Phase::Trapped
            },
            Verdict::Finish { failed } => {
                handles = Vec::new();
                Phase::Finished
            },
            Verdict::Proceed => {
                match event {
                    CallEvent::Start(h) => {
                        handles = Vec::new();
                        handles.push(h);
                    },
                    CallEvent::HandOut(h) => {
                        handles.push(h);
                    },
                    CallEvent::Drop(h) => {
                        handles = Self::without(handles, h);
                    },
                    _ => {},
                }
                Phase::Running
            },
        };
        proof {
            assert(handles@ =~= after(before, event).handles);
            assert(phase == after(before, event).phase);
        }
        *self = Invocation { phase, handles };
        verdict
    }

    /// The handles `handles` without `handle`.
    fn without(handles: Vec<u32>, handle: u32) -> (r: Vec<u32>)
        ensures
            r@ == without_handle(handles@, handle),
    {
        let ghost keep = other_than(handle);
        let mut kept: Vec<u32> = Vec::new();
        let mut i: usize = 0;
        proof {
            assert(handles@.take(0).filter(keep) =~= Seq::<u32>::empty()) by {
                assert(handles@.take(0) =~= Seq::<u32>::empty());
            }
        }
        while i < handles.len()
            invariant
                i <= handles.len(),
                keep == other_than(handle),
                kept@ == handles@.take(i as int).filter(keep),
            decreases handles.len() - i,
        {
            proof {
                assert(handles@.take(i + 1) =~= handles@.take(i as int).push(handles@[i as int]));
                handles@.take(i as int).lemma_filter_push(handles@[i as int], keep);
            }
            if handles[i] != handle {
                kept.push(handles[i]);
            }
            i = i + 1;
        }
        proof {
            assert(handles@.take(handles@.len() as int) =~= handles@);
        }
        kept
    }
}

impl ErrorKind {
    /// The kind of error that a verdict stands for, if it stands for one.
    pub fn of_verdict(verdict: Verdict) -> (r: Option<ErrorKind>)
        ensures
            r == match verdict {
                Verdict::Trap => Some(ErrorKind::ResourceTableMisuse),
                Verdict::Finish { failed: true } => Some(ErrorKind::InternalError),
                _ => None,
            },
    {
        match verdict {
            Verdict::Trap => Some(ErrorKind::ResourceTableMisuse),
            Verdict::Finish { failed: true } => Some(ErrorKind::InternalError),
            _ => None,
        }
    }
}

} // verus!
