//! Coalescing low-value peer metadata writes into delayed flushes.

use crate::model::Timestamp;
use crate::timestamps::{timestamp_before, timestamp_less};
use vstd::prelude::*;

verus! {

/// DEFAULT_LOW_VALUE_PEER_METADATA_FLUSH_DELAY is the default delay before
/// low-value peer metadata writes are flushed to disk, in seconds.
pub const DEFAULT_LOW_VALUE_PEER_METADATA_FLUSH_DELAY: u64 = 60;

/// TIMER_LABEL_PEER_METADATA_FLUSH_DELAY names the delayed low-value peer
/// metadata flush timer.
pub const TIMER_LABEL_PEER_METADATA_FLUSH_DELAY: &'static str = "peer-metadata.flush-delay";

/// PendingPeerMetadataFlush tracks the currently scheduled delayed sidecar
/// flush for low-value peer metadata.
#[derive(Debug)]
pub struct PendingPeerMetadataFlush {
    dirty: bool,
    deadline: Option<Timestamp>,
    task_spawned: bool,
    shutdown: bool,
}

/// PendingView is the mathematical content of a `PendingPeerMetadataFlush`.
pub struct PendingView {
    /// deadline is when unflushed changes are due, if there are any.
    pub deadline: Option<Timestamp>,
    /// task_spawned reports whether the background flusher task already exists.
    pub task_spawned: bool,
    /// shutdown reports whether the background task is to exit.
    pub shutdown: bool,
}

impl View for PendingPeerMetadataFlush {
    type V = PendingView;

    closed spec fn view(&self) -> PendingView {
        PendingView {
            deadline: self.deadline,
            task_spawned: self.task_spawned,
            shutdown: self.shutdown,
        }
    }
}

/// FlushStep is what the background flusher does next.
#[derive(Clone, Copy, Debug, PartialEq, Eq, Structural)]
pub enum FlushStep {
    /// Exit ends the background task.
    Exit,
    /// WaitForSchedule waits until something is scheduled.
    WaitForSchedule,
    /// WaitUntil waits for the deadline or for a change of the schedule.
    WaitUntil(Timestamp),
    /// Flush flushes what is due.
    Flush,
}

/// Whether unflushed changes are due at `now`.
pub open spec fn flush_is_due(pending: PendingView, now: Timestamp) -> bool {
    &&& !pending.shutdown
    &&& pending.deadline matches Some(deadline)
    &&& !timestamp_before(now, deadline)
}

/// Whether scheduling a flush leads from `pending` to `after`, and `spawn` tells
/// whether the background task is to be started.
pub open spec fn schedules(
    pending: PendingView,
    deadline: Timestamp,
    runtime_available: bool,
    spawn: bool,
    after: PendingView,
) -> bool {
    &&& spawn == (!pending.task_spawned && runtime_available)
    &&& after == (PendingView {
        deadline: Some(deadline),
        task_spawned: pending.task_spawned || runtime_available,
        shutdown: pending.shutdown,
    })
}

/// Whether taking what is due leads from `pending` to `after`, and `flush` tells
/// whether anything is.
pub open spec fn takes_due(
    pending: PendingView,
    now: Timestamp,
    flush: bool,
    after: PendingView,
) -> bool {
    &&& flush == flush_is_due(pending, now)
    &&& after == if flush {
        PendingView { deadline: None, ..pending }
    } else {
        pending
    }
}

/// Whether taking everything leads from `pending` to `after`, and `flush` tells
/// whether there was anything.
pub open spec fn takes_all(pending: PendingView, flush: bool, after: PendingView) -> bool {
    &&& flush == (pending.deadline is Some)
    &&& after == (PendingView { deadline: None, ..pending })
}

/// Whether a flush that failed leads from `pending` to `after`.
pub open spec fn puts_back(pending: PendingView, retry_at: Timestamp, after: PendingView) -> bool {
    after == if pending.shutdown {
        pending
    } else {
        PendingView { deadline: Some(retry_at), ..pending }
    }
}

/// Whether the request to exit leads from `pending` to `after`, and `flush` tells
/// whether anything remains to be flushed.
pub open spec fn shuts_down(pending: PendingView, flush: bool, after: PendingView) -> bool {
    &&& flush == (pending.deadline is Some)
    &&& after == (PendingView { deadline: None, shutdown: true, ..pending })
}

impl PendingPeerMetadataFlush {
    /// There are unflushed changes exactly when a deadline is set.
    pub closed spec fn wf(&self) -> bool {
        self.dirty == (self.deadline is Some)
    }

    /// Build the state in which nothing is scheduled.
    pub fn new() -> (pending: Self)
        ensures
            pending.wf(),
            pending@ == (PendingView { deadline: None, task_spawned: false, shutdown: false }),
    {
        PendingPeerMetadataFlush {
            dirty: false,
            deadline: None,
            task_spawned: false,
            shutdown: false,
        }
    }

    /// Schedule one delayed flush for `deadline`, and tell whether the
    /// background task is to be started, which needs a runtime.
    pub fn schedule_flush(&mut self, deadline: Timestamp, runtime_available: bool) -> (spawn: bool)
        requires
            old(self).wf(),
        ensures
            final(self).wf(),
            schedules(old(self)@, deadline, runtime_available, spawn, final(self)@),
    {
        self.dirty = true;
        self.deadline = Some(deadline);
        if !self.task_spawned && runtime_available {
            self.task_spawned = true;
            return true;
        }
        false
    }

    /// Tell what the background flusher does next.
    pub fn run(&self, now: Timestamp) -> (step: FlushStep)
        requires
            self.wf(),
        ensures
            step == if self@.shutdown {
                FlushStep::Exit
            } else {
                match self@.deadline {
                    None => FlushStep::WaitForSchedule,
                    Some(deadline) => if timestamp_before(now, deadline) {
                        FlushStep::WaitUntil(deadline)
                    } else {
                        FlushStep::Flush
                    },
                }
            },
    {
        if self.shutdown {
            return FlushStep::Exit;
        }
        match self.deadline {
            None => FlushStep::WaitForSchedule,
            Some(deadline) => if timestamp_less(now, deadline) {
                FlushStep::WaitUntil(deadline)
            } else {
                FlushStep::Flush
            },
        }
    }

    /// Take what is due at `now`, and tell whether it is to be flushed.
    pub fn flush_due(&mut self, now: Timestamp) -> (flush: bool)
        requires
            old(self).wf(),
        ensures
            final(self).wf(),
            takes_due(old(self)@, now, flush, final(self)@),
    {
        if self.shutdown || !self.dirty {
            return false;
        }
        match self.deadline {
            None => false,
            Some(deadline) => {
                if timestamp_less(now, deadline) {
                    return false;
                }
                self.dirty = false;
                self.deadline = None;
                true
            },
        }
    }

    /// Take everything that is pending, and tell whether there was anything.
    pub fn flush_now(&mut self) -> (flush: bool)
        requires
            old(self).wf(),
        ensures
            final(self).wf(),
            takes_all(old(self)@, flush, final(self)@),
    {
        if !self.dirty {
            return false;
        }
        self.dirty = false;
        self.deadline = None;
        true
    }

    /// Put back what could not be flushed, to be tried again at `retry_at`.
    pub fn flush_failed(&mut self, retry_at: Timestamp)
        requires
            old(self).wf(),
        ensures
            final(self).wf(),
            puts_back(old(self)@, retry_at, final(self)@),
    {
        if !self.shutdown {
            self.dirty = true;
            self.deadline = Some(retry_at);
        }
    }

    /// Request background exit, and tell whether anything remains to be flushed.
    pub fn shutdown_and_flush(&mut self) -> (flush: bool)
        requires
            old(self).wf(),
        ensures
            final(self).wf(),
            shuts_down(old(self)@, flush, final(self)@),
    {
        self.shutdown = true;
        let flush = self.dirty;
        self.dirty = false;
        self.deadline = None;
        flush
    }
}

/// A change that is scheduled is flushed at its deadline and not before,
/// unless a shutdown flushes it first.
pub proof fn law_scheduled_change_is_flushed_at_deadline(
    pending: PendingView,
    deadline: Timestamp,
    now: Timestamp,
)
    requires
        !pending.shutdown,
    ensures
        flush_is_due(PendingView { deadline: Some(deadline), ..pending }, now)
            <==> !timestamp_before(now, deadline),
{
}

/// Nothing is due once shutdown has been requested.
pub proof fn law_nothing_is_due_after_shutdown(pending: PendingView, now: Timestamp)
    requires
        pending.shutdown,
    ensures
        !flush_is_due(pending, now),
{
}

/// The flusher ends once shutdown is requested, waits while nothing is pending
/// or the deadline lies ahead, and flushes from the deadline on.
pub proof fn law_flusher_waits_for_the_deadline(
    pending: &PendingPeerMetadataFlush,
    now: Timestamp,
    step: FlushStep,
)
    requires
        call_ensures(PendingPeerMetadataFlush::run, (pending, now), step),
    ensures
        step == FlushStep::Exit <==> pending@.shutdown,
        step == FlushStep::WaitForSchedule <==> !pending@.shutdown && pending@.deadline is None,
        step == FlushStep::Flush <==> !pending@.shutdown && (pending@.deadline matches Some(at)
            && (at.secs < now.secs || at.secs == now.secs && at.nanos <= now.nanos)),
        step == FlushStep::Flush ==> flush_is_due(pending@, now),
        flush_is_due(pending@, now) ==> step == FlushStep::Flush,
        step matches FlushStep::WaitUntil(at) ==> pending@.deadline == Some(at) && (now.secs
            < at.secs || now.secs == at.secs && now.nanos < at.nanos),
        DEFAULT_LOW_VALUE_PEER_METADATA_FLUSH_DELAY == 60,
{
}

/// A scheduled change is taken once, from its deadline on; before that it stays,
/// and the last deadline given counts.
pub proof fn law_scheduled_change_is_taken_once(
    pending: PendingView,
    first: Timestamp,
    last: Timestamp,
    runtime: bool,
    spawn: bool,
    between: PendingView,
    spawn_again: bool,
    scheduled: PendingView,
    now: Timestamp,
    flush: bool,
    after: PendingView,
    later: Timestamp,
    again: bool,
    end: PendingView,
)
    requires
        schedules(pending, first, runtime, spawn, between),
        schedules(between, last, runtime, spawn_again, scheduled),
        takes_due(scheduled, now, flush, after),
        takes_due(after, later, again, end),
        !pending.shutdown,
    ensures
        flush <==> last.secs < now.secs || last.secs == now.secs && last.nanos <= now.nanos,
        flush ==> !again,
        !flush ==> (again <==> last.secs < later.secs || last.secs == later.secs && last.nanos
            <= later.nanos),
        spawn ==> runtime && !pending.task_spawned && !spawn_again,
        !spawn && runtime ==> pending.task_spawned,
{
}

/// What could not be flushed is tried again at the given time, unless the node
/// is shutting down: then what is left is told once, and nothing is due any more.
pub proof fn law_failed_flush_is_tried_again(
    pending: PendingView,
    all: bool,
    emptied: PendingView,
    retry_at: Timestamp,
    back: PendingView,
    now: Timestamp,
    flush: bool,
    after: PendingView,
    left: bool,
    ended: PendingView,
    late: PendingView,
    later: Timestamp,
    again: bool,
    end: PendingView,
)
    requires
        takes_all(pending, all, emptied),
        puts_back(emptied, retry_at, back),
        takes_due(back, now, flush, after),
        shuts_down(back, left, ended),
        puts_back(ended, retry_at, late),
        takes_due(late, later, again, end),
    ensures
        all <==> pending.deadline is Some,
        emptied.deadline is None,
        !pending.shutdown ==> {
            &&& flush <==> retry_at.secs < now.secs || retry_at.secs == now.secs && retry_at.nanos
                <= now.nanos
            &&& left
        },
        pending.shutdown ==> !flush,
        !again,
        late == ended,
        back.task_spawned == pending.task_spawned,
{
}

} // verus!
