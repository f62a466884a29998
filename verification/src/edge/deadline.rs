//! Deadlines for writes that make no progress.
use vstd::prelude::*;

use crate::time::Duration;

verus! {

/// How a write goes on.
#[derive(Debug, Clone, Copy)]
pub enum WriteStep {
    /// Offer the bytes to the transport.
    Write,
    /// Ask the running deadline first.
    AskDeadline,
    /// Start a deadline, and ask it.
    StartDeadline(Duration),
    /// Wait for the transport.
    Wait,
    /// The write timed out.
    TimedOut,
}

/// When a write that makes no progress fails.
#[derive(Debug)]
pub struct WriteDeadline {
    write_timeout: Option<Duration>,
    running: bool,
}

/// Whether asking a deadline leads to `step`, and leaves `after`; `onwards` is how
/// the write goes on while there is time.
pub open spec fn asked(
    before: WriteDeadline,
    elapsed: bool,
    step: WriteStep,
    after: WriteDeadline,
    onwards: WriteStep,
) -> bool {
    &&& after.wf()
    &&& after.timeout() == before.timeout()
    &&& after.is_running() == (before.is_running() && !elapsed)
    &&& step == if elapsed {
        WriteStep::TimedOut
    } else {
        onwards
    }
}

/// Whether a write that stalls goes on with `step`, and leaves `after`.
pub open spec fn stalls(before: WriteDeadline, step: WriteStep, after: WriteDeadline) -> bool {
    &&& after.wf()
    &&& after.timeout() == before.timeout()
    &&& match before.timeout() {
        None => step == WriteStep::Wait && !after.is_running(),
        Some(timeout) => after.is_running() && step == if before.is_running() {
            WriteStep::AskDeadline
        } else {
            WriteStep::StartDeadline(timeout)
        },
    }
}

impl WriteDeadline {
    pub closed spec fn timeout(&self) -> Option<Duration> {
        self.write_timeout
    }

    /// Whether a deadline is running.
    pub closed spec fn is_running(&self) -> bool {
        self.running
    }

    /// A deadline runs only where there is a timeout.
    pub open spec fn wf(&self) -> bool {
        self.is_running() ==> self.timeout() is Some
    }

    pub fn new(write_timeout: Option<Duration>) -> (deadline: Self)
        ensures
            deadline.wf(),
            deadline.timeout() == write_timeout,
            !deadline.is_running(),
    {
        Self { write_timeout, running: false }
    }

    /// How a write begins: a running deadline is asked before the transport is.
    pub fn begin_write(&self) -> (step: WriteStep)
        ensures
            step == (if self.is_running() {
                WriteStep::AskDeadline
            } else {
                WriteStep::Write
            }),
    {
        if self.running {
            WriteStep::AskDeadline
        } else {
            WriteStep::Write
        }
    }

    /// After a running deadline was asked, before the transport was.
    pub fn on_deadline(&mut self, elapsed: bool) -> (step: WriteStep)
        requires
            old(self).wf(),
        ensures
            asked(*old(self), elapsed, step, *final(self), WriteStep::Write),
    {
        if elapsed {
            self.running = false;
            return WriteStep::TimedOut;
        }
        WriteStep::Write
    }

    /// After the transport took bytes or failed: the deadline is off.
    pub fn on_progress(&mut self)
        ensures
            final(self).wf(),
            final(self).timeout() == old(self).timeout(),
            !final(self).is_running(),
    {
        self.running = false;
    }

    /// After the transport took nothing: a deadline is started if none is
    /// running, where there is a timeout.
    pub fn on_pending(&mut self) -> (step: WriteStep)
        requires
            old(self).wf(),
        ensures
            stalls(*old(self), step, *final(self)),
    {
        match self.write_timeout {
            None => WriteStep::Wait,
            Some(timeout) => {
                if self.running {
                    return WriteStep::AskDeadline;
                }
                self.running = true;
                WriteStep::StartDeadline(timeout)
            },
        }
    }

    /// After a deadline was asked while the transport took nothing.
    pub fn on_pending_deadline(&mut self, elapsed: bool) -> (step: WriteStep)
        requires
            old(self).wf(),
        ensures
            asked(*old(self), elapsed, step, *final(self), WriteStep::Wait),
    {
        if elapsed {
            self.running = false;
            return WriteStep::TimedOut;
        }
        WriteStep::Wait
    }
}

/// A new deadline does not run. The first stall starts it with the whole timeout,
/// a later one asks the one that runs, and without a timeout a write just waits.
pub proof fn law_stalls_start_one_deadline(
    timeout: Option<Duration>,
    fresh: WriteDeadline,
    before: WriteDeadline,
    step: WriteStep,
    after: WriteDeadline,
)
    requires
        call_ensures(WriteDeadline::new, (timeout,), fresh),
        stalls(before, step, after),
        before.wf(),
    ensures
        !fresh.is_running(),
        fresh.timeout() == timeout,
        before.timeout() is None ==> step is Wait && !after.is_running(),
        before.timeout() matches Some(span) ==> {
            &&& after.is_running()
            &&& before.is_running() ==> step is AskDeadline
            &&& !before.is_running() ==> step == WriteStep::StartDeadline(span)
        },
        after.timeout() == before.timeout(),
{
}

/// A write times out exactly when its deadline has elapsed, and the deadline is off
/// then; until that it goes on and the deadline keeps running. A running deadline
/// is asked before anything is written.
pub proof fn law_writes_time_out_with_their_deadline(
    before: WriteDeadline,
    elapsed: bool,
    step: WriteStep,
    after: WriteDeadline,
    onwards: WriteStep,
    first: WriteStep,
)
    requires
        asked(before, elapsed, step, after, onwards),
        call_ensures(WriteDeadline::begin_write, (&before,), first),
        !(onwards is TimedOut),
    ensures
        step is TimedOut <==> elapsed,
        elapsed ==> !after.is_running(),
        !elapsed ==> step == onwards && after.is_running() == before.is_running(),
        before.is_running() ==> first is AskDeadline,
        !before.is_running() ==> first is Write,
        after.timeout() == before.timeout(),
{
}

} // verus!
