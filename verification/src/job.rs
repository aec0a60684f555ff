use vstd::prelude::*;
use crate::commons::{AsyncSleep, BackgroundProcess, Progress, Resumer, UnitOfWork};
use crate::multi_worker_queue::CounterFuture;

verus! {

/// The units of work that this library brings along, as one type, so that
/// one executor can hold any mix of them.
pub enum Job {
    /// A computation without a suspension point: ready at its first poll.
    Immediate,
    Counter(CounterFuture),
    Sleep(AsyncSleep),
    Background(BackgroundProcess),
}

/// What a `Job` yields.
#[derive(Debug, Clone, Copy, PartialEq, Eq, Structural)]
pub enum JobOutput {
    /// The job ran to its end and has no value to give.
    Done,
    /// The count that a counter reached.
    Count(u32),
    /// The value of a finished sleep.
    Slept(bool),
}

impl UnitOfWork for Job {
    type Output = JobOutput;

    open spec fn pollable(&self) -> bool {
        match self {
            Job::Counter(c) => c.pollable(),
            _ => true,
        }
    }

    open spec fn polled(&self, after: Self, resumed: bool, p: Progress<JobOutput>) -> bool {
        match self {
            Job::Immediate => p == Progress::Ready(JobOutput::Done) && !resumed,
            Job::Counter(c) => {
                &&& after matches Job::Counter(d)
                &&& d.count == c.count + 1
                &&& d.count < 3 ==> p is Pending && resumed
                &&& d.count >= 3 ==> p == Progress::Ready(JobOutput::Count(d.count)) && !resumed
            },
            Job::Sleep(s) => {
                &&& after == *self
                &&& (p == Progress::Ready(JobOutput::Slept(true)) && !resumed) || (p is Pending
                    && resumed)
                &&& s.wanted() == 0 ==> p == Progress::Ready(JobOutput::Slept(true))
            },
            Job::Background(_) => after == *self && p is Pending && resumed,
        }
    }

    open spec fn bounded(&self) -> bool {
        match self {
            Job::Immediate => true,
            Job::Counter(c) => c.bounded(),
            _ => false,
        }
    }

    /// Every one of these units asks for its own resumption when it is
    /// pending.
    open spec fn resuming(&self) -> bool {
        true
    }

    open spec fn pendings_left(&self) -> nat {
        match self {
            Job::Counter(c) => c.pendings_left(),
            _ => 0,
        }
    }

    open spec fn outcome(&self) -> JobOutput {
        match self {
            Job::Counter(c) => JobOutput::Count(c.outcome()),
            _ => JobOutput::Done,
        }
    }

    /// Polls the unit inside and wraps what it yields.
    fn poll(&mut self, cx: &mut Resumer) -> (p: Progress<JobOutput>)
        ensures
            *old(self) is Immediate ==> p == Progress::Ready(JobOutput::Done),
            *old(self) is Background ==> p is Pending && final(cx).is_woken(),
            *old(self) is Sleep ==> (p is Pending && final(cx).is_woken()) || p == Progress::Ready(
                JobOutput::Slept(true),
            ),
            *old(self) matches Job::Sleep(s) && s.wanted() == 0 ==> p == Progress::Ready(
                JobOutput::Slept(true),
            ),
    {
        match self {
            Job::Immediate => Progress::Ready(JobOutput::Done),
            Job::Counter(c) => match c.poll(cx) {
                Progress::Ready(n) => Progress::Ready(JobOutput::Count(n)),
                Progress::Pending => Progress::Pending,
            },
            Job::Sleep(s) => match s.poll(cx) {
                Progress::Ready(b) => Progress::Ready(JobOutput::Slept(b)),
                Progress::Pending => Progress::Pending,
            },
            Job::Background(b) => match b.poll(cx) {
                Progress::Ready(_) => Progress::Ready(JobOutput::Done),
                Progress::Pending => Progress::Pending,
            },
        }
    }
}

} // verus!
