//! A work lane: one queue with its timeline semaphore. Every submission on
//! the lane signals the next value of the timeline.
use vstd::prelude::*;

use crate::domain::Stage;
use crate::executor_plan::{SemaphoreSubmit, TimelineWait};

verus! {

/// A queue, its family and its timeline semaphore, as raw handles, with the
/// last value the lane signalled.
pub struct WorkLane {
    timeline: u64,
    queue: u64,
    family: u32,
    last_signal: u64,
}

/// What one submission waits for and signals. `value` is the timeline value
/// it signals on its lane.
pub struct Submission {
    pub waits: Vec<SemaphoreSubmit>,
    pub signals: Vec<SemaphoreSubmit>,
    pub value: u64,
}

/// Timeline waits as semaphore submissions.
pub open spec fn wait_submits(ws: Seq<TimelineWait>) -> Seq<SemaphoreSubmit> {
    ws.map_values(|w: TimelineWait| SemaphoreSubmit { semaphore: w.0, value: w.1, stage: w.2 })
}

/// The lane's own signal: its timeline at `value`, after all stages.
pub open spec fn timeline_signal(timeline: u64, value: u64) -> SemaphoreSubmit {
    SemaphoreSubmit { semaphore: timeline, value, stage: Stage::All }
}

impl WorkLane {
    pub closed spec fn timeline_spec(&self) -> u64 {
        self.timeline
    }

    pub closed spec fn queue_spec(&self) -> u64 {
        self.queue
    }

    pub closed spec fn family_spec(&self) -> u32 {
        self.family
    }

    pub closed spec fn last_spec(&self) -> u64 {
        self.last_signal
    }

    /// A lane on `queue` of `family` with a fresh timeline at 0.
    pub fn new(timeline: u64, queue: u64, family: u32) -> (l: Self)
        ensures
            l.timeline_spec() == timeline,
            l.queue_spec() == queue,
            l.family_spec() == family,
            l.last_spec() == 0,
    {
        WorkLane { timeline, queue, family, last_signal: 0 }
    }

    pub fn last_signal_value(&self) -> (r: u64)
        ensures
            r == self.last_spec(),
    {
        self.last_signal
    }

    pub fn timeline_handle(&self) -> (r: u64)
        ensures
            r == self.timeline_spec(),
    {
        self.timeline
    }

    pub fn queue_handle(&self) -> (r: u64)
        ensures
            r == self.queue_spec(),
    {
        self.queue
    }

    pub fn family(&self) -> (r: u32)
        ensures
            r == self.family_spec(),
    {
        self.family
    }

    fn next_value(&mut self) -> (v: u64)
        requires
            old(self).last_spec() < u64::MAX,
        ensures
            v == old(self).last_spec() + 1,
            final(self).last_spec() == v,
            final(self).timeline_spec() == old(self).timeline_spec(),
            final(self).queue_spec() == old(self).queue_spec(),
            final(self).family_spec() == old(self).family_spec(),
    {
        self.last_signal = self.last_signal + 1;
        self.last_signal
    }

    /// A submission of recorded commands that waits on `waits` and signals
    /// the lane's next timeline value.
    pub fn submit(&mut self, waits: &Vec<TimelineWait>) -> (s: Submission)
        requires
            old(self).last_spec() < u64::MAX,
        ensures
            s.value == old(self).last_spec() + 1,
            final(self).last_spec() == s.value,
            final(self).timeline_spec() == old(self).timeline_spec(),
            final(self).queue_spec() == old(self).queue_spec(),
            final(self).family_spec() == old(self).family_spec(),
            s.waits@ == wait_submits(waits@),
            s.signals@ == seq![timeline_signal(old(self).timeline_spec(), s.value)],
    {
        let no_binary: Vec<SemaphoreSubmit> = Vec::new();
        self.submit_with_binary(waits, &no_binary, &no_binary)
    }

    /// A submission of recorded commands that waits on the timeline waits and
    /// then the binary waits, and signals the lane's next timeline value and
    /// then the binary signals.
    pub fn submit_with_binary(
        &mut self,
        waits: &Vec<TimelineWait>,
        binary_waits: &Vec<SemaphoreSubmit>,
        binary_signals: &Vec<SemaphoreSubmit>,
    ) -> (s: Submission)
        requires
            old(self).last_spec() < u64::MAX,
        ensures
            s.value == old(self).last_spec() + 1,
            final(self).last_spec() == s.value,
            final(self).timeline_spec() == old(self).timeline_spec(),
            final(self).queue_spec() == old(self).queue_spec(),
            final(self).family_spec() == old(self).family_spec(),
            s.waits@ == wait_submits(waits@) + binary_waits@,
            s.signals@ == seq![timeline_signal(old(self).timeline_spec(), s.value)] + binary_signals@,
    {
        let val = self.next_value();
        let mut wait_submits_v: Vec<SemaphoreSubmit> = Vec::new();
        let mut k: usize = 0;
        while k < waits.len()
            invariant
                k <= waits@.len(),
                wait_submits_v@ == wait_submits(waits@.take(k as int)),
            decreases waits@.len() - k,
        {
            let (sem, value, stage) = waits[k];
            wait_submits_v.push(SemaphoreSubmit { semaphore: sem, value, stage });
            proof {
                assert(wait_submits(waits@.take(k + 1)) =~= wait_submits(waits@.take(k as int)).push(
                    SemaphoreSubmit { semaphore: sem, value, stage },
                ));
            }
            k = k + 1;
        }
        proof {
            assert(waits@.take(waits@.len() as int) =~= waits@);
        }
        let ghost timeline_waits = wait_submits_v@;
        let mut j: usize = 0;
        while j < binary_waits.len()
            invariant
                j <= binary_waits@.len(),
                wait_submits_v@ == timeline_waits + binary_waits@.take(j as int),
            decreases binary_waits@.len() - j,
        {
            let w = binary_waits[j];
            wait_submits_v.push(SemaphoreSubmit { semaphore: w.semaphore, value: w.value, stage: w.stage });
            proof {
                assert(binary_waits@.take(j + 1) =~= binary_waits@.take(j as int).push(w));
                assert(timeline_waits + binary_waits@.take(j + 1) =~= (timeline_waits + binary_waits@.take(
                    j as int,
                )).push(w));
            }
            j = j + 1;
        }
        proof {
            assert(binary_waits@.take(binary_waits@.len() as int) =~= binary_waits@);
        }
        let mut signal_submits: Vec<SemaphoreSubmit> = Vec::new();
        signal_submits.push(SemaphoreSubmit { semaphore: self.timeline, value: val, stage: Stage::All });
        let ghost first = signal_submits@;
        let mut m: usize = 0;
        while m < binary_signals.len()
            invariant
                m <= binary_signals@.len(),
                signal_submits@ == first + binary_signals@.take(m as int),
            decreases binary_signals@.len() - m,
        {
            let s = binary_signals[m];
            signal_submits.push(SemaphoreSubmit { semaphore: s.semaphore, value: s.value, stage: s.stage });
            proof {
                assert(binary_signals@.take(m + 1) =~= binary_signals@.take(m as int).push(s));
                assert(first + binary_signals@.take(m + 1) =~= (first + binary_signals@.take(m as int)).push(s));
            }
            m = m + 1;
        }
        proof {
            assert(binary_signals@.take(binary_signals@.len() as int) =~= binary_signals@);
            assert(first =~= seq![timeline_signal(old(self).timeline_spec(), val)]);
        }
        Submission { waits: wait_submits_v, signals: signal_submits, value: val }
    }

    /// A submission without commands: it waits on the binary waits and
    /// signals the lane's next timeline value and then the binary signals.
    pub fn submit_semaphore_only(
        &mut self,
        binary_waits: &Vec<SemaphoreSubmit>,
        binary_signals: &Vec<SemaphoreSubmit>,
    ) -> (s: Submission)
        requires
            old(self).last_spec() < u64::MAX,
        ensures
            s.value == old(self).last_spec() + 1,
            final(self).last_spec() == s.value,
            final(self).timeline_spec() == old(self).timeline_spec(),
            final(self).queue_spec() == old(self).queue_spec(),
            final(self).family_spec() == old(self).family_spec(),
            s.waits@ == binary_waits@,
            s.signals@ == seq![timeline_signal(old(self).timeline_spec(), s.value)] + binary_signals@,
    {
        let no_waits: Vec<TimelineWait> = Vec::new();
        let s = self.submit_with_binary(&no_waits, binary_waits, binary_signals);
        proof {
            assert(wait_submits(no_waits@) =~= Seq::<SemaphoreSubmit>::empty());
            assert(Seq::<SemaphoreSubmit>::empty() + binary_waits@ =~= binary_waits@);
        }
        s
    }
}

} // verus!
