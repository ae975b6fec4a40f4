//! Frames in flight: `N` slots used in turn, each remembering the graphics
//! timeline value that its last frame signalled.
use vstd::prelude::*;

verus! {

/// Raw handle meaning "no semaphore yet".
pub const NULL_SEMAPHORE: u64 = 0u64;

pub struct FrameSync<const N: usize> {
    slot_signal_values: Vec<u64>,
    graphics_timeline: u64,
    frame: u64,
    current: usize,
}

/// The largest value of `s`, 0 when it is empty.
pub open spec fn max_of(s: Seq<u64>) -> u64
    decreases s.len(),
{
    if s.len() == 0 {
        0
    } else {
        let m = max_of(s.drop_last());
        if s.last() > m {
            s.last()
        } else {
            m
        }
    }
}

impl<const N: usize> FrameSync<N> {
    pub closed spec fn slots(&self) -> Seq<u64> {
        self.slot_signal_values@
    }

    pub closed spec fn spec_frame(&self) -> u64 {
        self.frame
    }

    pub closed spec fn spec_current(&self) -> usize {
        self.current
    }

    pub closed spec fn timeline(&self) -> u64 {
        self.graphics_timeline
    }

    /// One value per slot, and the current slot is the frame number modulo `N`.
    pub closed spec fn wf(&self) -> bool {
        &&& N > 0
        &&& self.slot_signal_values@.len() == N
        &&& self.current as int == self.frame as int % N as int
    }

    pub fn new() -> (s: Self)
        requires
            N > 0,
        ensures
            s.wf(),
            s.spec_frame() == 0,
            s.spec_current() == 0,
            s.slots() == Seq::new(N as nat, |i: int| 0u64),
            s.timeline() == NULL_SEMAPHORE,
    {
        let mut v: Vec<u64> = Vec::new();
        while v.len() < N
            invariant
                N > 0,
                v@.len() <= N,
                forall|i: int| 0 <= i < v@.len() ==> v@[i] == 0,
            decreases N - v@.len(),
        {
            v.push(0);
        }
        proof {
            assert(v@ =~= Seq::new(N as nat, |i: int| 0u64));
            assert(v@.len() == N);
            assert(0int % (N as int) == 0) by (nonlinear_arith)
                requires
                    N > 0;
        }
        FrameSync { slot_signal_values: v, graphics_timeline: NULL_SEMAPHORE, frame: 0, current: 0 }
    }

    /// What a full drain waits for: the graphics timeline at the largest
    /// value any slot signalled, when there is such a value and a timeline.
    pub fn drain(&self) -> (r: Option<(u64, u64)>)
        requires
            self.wf(),
        ensures
            r == (if max_of(self.slots()) > 0 && self.timeline() != NULL_SEMAPHORE {
                Some((self.timeline(), max_of(self.slots())))
            } else {
                None
            }),
    {
        let mut m: u64 = 0;
        let mut i: usize = 0;
        while i < self.slot_signal_values.len()
            invariant
                i <= self.slot_signal_values@.len(),
                m == max_of(self.slot_signal_values@.take(i as int)),
            decreases self.slot_signal_values@.len() - i,
        {
            proof {
                assert(self.slot_signal_values@.take(i + 1).drop_last() == self.slot_signal_values@.take(i as int));
            }
            if self.slot_signal_values[i] > m {
                m = self.slot_signal_values[i];
            }
            i = i + 1;
        }
        proof {
            assert(self.slot_signal_values@.take(self.slot_signal_values@.len() as int) == self.slot_signal_values@);
        }
        if m > 0 && self.graphics_timeline != NULL_SEMAPHORE {
            Some((self.graphics_timeline, m))
        } else {
            None
        }
    }

    /// The timeline value the current slot must have reached before it is
    /// reused: its last signal, once every slot has been used.
    pub fn pending_wait(&self) -> (r: Option<u64>)
        requires
            self.wf(),
        ensures
            r == (if self.spec_frame() >= N && self.slots()[self.spec_current() as int] > 0 {
                Some(self.slots()[self.spec_current() as int])
            } else {
                None
            }),
    {
        let last_val = self.slot_signal_values[self.current];
        if self.frame >= N as u64 && last_val > 0 {
            Some(last_val)
        } else {
            None
        }
    }

    /// Whether the current slot can start a frame, given the graphics
    /// timeline's current value.
    pub fn begin_frame(&self, timeline_value: u64) -> (ready: bool)
        requires
            self.wf(),
        ensures
            ready == (self.spec_frame() < N || self.slots()[self.spec_current() as int] == 0
                || timeline_value >= self.slots()[self.spec_current() as int]),
    {
        match self.pending_wait() {
            Some(last_val) => timeline_value >= last_val,
            None => true,
        }
    }

    pub fn set_graphics_timeline(&mut self, handle: u64)
        requires
            old(self).wf(),
        ensures
            final(self).wf(),
            final(self).timeline() == handle,
            final(self).slots() == old(self).slots(),
            final(self).spec_frame() == old(self).spec_frame(),
            final(self).spec_current() == old(self).spec_current(),
    {
        self.graphics_timeline = handle;
    }

    /// Remembers the value that the current slot's frame signals.
    pub fn record_signal(&mut self, signal_val: u64)
        requires
            old(self).wf(),
        ensures
            final(self).wf(),
            final(self).slots() == old(self).slots().update(old(self).spec_current() as int, signal_val),
            final(self).timeline() == old(self).timeline(),
            final(self).spec_frame() == old(self).spec_frame(),
            final(self).spec_current() == old(self).spec_current(),
    {
        let c = self.current;
        self.slot_signal_values.set(c, signal_val);
    }

    /// Moves to the next frame and its slot.
    pub fn end_frame(&mut self)
        requires
            old(self).wf(),
            old(self).spec_frame() < u64::MAX,
        ensures
            final(self).wf(),
            final(self).spec_frame() == old(self).spec_frame() + 1,
            final(self).spec_current() as int == (old(self).spec_frame() + 1) % (N as int),
            final(self).slots() == old(self).slots(),
            final(self).timeline() == old(self).timeline(),
    {
        self.frame = self.frame + 1;
        self.current = (self.frame % (N as u64)) as usize;
    }

    pub fn frame(&self) -> (r: u64)
        ensures
            r == self.spec_frame(),
    {
        self.frame
    }

    pub fn current_slot(&self) -> (r: usize)
        ensures
            r == self.spec_current(),
    {
        self.current
    }
}

} // verus!
