//! The queues a device hands out for the families that discovery chose:
//! one graphics queue, a present and a compute queue where there are such
//! families, and the transfer queues, which frames take in turn.
use vstd::prelude::*;

use crate::device_select::QueueDiscovery;
use crate::queue_caps::{Compute, Graphics, Present, Queue, QueueHandle, Transfer};

verus! {

/// The queues of a device, one per chosen family.
pub struct QueueLane {
    transfer_q: Vec<Queue<Transfer>>,
    graphics_q: Queue<Graphics>,
    present_q: Option<Queue<Present>>,
    compute_q: Option<Queue<Compute>>,
}

/// A queue as its raw handle and family.
pub open spec fn raw_and_family<C>(q: Queue<C>) -> (u64, u32) {
    (q.raw_spec(), q.family_spec())
}

/// `q` is the queue that `get_raw` gave for family `family`.
pub open spec fn handed_out<C, F: Fn(u32) -> u64>(get_raw: F, family: u32, q: Queue<C>) -> bool {
    q.family_spec() == family && get_raw.ensures((family,), q.raw_spec())
}

impl QueueLane {
    pub closed spec fn graphics_spec(&self) -> Queue<Graphics> {
        self.graphics_q
    }

    pub closed spec fn present_spec(&self) -> Option<Queue<Present>> {
        self.present_q
    }

    pub closed spec fn compute_spec(&self) -> Option<Queue<Compute>> {
        self.compute_q
    }

    pub closed spec fn transfers(&self) -> Seq<Queue<Transfer>> {
        self.transfer_q@
    }

    /// The queues of the families in `discovery`; `get_raw` hands out the
    /// device's first queue of a family.
    pub fn new<F: Fn(u32) -> u64>(discovery: &QueueDiscovery, get_raw: F) -> (r: Self)
        requires
            discovery.graphics is Some,
            forall|i: u32| get_raw.requires((i,)),
        ensures
            handed_out(get_raw, discovery.graphics.unwrap(), r.graphics_spec()),
            match discovery.present {
                Some(p) => r.present_spec() matches Some(q) && handed_out(get_raw, p, q),
                None => r.present_spec() is None,
            },
            match discovery.compute {
                Some(c) => r.compute_spec() matches Some(q) && handed_out(get_raw, c, q),
                None => r.compute_spec() is None,
            },
            r.transfers().len() == discovery.transfer@.len(),
            forall|i: int|
                0 <= i < discovery.transfer@.len() ==> handed_out(get_raw, discovery.transfer@[i], #[trigger] r.transfers()[i]),
    {
        let g = discovery.graphics.unwrap();
        let graphics_q = Queue::new(get_raw(g), g);
        let present_q = match discovery.present {
            Some(p) => Some(Queue::new(get_raw(p), p)),
            None => None,
        };
        let compute_q = match discovery.compute {
            Some(c) => Some(Queue::new(get_raw(c), c)),
            None => None,
        };
        let mut transfer_q: Vec<Queue<Transfer>> = Vec::new();
        let mut k: usize = 0;
        while k < discovery.transfer.len()
            invariant
                k <= discovery.transfer@.len(),
                forall|i: u32| get_raw.requires((i,)),
                transfer_q@.len() == k,
                forall|i: int| 0 <= i < k ==> handed_out(get_raw, discovery.transfer@[i], #[trigger] transfer_q@[i]),
            decreases discovery.transfer@.len() - k,
        {
            let t = discovery.transfer[k];
            transfer_q.push(Queue::new(get_raw(t), t));
            k = k + 1;
        }
        QueueLane { transfer_q, graphics_q, present_q, compute_q }
    }

    pub fn graphics(&self) -> (r: &Queue<Graphics>)
        ensures
            *r == self.graphics_spec(),
    {
        &self.graphics_q
    }

    pub fn present(&self) -> (r: Option<&Queue<Present>>)
        ensures
            match self.present_spec() {
                Some(q) => r matches Some(p) && *p == q,
                None => r is None,
            },
    {
        match &self.present_q {
            Some(q) => Some(q),
            None => None,
        }
    }

    pub fn compute(&self) -> (r: Option<&Queue<Compute>>)
        ensures
            match self.compute_spec() {
                Some(q) => r matches Some(p) && *p == q,
                None => r is None,
            },
    {
        match &self.compute_q {
            Some(q) => Some(q),
            None => None,
        }
    }

    /// The transfer queue for frame `frame_count`: the queues take turns.
    pub fn next_transfer(&self, frame_count: usize) -> (r: &Queue<Transfer>)
        requires
            self.transfers().len() > 0,
        ensures
            *r == self.transfers()[frame_count as int % self.transfers().len() as int],
    {
        &self.transfer_q[frame_count % self.transfer_q.len()]
    }

    /// How many transfer queues there are.
    pub fn transfer_count(&self) -> (r: usize)
        ensures
            r == self.transfers().len(),
    {
        self.transfer_q.len()
    }

    /// Transfer queue `index`, if there is one.
    pub fn transfer(&self, index: usize) -> (r: Option<&Queue<Transfer>>)
        ensures
            index < self.transfers().len() ==> (r matches Some(q) && *q == self.transfers()[index as int]),
            index >= self.transfers().len() ==> r is None,
    {
        if index < self.transfer_q.len() {
            Some(&self.transfer_q[index])
        } else {
            None
        }
    }

    /// The family of the first transfer queue, if there is one.
    pub fn transfer_family(&self) -> (r: Option<u32>)
        ensures
            self.transfers().len() > 0 ==> r == Some(self.transfers()[0].family_spec()),
            self.transfers().len() == 0 ==> r is None,
    {
        if self.transfer_q.len() > 0 {
            Some(self.transfer_q[0].family())
        } else {
            None
        }
    }

    /// All transfer queues, in order.
    pub fn transfer_queues(&self) -> (r: &[Queue<Transfer>])
        ensures
            r@ == self.transfers(),
    {
        self.transfer_q.as_slice()
    }
}


/// Frames a whole turn apart take the same transfer queue: the queue that
/// `next_transfer` gives for frame `f` is the one it gives for frame `f`
/// plus the number of transfer queues.
pub proof fn lemma_transfer_turns_repeat(lane: QueueLane, f: int)
    requires
        lane.transfers().len() > 0,
        f >= 0,
    ensures
        lane.transfers()[(f + lane.transfers().len()) % (lane.transfers().len() as int)] == lane.transfers()[f
            % (lane.transfers().len() as int)],
{
    vstd::arithmetic::div_mod::lemma_mod_add_multiples_vanish(f, lane.transfers().len() as int);
}

} // verus!
