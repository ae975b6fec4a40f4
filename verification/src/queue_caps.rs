//! Queue capability markers: zero-sized types that gate at compile time
//! which commands a pass builder offers, and queues typed by them.
use vstd::prelude::*;

use std::marker::PhantomData;

verus! {

/// A queue that can run graphics work.
pub struct Graphics;

/// A queue that can present to a surface.
pub struct Present;

/// A queue that can run compute work.
pub struct Compute;

/// A queue that can run transfers.
pub struct Transfer;

/// Access to the raw queue behind a capability-typed queue.
pub trait QueueHandle {
    type Handle: Copy;

    spec fn raw_spec(&self) -> Self::Handle;

    spec fn family_spec(&self) -> u32;

    fn raw(&self) -> (r: Self::Handle)
        ensures
            r == self.raw_spec(),
    ;

    fn family(&self) -> (r: u32)
        ensures
            r == self.family_spec(),
    ;
}

/// The queue can run graphics work.
pub trait SupportsGraphics: QueueHandle {}

/// The queue can present to a surface.
pub trait SupportsPresent: QueueHandle {}

/// The queue can run compute work.
pub trait SupportsCompute: QueueHandle {}

/// The queue can run transfers.
pub trait SupportsTransfer: QueueHandle {}

/// A raw queue of queue family `family` with the capabilities `C`.
pub struct Queue<C> {
    queue: u64,
    family: u32,
    _cap: PhantomData<C>,
}

impl<C> Queue<C> {
    /// The queue the device handed out as `queue` for family `family`.
    pub(crate) fn new(queue: u64, family: u32) -> (r: Self)
        ensures
            r.raw_spec() == queue,
            r.family_spec() == family,
    {
        Queue { queue, family, _cap: PhantomData }
    }
}

impl<C> QueueHandle for Queue<C> {
    type Handle = u64;

    closed spec fn raw_spec(&self) -> u64 {
        self.queue
    }

    closed spec fn family_spec(&self) -> u32 {
        self.family
    }

    fn raw(&self) -> (r: u64) {
        self.queue
    }

    fn family(&self) -> (r: u32) {
        self.family
    }
}

impl SupportsGraphics for Queue<Graphics> {}

impl SupportsPresent for Queue<Present> {}

impl SupportsCompute for Queue<Compute> {}

impl SupportsTransfer for Queue<Transfer> {}

impl SupportsGraphics for Queue<(Graphics, Present)> {}

impl SupportsPresent for Queue<(Graphics, Present)> {}

impl SupportsGraphics for Queue<(Graphics, Compute)> {}

impl SupportsCompute for Queue<(Graphics, Compute)> {}

impl SupportsCompute for Queue<(Compute, Transfer)> {}

impl SupportsTransfer for Queue<(Compute, Transfer)> {}

impl SupportsTransfer for Queue<(Transfer, Present)> {}

impl SupportsPresent for Queue<(Transfer, Present)> {}

impl SupportsGraphics for Queue<(Graphics, Compute, Present)> {}

impl SupportsCompute for Queue<(Graphics, Compute, Present)> {}

impl SupportsPresent for Queue<(Graphics, Compute, Present)> {}

impl SupportsGraphics for Queue<(Graphics, Compute, Transfer)> {}

impl SupportsCompute for Queue<(Graphics, Compute, Transfer)> {}

impl SupportsTransfer for Queue<(Graphics, Compute, Transfer)> {}

impl SupportsGraphics for Queue<(Graphics, Compute, Transfer, Present)> {}

impl SupportsCompute for Queue<(Graphics, Compute, Transfer, Present)> {}

impl SupportsTransfer for Queue<(Graphics, Compute, Transfer, Present)> {}

impl SupportsPresent for Queue<(Graphics, Compute, Transfer, Present)> {}

} // verus!
