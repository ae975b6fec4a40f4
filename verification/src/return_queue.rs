//! A last-in, first-out return queue: producers push values, the single
//! consumer drains everything pushed so far, newest first.
use vstd::prelude::*;

verus! {

/// Values pushed and not yet drained, oldest first.
pub struct ReturnQueue<T> {
    items: Vec<T>,
}

impl<T> View for ReturnQueue<T> {
    type V = Seq<T>;

    /// The pending values in push order.
    closed spec fn view(&self) -> Seq<T> {
        self.items@
    }
}

/// The values taken by one drain, handed out newest first.
pub struct Drain<T> {
    items: Vec<T>,
}

impl<T> View for Drain<T> {
    type V = Seq<T>;

    /// The values still to come, in the order they come out.
    closed spec fn view(&self) -> Seq<T> {
        self.items@.reverse()
    }
}

impl<T> ReturnQueue<T> {
    pub fn new() -> (q: Self)
        ensures
            q@ == Seq::<T>::empty(),
    {
        ReturnQueue { items: Vec::new() }
    }

    /// Pushes a value.
    pub fn push(&mut self, value: T)
        ensures
            final(self)@ == old(self)@.push(value),
    {
        self.items.push(value);
    }

    /// Takes every pending value; they come out newest first and the queue
    /// is left empty.
    pub fn drain(&mut self) -> (d: Drain<T>)
        ensures
            d@ == old(self)@.reverse(),
            final(self)@ == Seq::<T>::empty(),
    {
        let mut items: Vec<T> = Vec::new();
        core::mem::swap(&mut items, &mut self.items);
        Drain { items }
    }

    pub fn is_empty(&self) -> (r: bool)
        ensures
            r == (self@.len() == 0),
    {
        self.items.len() == 0
    }
}

impl<T> Default for ReturnQueue<T> {
    fn default() -> (q: Self)
        ensures
            q@ == Seq::<T>::empty(),
    {
        Self::new()
    }
}

impl<T> Drain<T> {
    /// The next value, newest first.
    pub fn next(&mut self) -> (r: Option<T>)
        ensures
            old(self)@.len() == 0 ==> r is None && final(self)@ == old(self)@,
            old(self)@.len() > 0 ==> r == Some(old(self)@[0]) && final(self)@ == old(self)@.drop_first(),
    {
        let r = self.items.pop();
        proof {
            if old(self).items@.len() > 0 {
                assert(self@ =~= old(self)@.drop_first());
            }
        }
        r
    }

    /// All remaining values, in the order they come out.
    pub fn collect(self) -> (v: Vec<T>)
        ensures
            v@ == self@,
    {
        let mut d = self;
        let ghost all = d@;
        let mut out: Vec<T> = Vec::new();
        while d.items.len() > 0
            invariant
                out@ + d@ == all,
            decreases d.items@.len(),
        {
            let ghost before = d@;
            let x = d.items.pop().unwrap();
            proof {
                assert(d@ =~= before.drop_first());
                assert(x == before[0]);
                assert(out@.push(x) + d@ =~= out@ + before);
            }
            out.push(x);
        }
        proof {
            assert(d@ =~= Seq::<T>::empty());
            assert(out@ + d@ =~= out@);
        }
        out
    }

    /// Number of remaining values.
    pub fn count(self) -> (n: usize)
        ensures
            n == self@.len(),
    {
        self.items.len()
    }
}

} // verus!
