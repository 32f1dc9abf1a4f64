//! The shared counter: one `u32` that saturates at both ends.
//!
//! Every operation takes the store by `&mut` or `&`, so whoever holds it
//! (a lock, or one task that owns it and serves requests in order) runs
//! the operations one after another; the laws below speak of any such order.

use vstd::prelude::*;

verus! {

/// The value after one increment: `v + 1`, held at `u32::MAX`.
pub open spec fn incremented(v: u32) -> u32 {
    if v == u32::MAX {
        v
    } else {
        (v + 1) as u32
    }
}

/// The value after one decrement: `v - 1`, held at zero.
pub open spec fn decremented(v: u32) -> u32 {
    if v == 0 {
        0
    } else {
        (v - 1) as u32
    }
}

/// A request to the counter.
#[derive(Clone, Copy, Debug, PartialEq, Eq, Structural)]
pub enum CounterOp {
    Read,
    Increment,
    Decrement,
    /// Overwrite with a value received from another node.
    Apply(u32),
}

/// The value after `op` on value `v`.
pub open spec fn after(v: u32, op: CounterOp) -> u32 {
    match op {
        CounterOp::Read => v,
        CounterOp::Increment => incremented(v),
        CounterOp::Decrement => decremented(v),
        CounterOp::Apply(w) => w,
    }
}

/// The value after the requests `ops`, served in order, starting from `v`.
pub open spec fn after_all(v: u32, ops: Seq<CounterOp>) -> u32
    decreases ops.len(),
{
    if ops.len() == 0 {
        v
    } else {
        after(after_all(v, ops.drop_last()), ops.last())
    }
}

/// Number of increments among `ops`.
pub open spec fn count_increments(ops: Seq<CounterOp>) -> nat
    decreases ops.len(),
{
    if ops.len() == 0 {
        0
    } else {
        count_increments(ops.drop_last()) + if ops.last() == CounterOp::Increment {
            1nat
        } else {
            0nat
        }
    }
}

pub struct CounterStore {
    value: u32,
}

impl View for CounterStore {
    type V = u32;

    closed spec fn view(&self) -> u32 {
        self.value
    }
}

impl CounterStore {
    /// A store holding zero, as at node startup.
    pub fn new() -> (r: Self)
        ensures
            r@ == 0,
    {
        CounterStore { value: 0 }
    }

    pub fn read(&self) -> (r: u32)
        ensures
            r == self@,
    {
        self.value
    }

    /// Overwrites the value, whatever it was.
    pub fn apply(&mut self, value: u32)
        ensures
            final(self)@ == value,
    {
        self.value = value;
    }

    /// Adds one, held at `u32::MAX`; returns the new value.
    pub fn increment(&mut self) -> (r: u32)
        ensures
            final(self)@ == incremented(old(self)@),
            r == final(self)@,
    {
        if self.value < u32::MAX {
            self.value = self.value + 1;
        }
        self.value
    }

    /// Subtracts one, held at zero; returns the new value.
    pub fn decrement(&mut self) -> (r: u32)
        ensures
            old(self)@ == 0 ==> final(self)@ == 0,
            final(self)@ == decremented(old(self)@),
            r == final(self)@,
    {
        if self.value > 0 {
            self.value = self.value - 1;
        }
        self.value
    }

    /// Serves one request; returns the value after it.
    pub fn perform(&mut self, op: CounterOp) -> (r: u32)
        ensures
            final(self)@ == after(old(self)@, op),
            r == final(self)@,
    {
        match op {
            CounterOp::Read => self.read(),
            CounterOp::Increment => self.increment(),
            CounterOp::Decrement => self.decrement(),
            CounterOp::Apply(w) => {
                self.apply(w);
                w
            },
        }
    }
}

/// No increment is lost: however increments and reads from many callers
/// are interleaved, serving them adds exactly the number of increments,
/// as long as the sum fits in a `u32`.
pub proof fn lemma_no_lost_increments(start: u32, ops: Seq<CounterOp>)
    requires
        forall|i: int|
            0 <= i < ops.len() ==> #[trigger] ops[i] == CounterOp::Increment || ops[i]
                == CounterOp::Read,
        start + count_increments(ops) <= u32::MAX,
    ensures
        after_all(start, ops) == start + count_increments(ops),
    decreases ops.len(),
{
    if ops.len() > 0 {
        let t = ops.drop_last();
        assert forall|i: int| 0 <= i < t.len() implies #[trigger] t[i] == CounterOp::Increment
            || t[i] == CounterOp::Read by {
            assert(t[i] == ops[i]);
        }
        assert(ops[ops.len() - 1] == CounterOp::Increment || ops[ops.len() - 1] == CounterOp::Read);
        lemma_no_lost_increments(start, t);
    }
}

/// The last completed write wins: after any requests, a remote update
/// leaves exactly its value.
pub proof fn lemma_last_write_wins(start: u32, ops: Seq<CounterOp>, value: u32)
    ensures
        after_all(start, ops.push(CounterOp::Apply(value))) == value,
{
    assert(ops.push(CounterOp::Apply(value)).drop_last() =~= ops);
}

} // verus!
