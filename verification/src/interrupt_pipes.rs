//! State of the dedicated interrupt endpoints, which the controller polls on its own.

use vstd::prelude::*;
use crate::bits::{contains16, insert16, lemma_join16, lemma_zero16, range, remove16, set16};
use crate::layout::EP_COUNT;
use crate::regs::{Op, Waker};
use crate::types::HostError;

verus! {

/// Each pipe owns its endpoint outright, so nothing here arbitrates. Every word is a set of
/// endpoint indices.
#[derive(Clone, Copy, PartialEq, Eq, Structural, Debug)]
pub struct InterruptPipeState {
    /// Endpoints with a pipe, from 1 up.
    pub allocated: u16,
    /// Pipes whose cancelled transfer completed before its data toggle was advanced.
    pub toggle_owed: u16,
    /// Interrupt IN endpoints with a receive buffer armed.
    pub armed_in: u16,
    /// Interrupt IN endpoints charged with the global receive timeout.
    pub timed_out: u16,
}

/// The wake-ups for the polled endpoints in `set`, in order, up to index `end`.
pub open spec fn wakes_ep_in(set: Set<int>, end: int) -> Seq<Op>
    decreases end,
{
    if end <= 1 {
        Seq::empty()
    } else if set.contains(end - 1) {
        wakes_ep_in(set, end - 1).push(Op::Wake(Waker::EpIn((end - 1) as usize)))
    } else {
        wakes_ep_in(set, end - 1)
    }
}

impl InterruptPipeState {
    /// Nothing allocated, owed, armed or timed out.
    pub open spec fn is_reset(self) -> bool {
        &&& set16(self.allocated) == Set::<int>::empty()
        &&& set16(self.toggle_owed) == Set::<int>::empty()
        &&& set16(self.armed_in) == Set::<int>::empty()
        &&& set16(self.timed_out) == Set::<int>::empty()
    }

    /// A reset state.
    pub fn new() -> (s: Self)
        ensures
            s.is_reset(),
    {
        proof {
            lemma_zero16(0);
        }
        InterruptPipeState { allocated: 0, toggle_owed: 0, armed_in: 0, timed_out: 0 }
    }

    /// Forget every pipe.
    pub fn reset(&mut self)
        ensures
            final(self).is_reset(),
    {
        proof {
            lemma_zero16(0);
        }
        self.allocated = 0;
        self.toggle_owed = 0;
        self.armed_in = 0;
        self.timed_out = 0;
    }

    /// The endpoint that the next pipe gets: the lowest free one from 1 up.
    pub open spec fn is_next(self, index: int) -> bool {
        &&& 1 <= index < EP_COUNT
        &&& !set16(self.allocated).contains(index)
        &&& forall|i: int| 1 <= i < index ==> #[trigger] set16(self.allocated).contains(i)
    }

    /// Whether every polled endpoint has a pipe.
    pub open spec fn is_full(self) -> bool {
        range(1, EP_COUNT as int).subset_of(set16(self.allocated))
    }

    /// Give the lowest free endpoint to a new pipe.
    pub fn allocate(&mut self) -> (r: Result<usize, HostError>)
        ensures
            r is Err <==> old(self).is_full(),
            r matches Err(e) ==> e == HostError::OutOfPipes && *final(self) == *old(self),
            r matches Ok(index) ==> {
                &&& old(self).is_next(index as int)
                &&& set16(final(self).allocated) == set16(old(self).allocated).insert(index as int)
                &&& *final(self) == (InterruptPipeState {
                    allocated: final(self).allocated,
                    ..*old(self)
                })
            },
    {
        let mut index: usize = 1;
        while index < EP_COUNT
            invariant
                1 <= index <= EP_COUNT,
                *self == *old(self),
                forall|i: int| 1 <= i < index ==> #[trigger] set16(self.allocated).contains(i),
            decreases EP_COUNT - index,
        {
            if !contains16(self.allocated, index) {
                self.allocated = insert16(self.allocated, index);
                assert(range(1, EP_COUNT as int).contains(index as int));
                return Ok(index);
            }
            index = index + 1;
        }
        Err(HostError::OutOfPipes)
    }

    /// Take the endpoint back and drop everything recorded for it.
    pub fn free(&mut self, index: usize)
        requires
            index < EP_COUNT,
        ensures
            set16(final(self).allocated) == set16(old(self).allocated).remove(index as int),
            set16(final(self).toggle_owed) == set16(old(self).toggle_owed).remove(index as int),
            set16(final(self).armed_in) == set16(old(self).armed_in).remove(index as int),
            set16(final(self).timed_out) == set16(old(self).timed_out).remove(index as int),
    {
        self.allocated = remove16(self.allocated, index);
        self.toggle_owed = remove16(self.toggle_owed, index);
        self.armed_in = remove16(self.armed_in, index);
        self.timed_out = remove16(self.timed_out, index);
    }

    /// Note that a receive buffer was handed to the controller.
    pub fn mark_armed_in(&mut self, index: usize)
        requires
            index < EP_COUNT,
        ensures
            set16(final(self).armed_in) == set16(old(self).armed_in).insert(index as int),
            *final(self) == (InterruptPipeState { armed_in: final(self).armed_in, ..*old(self) }),
    {
        self.armed_in = insert16(self.armed_in, index);
    }

    /// Note that the controller gave the buffer back.
    pub fn mark_completed(&mut self, index: usize)
        requires
            index < EP_COUNT,
        ensures
            set16(final(self).armed_in) == set16(old(self).armed_in).remove(index as int),
            *final(self) == (InterruptPipeState { armed_in: final(self).armed_in, ..*old(self) }),
    {
        self.armed_in = remove16(self.armed_in, index);
    }

    /// Charge a global receive timeout to every interrupt IN endpoint that was armed, and wake
    /// them. The hardware does not identify which endpoint caused it.
    pub fn record_timeout(&mut self) -> (ops: Vec<Op>)
        ensures
            set16(final(self).timed_out) == set16(old(self).timed_out).union(
                set16(old(self).armed_in),
            ),
            set16(final(self).armed_in) == Set::<int>::empty(),
            *final(self) == (InterruptPipeState {
                timed_out: final(self).timed_out,
                armed_in: final(self).armed_in,
                ..*old(self)
            }),
            ops@ == wakes_ep_in(set16(old(self).armed_in), EP_COUNT as int),
    {
        let candidates: u16 = self.armed_in;
        proof {
            lemma_join16(self.timed_out, candidates);
            lemma_zero16(0);
        }
        self.timed_out = self.timed_out | candidates;
        self.armed_in = 0;
        let mut ops: Vec<Op> = Vec::new();
        let mut index: usize = 1;
        while index < EP_COUNT
            invariant
                1 <= index <= EP_COUNT,
                ops@ == wakes_ep_in(set16(candidates), index as int),
            decreases EP_COUNT - index,
        {
            if contains16(candidates, index) {
                ops.push(Op::Wake(Waker::EpIn(index)));
            }
            index = index + 1;
        }
        ops
    }

    /// Consume a timeout charged to the endpoint.
    pub fn take_timeout(&mut self, index: usize) -> (was: bool)
        requires
            index < EP_COUNT,
        ensures
            was == set16(old(self).timed_out).contains(index as int),
            set16(final(self).timed_out) == set16(old(self).timed_out).remove(index as int),
            *final(self) == (InterruptPipeState { timed_out: final(self).timed_out, ..*old(self) }),
    {
        let was: bool = contains16(self.timed_out, index);
        self.timed_out = remove16(self.timed_out, index);
        was
    }

    /// Note that a cancelled transfer moved its packet.
    pub fn mark_toggle_owed(&mut self, index: usize)
        requires
            index < EP_COUNT,
        ensures
            set16(final(self).toggle_owed) == set16(old(self).toggle_owed).insert(index as int),
            *final(self) == (InterruptPipeState {
                toggle_owed: final(self).toggle_owed,
                ..*old(self)
            }),
    {
        self.toggle_owed = insert16(self.toggle_owed, index);
    }

    /// Consume a toggle that a cancelled transfer left to its successor.
    pub fn take_toggle_owed(&mut self, index: usize) -> (was: bool)
        requires
            index < EP_COUNT,
        ensures
            was == set16(old(self).toggle_owed).contains(index as int),
            set16(final(self).toggle_owed) == set16(old(self).toggle_owed).remove(index as int),
            *final(self) == (InterruptPipeState {
                toggle_owed: final(self).toggle_owed,
                ..*old(self)
            }),
    {
        let was: bool = contains16(self.toggle_owed, index);
        self.toggle_owed = remove16(self.toggle_owed, index);
        was
    }

    /// Forget a toggle that a cancelled transfer left to its successor.
    pub fn clear_toggle_owed(&mut self, index: usize)
        requires
            index < EP_COUNT,
        ensures
            set16(final(self).toggle_owed) == set16(old(self).toggle_owed).remove(index as int),
            *final(self) == (InterruptPipeState {
                toggle_owed: final(self).toggle_owed,
                ..*old(self)
            }),
    {
        self.toggle_owed = remove16(self.toggle_owed, index);
    }
}

} // verus!
