//! Arbitration and buffers for the shared non-interrupt endpoint.
//!
//! The controller gives non-interrupt transfers one shared endpoint, so every control, bulk and
//! isochronous pipe queues for it.

use vstd::prelude::*;
use crate::arbiter::{error_field, is_turn, EpxArbiter, EpxError};
use crate::bits::{
    contains16, insert16, lemma_join64, lemma_run64, lemma_zero16, lemma_zero64, range, remove16,
    set16, set64,
};
use crate::layout::{
    EPX_BLOCK_SIZE, EPX_BUFFER_OFFSET, EPX_MAX_PIPES, EPX_NUM_BLOCKS, EP_COUNT, EP_MEMORY_SIZE,
};
use crate::regs::{
    flag, has_flag, Op, Reg, Waker, BUF_AVAILABLE, BUF_FULL, INT_EPX_STOPPED_ON_NAK, INT_HOST_SOF,
    NAK_STOP_EPX_ON_NAK, SIE_SEND_DATA,
};
use crate::types::{Chip, HostError};

verus! {

/// NAK retry interval, stretched so a NAKing transfer cannot retry within the frame. In both
/// speed fields of NAK_POLL.
pub const NAK_POLL_YIELD: u32 = 0x012c_012c;

/// NAK retry interval outside a yield, in both speed fields of NAK_POLL.
pub const NAK_POLL_NORMAL: u32 = 0x0010_0010;

/// Number of blocks that hold `len` bytes.
pub open spec fn blocks_of(len: int) -> int {
    (len + EPX_BLOCK_SIZE - 1) / EPX_BLOCK_SIZE as int
}

/// Number of [`EPX_BLOCK_SIZE`] blocks needed to hold `len` bytes.
pub fn blocks_for(len: u16) -> (blocks: usize)
    ensures
        blocks == blocks_of(len as int),
        blocks <= 1024,
{
    (len as usize + (EPX_BLOCK_SIZE - 1)) / EPX_BLOCK_SIZE
}

/// Block map of a run of `blocks` blocks starting at `start`.
pub fn block_mask(start: usize, blocks: usize) -> (mask: u64)
    requires
        blocks < 64,
        start + blocks <= 64,
        start < 64,
    ensures
        set64(mask) == range(start as int, start + blocks),
{
    proof {
        lemma_run64(start as u64, blocks as u64);
    }
    ((1u64 << blocks) - 1) << start
}

/// Whether a run of blocks lies in the EPX area and is free.
pub open spec fn fits(used: Set<int>, start: int, blocks: int) -> bool {
    &&& 0 <= start
    &&& start + blocks <= EPX_NUM_BLOCKS
    &&& used.disjoint(range(start, start + blocks))
}

/// Whether `start` is the lowest block from which a run fits.
pub open spec fn is_first_fit(used: Set<int>, start: int, blocks: int) -> bool {
    &&& fits(used, start, blocks)
    &&& forall|s: int| #[trigger] fits(used, s, blocks) ==> start <= s
}

/// Whether a buffer of `len` bytes can be had.
pub open spec fn can_hold(used: Set<int>, len: int) -> bool {
    len > 0 && exists|s: int| #[trigger] fits(used, s, blocks_of(len))
}

/// RAM address of an EPX block.
pub open spec fn block_addr(start: int) -> int {
    EPX_BUFFER_OFFSET + start * EPX_BLOCK_SIZE
}

/// The wake-ups for the EPX slots in `set`, in order, up to slot `end`.
pub open spec fn wakes_epx(set: Set<int>, end: int) -> Seq<Op>
    decreases end,
{
    if end <= 0 {
        Seq::empty()
    } else if set.contains(end - 1) {
        wakes_epx(set, end - 1).push(Op::Wake(Waker::Epx((end - 1) as usize)))
    } else {
        wakes_epx(set, end - 1)
    }
}

/// Whether a stopped transfer had moved its packet. `full` is set by the processor when arming
/// an OUT and by the controller on a received IN, so what counts depends on the direction.
pub open spec fn spec_packet_moved(buffer: u32, is_out: bool) -> bool {
    !flag(buffer, BUF_AVAILABLE) && flag(buffer, BUF_FULL) == !is_out
}

/// Whether a stopped transfer had moved its packet, from its buffer control word.
pub fn packet_moved(buffer: u32, is_out: bool) -> (moved: bool)
    ensures
        moved == spec_packet_moved(buffer, is_out),
{
    !has_flag(buffer, BUF_AVAILABLE) && if is_out {
        !has_flag(buffer, BUF_FULL)
    } else {
        has_flag(buffer, BUF_FULL)
    }
}

/// The steps that ask the controller to stop the EPX transaction at its next safe boundary.
pub open spec fn arm_yield_ops(chip: Chip) -> Seq<Op> {
    match chip {
        Chip::Rp235x => seq![
            Op::Modify(Reg::NakPoll, 0, NAK_STOP_EPX_ON_NAK),
            Op::Modify(Reg::Inte, 0, INT_EPX_STOPPED_ON_NAK),
        ],
        Chip::Rp2040 => seq![
            Op::Write(Reg::NakPoll, NAK_POLL_YIELD),
            Op::Modify(Reg::Inte, 0, INT_HOST_SOF),
        ],
    }
}

/// The steps that take that request back.
pub open spec fn disarm_yield_ops(chip: Chip) -> Seq<Op> {
    match chip {
        Chip::Rp235x => seq![
            Op::Modify(Reg::NakPoll, NAK_STOP_EPX_ON_NAK, 0),
            Op::Modify(Reg::Inte, INT_EPX_STOPPED_ON_NAK, 0),
        ],
        Chip::Rp2040 => seq![
            Op::Modify(Reg::Inte, INT_HOST_SOF, 0),
            Op::Write(Reg::NakPoll, NAK_POLL_NORMAL),
        ],
    }
}

/// Stop the in-flight EPX transaction at its next safe boundary so a queued pipe can take the
/// endpoint. Armed only while contended, or an idle bulk IN would trip it on every NAK.
pub fn arm_epx_yield(chip: Chip) -> (ops: Vec<Op>)
    ensures
        ops@ == arm_yield_ops(chip),
{
    match chip {
        // RP235x stops EPX at its next NAK and raises an interrupt.
        Chip::Rp235x => vec![
            Op::Modify(Reg::NakPoll, 0, NAK_STOP_EPX_ON_NAK),
            Op::Modify(Reg::Inte, 0, INT_EPX_STOPPED_ON_NAK),
        ],
        // RP2040 has no stop-on-NAK bit, so stretch the retry interval and watch frame
        // boundaries instead.
        Chip::Rp2040 => vec![
            Op::Write(Reg::NakPoll, NAK_POLL_YIELD),
            Op::Modify(Reg::Inte, 0, INT_HOST_SOF),
        ],
    }
}

/// EPX arbitration state.
#[derive(Clone, Copy, PartialEq, Eq, Structural, Debug)]
pub struct EpxState {
    /// Pipe with an ongoing non-interrupt transfer. `0` means none.
    pub current_channel: usize,
    /// Allocated EPX slots. The pipe in slot `s` has index `EP_COUNT + s`.
    pub allocated_slots: u16,
    /// Used EPX buffer blocks, one bit per block.
    pub used_blocks: u64,
    pub arbiter: EpxArbiter,
}

impl EpxState {
    /// EPX is free or held by an EPX pipe, and only existing blocks are in use.
    pub open spec fn wf(self) -> bool {
        &&& self.arbiter.wf()
        &&& self.current_channel == 0 || EP_COUNT <= self.current_channel < EP_COUNT + EPX_MAX_PIPES
        &&& set64(self.used_blocks).subset_of(range(0, EPX_NUM_BLOCKS as int))
    }

    /// Nothing allocated, held, queued or recorded.
    pub open spec fn is_reset(self) -> bool {
        &&& self.current_channel == 0
        &&& set16(self.allocated_slots) == Set::<int>::empty()
        &&& set64(self.used_blocks) == Set::<int>::empty()
        &&& self.arbiter.is_reset()
    }

    /// A reset state.
    pub fn new() -> (s: Self)
        ensures
            s.is_reset(),
            s.wf(),
    {
        proof {
            lemma_zero16(0);
            lemma_zero64();
        }
        EpxState {
            current_channel: 0,
            allocated_slots: 0,
            used_blocks: 0,
            arbiter: EpxArbiter::new(),
        }
    }

    /// Forget every pipe.
    pub fn reset(&mut self)
        ensures
            final(self).is_reset(),
            final(self).wf(),
    {
        *self = EpxState::new();
    }

    /// No pipe holds EPX and no transaction is armed on it.
    pub open spec fn spec_is_idle(&self) -> bool {
        self.current_channel == 0 && !self.arbiter.armed
    }

    /// Whether EPX is free with no transaction armed.
    #[verifier::when_used_as_spec(spec_is_idle)]
    pub fn is_idle(&self) -> (r: bool)
        ensures
            r == self.is_idle(),
    {
        self.current_channel == 0 && !self.arbiter.armed
    }

    /// Allocate `len` bytes of EPX buffer memory, returning its RAM address. First-fit over
    /// contiguous free blocks.
    pub fn alloc_epx_mem(&mut self, len: u16) -> (r: Result<u16, ()>)
        requires
            old(self).wf(),
        ensures
            final(self).wf(),
            r is Ok <==> can_hold(set64(old(self).used_blocks), len as int),
            r is Err ==> *final(self) == *old(self),
            r matches Ok(addr) ==> exists|start: int|
                {
                    &&& #[trigger] is_first_fit(
                        set64(old(self).used_blocks),
                        start,
                        blocks_of(len as int),
                    )
                    &&& addr == block_addr(start)
                    &&& set64(final(self).used_blocks) == set64(old(self).used_blocks).union(
                        range(start, start + blocks_of(len as int)),
                    )
                    &&& *final(self) == (EpxState {
                        used_blocks: final(self).used_blocks,
                        ..*old(self)
                    })
                },
    {
        let blocks: usize = blocks_for(len);
        let ghost used = set64(self.used_blocks);
        if blocks == 0 || blocks > EPX_NUM_BLOCKS {
            return Err(());
        }
        let mut start: usize = 0;
        while start <= EPX_NUM_BLOCKS - blocks
            invariant
                0 < blocks <= EPX_NUM_BLOCKS,
                blocks == blocks_of(len as int),
                start <= EPX_NUM_BLOCKS - blocks + 1,
                old(self).wf(),
                *self == *old(self),
                used == set64(self.used_blocks),
                forall|s: int| #[trigger] fits(used, s, blocks as int) ==> start <= s,
            decreases EPX_NUM_BLOCKS - blocks + 1 - start,
        {
            let mask: u64 = block_mask(start, blocks);
            proof {
                lemma_join64(self.used_blocks, mask);
            }
            if self.used_blocks & mask == 0 {
                self.used_blocks = self.used_blocks | mask;
                assert(fits(used, start as int, blocks as int));
                assert(is_first_fit(used, start as int, blocks as int));
                return Ok(EPX_BUFFER_OFFSET + (start * EPX_BLOCK_SIZE) as u16);
            }
            assert(!fits(used, start as int, blocks as int));
            start = start + 1;
        }
        assert forall|s: int| !#[trigger] fits(used, s, blocks_of(len as int)) by {}
        Err(())
    }

    /// Free EPX buffer memory previously returned by [`EpxState::alloc_epx_mem`].
    pub fn free_epx_mem(&mut self, addr: u16, len: u16)
        requires
            old(self).wf(),
            addr >= EPX_BUFFER_OFFSET,
            addr + len <= EP_MEMORY_SIZE,
        ensures
            final(self).wf(),
            ({
                let start = (addr - EPX_BUFFER_OFFSET) / EPX_BLOCK_SIZE as int;
                set64(final(self).used_blocks) == set64(old(self).used_blocks).difference(
                    range(start, start + blocks_of(len as int)),
                )
            }),
            *final(self) == (EpxState { used_blocks: final(self).used_blocks, ..*old(self) }),
    {
        let blocks: usize = blocks_for(len);
        let start: usize = (addr - EPX_BUFFER_OFFSET) as usize / EPX_BLOCK_SIZE;
        let mask: u64 = block_mask(start, blocks);
        proof {
            lemma_join64(self.used_blocks, mask);
        }
        self.used_blocks = self.used_blocks & !mask;
    }

    /// The slot that the next pipe gets: the lowest free one.
    pub open spec fn is_next_slot(self, slot: int) -> bool {
        &&& 0 <= slot < EPX_MAX_PIPES
        &&& !set16(self.allocated_slots).contains(slot)
        &&& forall|s: int| 0 <= s < slot ==> #[trigger] set16(self.allocated_slots).contains(s)
    }

    /// Whether every slot has a pipe.
    pub open spec fn is_full(self) -> bool {
        range(0, EPX_MAX_PIPES as int).subset_of(set16(self.allocated_slots))
    }

    fn lowest_free_slot(&self) -> (slot: usize)
        ensures
            slot <= EPX_MAX_PIPES,
            slot == EPX_MAX_PIPES <==> self.is_full(),
            slot < EPX_MAX_PIPES ==> self.is_next_slot(slot as int),
    {
        let w: u16 = self.allocated_slots;
        let slot: usize = w.trailing_ones() as usize;
        proof {
            vstd::std_specs::bits::axiom_u16_trailing_ones(w);
            assert(forall|j: u16| #![trigger w >> j] #![trigger 1u16 << j]
                j < 16 ==> ((w >> j) & 1 == 1 <==> w & (1u16 << j) != 0) && ((w >> j) & 1 == 0 <==> w
                    & (1u16 << j) == 0)) by (bit_vector);
            assert forall|s: int| 0 <= s < slot implies #[trigger] set16(w).contains(s) by {
                assert((w >> (s as u16)) & 1 == 1);
                assert(w & (1u16 << (s as u16)) != 0);
            }
            if slot < 16 {
                assert((w >> (slot as u16)) & 1 == 0);
                assert(range(0, EPX_MAX_PIPES as int).contains(slot as int));
            }
        }
        slot
    }

    /// Give a slot and a buffer to a new pipe: its index, buffer address and buffer length. A
    /// parked transfer keeps its buffer while another pipe owns EPX.
    pub fn allocate(&mut self, max_packet_size: u16) -> (r: Result<(usize, u16, u16), HostError>)
        requires
            old(self).wf(),
        ensures
            final(self).wf(),
            r == Err::<(usize, u16, u16), HostError>(HostError::OutOfPipes) <==> old(
                self,
            ).is_full(),
            r == Err::<(usize, u16, u16), HostError>(HostError::InsufficientMemory) <==> !old(
                self,
            ).is_full() && !can_hold(set64(old(self).used_blocks), max_packet_size as int),
            r matches Err(e) ==> e != HostError::InvalidDescriptor && *final(self) == *old(self),
            r matches Ok((index, addr, len)) ==> exists|start: int|
                {
                    &&& #[trigger] is_first_fit(
                        set64(old(self).used_blocks),
                        start,
                        blocks_of(max_packet_size as int),
                    )
                    &&& addr == block_addr(start)
                    &&& len == blocks_of(max_packet_size as int) * EPX_BLOCK_SIZE
                    &&& old(self).is_next_slot(index - EP_COUNT)
                    &&& set64(final(self).used_blocks) == set64(old(self).used_blocks).union(
                        range(start, start + blocks_of(max_packet_size as int)),
                    )
                    &&& set16(final(self).allocated_slots) == set16(
                        old(self).allocated_slots,
                    ).insert(index - EP_COUNT)
                    &&& *final(self) == (EpxState {
                        used_blocks: final(self).used_blocks,
                        allocated_slots: final(self).allocated_slots,
                        ..*old(self)
                    })
                },
    {
        let slot: usize = self.lowest_free_slot();
        if slot >= EPX_MAX_PIPES {
            return Err(HostError::OutOfPipes);
        }
        let before: u16 = self.allocated_slots;
        self.allocated_slots = insert16(before, slot);

        let blocks: usize = blocks_for(max_packet_size);
        if blocks > EPX_NUM_BLOCKS {
            self.allocated_slots = before;
            assert forall|s: int| !#[trigger] fits(
                set64(self.used_blocks),
                s,
                blocks_of(max_packet_size as int),
            ) by {}
            return Err(HostError::InsufficientMemory);
        }
        let len: u16 = (blocks * EPX_BLOCK_SIZE) as u16;
        assert(blocks_of(len as int) == blocks_of(max_packet_size as int));
        match self.alloc_epx_mem(len) {
            Ok(addr) => Ok((EP_COUNT + slot, addr, len)),
            Err(()) => {
                // Hand the slot back or repeated buffer failures exhaust the pipe pool.
                self.allocated_slots = before;
                Err(HostError::InsufficientMemory)
            },
        }
    }

    /// Take a pipe's slot and buffer back, and void what was recorded for it.
    pub fn free(&mut self, slot: usize, addr: u16, len: u16)
        requires
            old(self).wf(),
            slot < EPX_MAX_PIPES,
            addr >= EPX_BUFFER_OFFSET,
            addr + len <= EP_MEMORY_SIZE,
        ensures
            final(self).wf(),
            ({
                let start = (addr - EPX_BUFFER_OFFSET) / EPX_BLOCK_SIZE as int;
                set64(final(self).used_blocks) == set64(old(self).used_blocks).difference(
                    range(start, start + blocks_of(len as int)),
                )
            }),
            set16(final(self).allocated_slots) == set16(old(self).allocated_slots).remove(
                slot as int,
            ),
            final(self).current_channel == old(self).current_channel,
            outcome_discarded(old(self).arbiter, final(self).arbiter, slot as int),
    {
        self.free_epx_mem(addr, len);
        self.arbiter.discard_outcome(slot);
        self.allocated_slots = remove16(self.allocated_slots, slot);
    }

    /// Slot of the pipe with this index, or `None` for the idle sentinel and for interrupt
    /// pipes.
    pub open spec fn spec_slot(index: usize) -> Option<usize> {
        if EP_COUNT <= index < EP_COUNT + EPX_MAX_PIPES {
            Some((index - EP_COUNT) as usize)
        } else {
            None
        }
    }

    /// Slot of the pipe with this index, or `None` for the idle sentinel and for interrupt
    /// pipes.
    #[verifier::when_used_as_spec(spec_slot)]
    pub fn slot(index: usize) -> (r: Option<usize>)
        ensures
            r == Self::slot(index),
    {
        if index >= EP_COUNT && index - EP_COUNT < EPX_MAX_PIPES {
            Some(index - EP_COUNT)
        } else {
            None
        }
    }

    /// The wake-up of the pipe holding EPX.
    pub open spec fn wake_current_ops(self) -> Seq<Op> {
        match Self::slot(self.current_channel) {
            Some(slot) => seq![Op::Wake(Waker::Epx(slot))],
            None => Seq::empty(),
        }
    }

    /// Wake the pipe currently holding EPX.
    pub fn wake_current(&self) -> (ops: Vec<Op>)
        ensures
            ops@ == self.wake_current_ops(),
    {
        match Self::slot(self.current_channel) {
            Some(slot) => vec![Op::Wake(Waker::Epx(slot))],
            None => Vec::new(),
        }
    }

    /// The wake-ups of every allocated EPX pipe.
    pub open spec fn wake_all_ops(self) -> Seq<Op> {
        wakes_epx(set16(self.allocated_slots), EPX_MAX_PIPES as int)
    }

    /// Wake every allocated EPX pipe, so whoever is queued can claim EPX.
    pub fn wake_all(&self) -> (ops: Vec<Op>)
        ensures
            ops@ == self.wake_all_ops(),
    {
        let mut ops: Vec<Op> = Vec::new();
        let mut slot: usize = 0;
        while slot < EPX_MAX_PIPES
            invariant
                slot <= EPX_MAX_PIPES,
                ops@ == wakes_epx(set16(self.allocated_slots), slot as int),
            decreases EPX_MAX_PIPES - slot,
        {
            if contains16(self.allocated_slots, slot) {
                ops.push(Op::Wake(Waker::Epx(slot)));
            }
            slot = slot + 1;
        }
        ops
    }

    /// Slot whose turn it is to take a free EPX. `None` when nobody is queued.
    pub fn turn(&self) -> (r: Option<usize>)
        requires
            self.wf(),
        ensures
            r is None <==> set16(self.arbiter.waiting) == Set::<int>::empty(),
            r matches Some(slot) ==> slot < EPX_MAX_PIPES && is_turn(
                self.arbiter.last as int,
                set16(self.arbiter.waiting),
                slot as int,
            ),
    {
        self.arbiter.turn()
    }

    /// Record that the pipe holding EPX had its transaction stopped.
    pub fn mark_yielded(&mut self, index: usize)
        requires
            old(self).wf(),
        ensures
            final(self).wf(),
            match Self::slot(index) {
                Some(slot) => set16(final(self).arbiter.yielded) == set16(
                    old(self).arbiter.yielded,
                ).insert(slot as int),
                None => final(self).arbiter.yielded == old(self).arbiter.yielded,
            },
            *final(self) == (EpxState {
                arbiter: EpxArbiter {
                    yielded: final(self).arbiter.yielded,
                    ..old(self).arbiter
                },
                ..*old(self)
            }),
    {
        match Self::slot(index) {
            Some(slot) => self.arbiter.mark_yielded(slot),
            None => {},
        }
    }

    /// Record a completion the hardware could not signal because EPX was stopped.
    pub fn mark_completed(&mut self, index: usize)
        requires
            old(self).wf(),
        ensures
            final(self).wf(),
            match Self::slot(index) {
                Some(slot) => set16(final(self).arbiter.completed) == set16(
                    old(self).arbiter.completed,
                ).insert(slot as int),
                None => final(self).arbiter.completed == old(self).arbiter.completed,
            },
            *final(self) == (EpxState {
                arbiter: EpxArbiter {
                    completed: final(self).arbiter.completed,
                    ..old(self).arbiter
                },
                ..*old(self)
            }),
    {
        match Self::slot(index) {
            Some(slot) => self.arbiter.mark_completed(slot),
            None => {},
        }
    }

    /// Record a terminal error against the pipe with this index.
    pub fn mark_error(&mut self, index: usize, error: EpxError)
        requires
            old(self).wf(),
        ensures
            final(self).wf(),
            forall|s: int|
                0 <= s < EPX_MAX_PIPES ==> #[trigger] error_field(final(self).arbiter.error, s)
                    == if index == EP_COUNT + s {
                    error.code()
                } else {
                    error_field(old(self).arbiter.error, s)
                },
            *final(self) == (EpxState {
                arbiter: EpxArbiter { error: final(self).arbiter.error, ..old(self).arbiter },
                ..*old(self)
            }),
    {
        match Self::slot(index) {
            Some(slot) => self.arbiter.mark_error(slot, error),
            None => {},
        }
    }

    /// The state after an error was recorded against the EPX owner.
    pub open spec fn error_recorded(self, next: Self, error: EpxError) -> bool {
        if self.arbiter.armed {
            &&& forall|s: int|
                0 <= s < EPX_MAX_PIPES ==> #[trigger] error_field(next.arbiter.error, s) == if self
                    .current_channel == EP_COUNT + s {
                    error.code()
                } else {
                    error_field(self.arbiter.error, s)
                }
            &&& next == (EpxState {
                arbiter: EpxArbiter { error: next.arbiter.error, ..self.arbiter },
                ..self
            })
        } else {
            next == self
        }
    }

    /// Record a terminal error against the EPX owner and wake it.
    ///
    /// With no EPX transaction in flight the error belongs to a polled endpoint. One raised
    /// while EPX is also active is still charged here; the source is unknowable.
    pub fn record_epx_error(&mut self, error: EpxError) -> (ops: Vec<Op>)
        requires
            old(self).wf(),
        ensures
            final(self).wf(),
            old(self).error_recorded(*final(self), error),
            ops@ == if old(self).arbiter.armed {
                old(self).wake_current_ops()
            } else {
                Seq::<Op>::empty()
            },
    {
        if !self.arbiter.armed {
            return Vec::new();
        }
        self.mark_error(self.current_channel, error);
        self.wake_current()
    }

    /// Note that EPX made progress, so a pending yield request starts counting again.
    pub fn note_epx_progress(&mut self, chip: Chip)
        ensures
            *final(self) == old(self).without_switch_request(chip),
    {
        match chip {
            Chip::Rp2040 => {
                self.arbiter.switch_requested = false;
            },
            Chip::Rp235x => {},
        }
    }

    /// The state with the RP2040 switch request dropped.
    pub open spec fn without_switch_request(self, chip: Chip) -> Self {
        if chip == Chip::Rp2040 {
            EpxState {
                arbiter: EpxArbiter { switch_requested: false, ..self.arbiter },
                ..self
            }
        } else {
            self
        }
    }

    /// Stop asking for a yield: EPX is ours, or nobody is queued for it.
    pub fn disarm_epx_yield(&mut self, chip: Chip) -> (ops: Vec<Op>)
        ensures
            *final(self) == old(self).without_switch_request(chip),
            ops@ == disarm_yield_ops(chip),
    {
        match chip {
            Chip::Rp235x => vec![
                Op::Modify(Reg::NakPoll, NAK_STOP_EPX_ON_NAK, 0),
                Op::Modify(Reg::Inte, INT_EPX_STOPPED_ON_NAK, 0),
            ],
            Chip::Rp2040 => {
                self.arbiter.switch_requested = false;
                vec![
                    Op::Modify(Reg::Inte, INT_HOST_SOF, 0),
                    Op::Write(Reg::NakPoll, NAK_POLL_NORMAL),
                ]
            },
        }
    }

    /// The steps of a hand-over, for a sample of the EPX buffer control word and SIE_CTRL.
    pub open spec fn yield_ops(self, buffer: u32, sie_ctrl: u32) -> Seq<Op> {
        if spec_packet_moved(buffer, flag(sie_ctrl, SIE_SEND_DATA)) {
            self.wake_current_ops()
        } else {
            seq![Op::Modify(Reg::EpInBufferControl(0), BUF_AVAILABLE, 0)] + self.wake_all_ops()
        }
    }

    /// The state after a hand-over from the pipe at `index`.
    pub open spec fn is_yield(self, next: Self, index: usize, moved: bool) -> bool {
        &&& match Self::slot(index) {
            Some(slot) => if moved {
                &&& set16(next.arbiter.completed) == set16(self.arbiter.completed).insert(
                    slot as int,
                )
                &&& next.arbiter.yielded == self.arbiter.yielded
            } else {
                &&& next.arbiter.completed == self.arbiter.completed
                &&& set16(next.arbiter.yielded) == set16(self.arbiter.yielded).insert(slot as int)
            },
            None => {
                &&& next.arbiter.completed == self.arbiter.completed
                &&& next.arbiter.yielded == self.arbiter.yielded
            },
        }
        &&& next.current_channel == if moved {
            self.current_channel
        } else {
            0
        }
        &&& next == (EpxState {
            current_channel: next.current_channel,
            arbiter: EpxArbiter {
                completed: next.arbiter.completed,
                yielded: next.arbiter.yielded,
                ..self.arbiter
            },
            ..self
        })
    }

    /// Hand EPX from the pipe at `index` to whoever is queued for it. Returns `true` when the
    /// transfer was stopped short; a packet landing as the stop takes effect stays with its
    /// owner. `buffer` and `sie_ctrl` are sampled after the stop.
    pub fn yield_epx(&mut self, index: usize, buffer: u32, sie_ctrl: u32) -> (r: (bool, Vec<Op>))
        requires
            old(self).wf(),
        ensures
            final(self).wf(),
            r.0 == !spec_packet_moved(buffer, flag(sie_ctrl, SIE_SEND_DATA)),
            old(self).is_yield(*final(self), index, !r.0),
            r.1@ == old(self).yield_ops(buffer, sie_ctrl),
    {
        let is_out: bool = has_flag(sie_ctrl, SIE_SEND_DATA);
        if packet_moved(buffer, is_out) {
            // The stop suppressed the completion interrupt, so report it in software and let
            // the owner collect its packet. It keeps EPX until the transfer finishes.
            self.mark_completed(index);
            return (false, self.wake_current());
        }
        self.mark_yielded(index);

        // Nothing was transferred. Revoke the buffer before another pipe installs its own.
        let mut ops: Vec<Op> = vec![Op::Modify(Reg::EpInBufferControl(0), BUF_AVAILABLE, 0)];
        self.current_channel = 0;
        let mut wakes: Vec<Op> = self.wake_all();
        ops.append(&mut wakes);
        (true, ops)
    }
}

/// Whether `next` is `arbiter` with everything recorded for `slot` voided.
pub open spec fn outcome_discarded(arbiter: EpxArbiter, next: EpxArbiter, slot: int) -> bool {
    &&& !next.has_outcome(slot)
    &&& error_field(next.error, slot) == 0
    &&& set16(next.completed) == set16(arbiter.completed).remove(slot)
    &&& set16(next.yielded) == set16(arbiter.yielded).remove(slot)
    &&& forall|s: int|
        0 <= s < EPX_MAX_PIPES && s != slot ==> #[trigger] error_field(next.error, s)
            == error_field(arbiter.error, s)
    &&& next == (EpxArbiter {
        completed: next.completed,
        yielded: next.yielded,
        error: next.error,
        ..arbiter
    })
}

} // verus!
