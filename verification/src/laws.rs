//! What holds of the driver as a whole.

use vstd::prelude::*;
use crate::arbiter::{
    error_field, is_turn, pipe_error, releaser_goes_to_the_back, some_slot_has_the_turn,
    turn_is_unique, EpxError,
};
use crate::bits::{in16, range, set16, set64};
use crate::channel::{hand_over_ops, Channel, USB_CLOCK_DELAY_CYCLES};
use crate::epx::{
    arm_yield_ops, block_addr, blocks_of, disarm_yield_ops, outcome_discarded, spec_packet_moved,
    wakes_epx, EpxState, NAK_POLL_NORMAL,
};
use crate::epx_transaction::{EpxTransaction, Phase};
use crate::host::{interrupt_buffer_addr, HostState};
use crate::irq::{after_sof, cause_ops, sof_outcome, IrqCause, SofOutcome};
use crate::layout::{EPX_BLOCK_SIZE, EPX_BUFFER_OFFSET, EPX_MAX_PIPES, EP_COUNT};
use crate::interrupt_pipes::InterruptPipeState;
use crate::regs::{
    endpoint_bits_are_disjoint, flag, lemma_run_concat, lemma_run_push, lemma_run_short, run,
    spec_buff_status_bits, spec_int_ep_bit, Op, Reg, Waker, BUF_AVAILABLE, EP_ENABLE,
    EP_INTERRUPT_PER_BUFF, INT_EPX_STOPPED_ON_NAK, INT_HOST_SOF, NAK_STOP_EPX_ON_NAK, SIE_SEND_DATA,
};
use crate::transaction::{
    stop_ops, void_ops, EpxTransactionGuard, TransactionNext, TransactionStatus,
};
use crate::types::{Chip, PipeError};

verus! {

/// The EPX blocks of a pipe's buffer.
pub open spec fn blocks_of_pipe(c: Channel) -> Set<int> {
    let start = (c.buf.addr - EPX_BUFFER_OFFSET) / EPX_BLOCK_SIZE as int;
    range(start, start + blocks_of(c.buf.len as int))
}

/// The buffer is where the pipe's index or the block map says.
pub open spec fn is_housed(c: Channel, state: HostState) -> bool {
    if c.is_interrupt() {
        &&& c.buf.addr == interrupt_buffer_addr(c.index as int)
        &&& c.buf.len == EPX_BLOCK_SIZE
    } else {
        &&& c.buf.addr >= EPX_BUFFER_OFFSET
        &&& (c.buf.addr - EPX_BUFFER_OFFSET) % EPX_BLOCK_SIZE as int == 0
        &&& c.buf.len > 0
        &&& c.buf.len % EPX_BLOCK_SIZE as u16 == 0
        &&& blocks_of_pipe(c).subset_of(set64(state.epx.used_blocks))
    }
}

/// Two buffers share no byte.
pub open spec fn buffers_disjoint(a: Channel, b: Channel) -> bool {
    a.buf.addr + a.buf.len <= b.buf.addr || b.buf.addr + b.buf.len <= a.buf.addr
}

/// The allocation state accounts for exactly the live pipes, keyed by their index: each has its
/// own endpoint or slot, no two buffers overlap, and every used block belongs to one of them.
pub open spec fn accounts(state: HostState, live: Map<int, Channel>) -> bool {
    &&& state.wf()
    &&& forall|i: int| #[trigger]
        live.dom().contains(i) ==> live[i].wf() && live[i].index == i && is_housed(live[i], state)
    &&& forall|i: int, j: int|
        #![trigger live[i], live[j]]
        live.dom().contains(i) && live.dom().contains(j) && i != j ==> buffers_disjoint(
            live[i],
            live[j],
        )
    &&& forall|i: int|
        1 <= i < EP_COUNT ==> (#[trigger] set16(state.interrupt_pipes.allocated).contains(i)
            <==> live.dom().contains(i))
    &&& forall|s: int|
        0 <= s < EPX_MAX_PIPES ==> (#[trigger] set16(state.epx.allocated_slots).contains(s)
            <==> live.dom().contains(EP_COUNT + s))
    &&& forall|block: int| #[trigger]
        set64(state.epx.used_blocks).contains(block) ==> exists|i: int|
            {
                &&& live.dom().contains(i)
                &&& !(#[trigger] live[i]).is_interrupt()
                &&& blocks_of_pipe(live[i]).contains(block)
            }
}

/// A reset driver accounts for no pipe.
pub proof fn reset_accounts_for_nothing(state: HostState)
    requires
        state.wf(),
        state.is_reset(),
    ensures
        accounts(state, Map::empty()),
{
}

proof fn lemma_disjoint_from_new(state: HostState, c: Channel, new: Channel, start: int)
    requires
        c.wf(),
        is_housed(c, state),
        new.wf(),
        new.max_packet_size > 0,
        !new.is_interrupt(),
        new.buf.addr == block_addr(start),
        new.buf.len == blocks_of(new.max_packet_size as int) * EPX_BLOCK_SIZE,
        0 <= start,
        set64(state.epx.used_blocks).disjoint(
            range(start, start + blocks_of(new.max_packet_size as int)),
        ),
    ensures
        buffers_disjoint(c, new),
{
    let blocks = blocks_of(new.max_packet_size as int);
    if !c.is_interrupt() {
        let first = (c.buf.addr - EPX_BUFFER_OFFSET) / EPX_BLOCK_SIZE as int;
        let count = blocks_of(c.buf.len as int);
        // Overlapping runs would share the higher of their first blocks.
        if first <= start && start < first + count {
            assert(blocks_of_pipe(c).contains(start));
            assert(range(start, start + blocks).contains(start));
        }
        if start <= first && first < start + blocks {
            assert(blocks_of_pipe(c).contains(first));
            assert(range(start, start + blocks).contains(first));
        }
    }
}

/// Allocating an EPX pipe keeps the accounts: it gets a slot and blocks that no live pipe has.
pub proof fn allocating_a_slot_keeps_accounts(
    state: HostState,
    next: HostState,
    live: Map<int, Channel>,
    new: Channel,
    start: int,
)
    requires
        accounts(state, live),
        next.wf(),
        new.wf(),
        new.max_packet_size > 0,
        !new.is_interrupt(),
        state.gives_slot(next, new, start),
    ensures
        !live.dom().contains(new.index as int),
        accounts(next, live.insert(new.index as int, new)),
{
    let k = new.index as int;
    let blocks = blocks_of(new.max_packet_size as int);
    let all = live.insert(k, new);
    assert(!set16(state.epx.allocated_slots).contains(k - EP_COUNT));
    assert(!live.dom().contains(EP_COUNT + (k - EP_COUNT)));
    assert(blocks_of(new.buf.len as int) == blocks);
    assert(blocks_of_pipe(new) =~= range(start, start + blocks));
    assert forall|i: int| #[trigger] all.dom().contains(i) implies all[i].wf() && all[i].index == i
        && is_housed(all[i], next) by {
        if i != k {
            assert(live.dom().contains(i));
            assert(is_housed(live[i], state));
        }
    }
    assert forall|i: int, j: int|
        #![trigger all[i], all[j]]
        all.dom().contains(i) && all.dom().contains(j) && i != j implies buffers_disjoint(
        all[i],
        all[j],
    ) by {
        if i == k {
            assert(live.dom().contains(j));
            lemma_disjoint_from_new(state, live[j], new, start);
        } else if j == k {
            assert(live.dom().contains(i));
            lemma_disjoint_from_new(state, live[i], new, start);
        } else {
            assert(buffers_disjoint(live[i], live[j]));
        }
    }
    assert forall|s: int| 0 <= s < EPX_MAX_PIPES implies (#[trigger] set16(
        next.epx.allocated_slots,
    ).contains(s) <==> all.dom().contains(EP_COUNT + s)) by {
        assert(set16(state.epx.allocated_slots).contains(s) <==> live.dom().contains(EP_COUNT + s));
    }
    assert forall|block: int| #[trigger]
        set64(next.epx.used_blocks).contains(block) implies exists|i: int|
        {
            &&& all.dom().contains(i)
            &&& !(#[trigger] all[i]).is_interrupt()
            &&& blocks_of_pipe(all[i]).contains(block)
        } by {
        if set64(state.epx.used_blocks).contains(block) {
            let i = choose|i: int|
                {
                    &&& live.dom().contains(i)
                    &&& !(#[trigger] live[i]).is_interrupt()
                    &&& blocks_of_pipe(live[i]).contains(block)
                };
            assert(all.dom().contains(i) && all[i] == live[i]);
        } else {
            assert(all.dom().contains(k) && all[k] == new);
        }
    }
}

/// Allocating an interrupt pipe keeps the accounts: it gets an endpoint that no live pipe has,
/// and the block of that endpoint.
pub proof fn allocating_an_endpoint_keeps_accounts(
    state: HostState,
    next: HostState,
    live: Map<int, Channel>,
    new: Channel,
)
    requires
        accounts(state, live),
        new.wf(),
        new.is_interrupt(),
        state.gives_endpoint(next, new),
    ensures
        !live.dom().contains(new.index as int),
        accounts(next, live.insert(new.index as int, new)),
{
    let k = new.index as int;
    let all = live.insert(k, new);
    assert(!set16(state.interrupt_pipes.allocated).contains(k));
    assert forall|i: int| #[trigger] all.dom().contains(i) implies all[i].wf() && all[i].index == i
        && is_housed(all[i], next) by {
        if i != k {
            assert(live.dom().contains(i));
        }
    }
    assert forall|i: int, j: int|
        #![trigger all[i], all[j]]
        all.dom().contains(i) && all.dom().contains(j) && i != j implies buffers_disjoint(
        all[i],
        all[j],
    ) by {
        if i == k {
            assert(live.dom().contains(j));
        } else if j == k {
            assert(live.dom().contains(i));
        } else {
            assert(buffers_disjoint(live[i], live[j]));
        }
    }
    assert forall|i: int| 1 <= i < EP_COUNT implies (#[trigger] set16(
        next.interrupt_pipes.allocated,
    ).contains(i) <==> all.dom().contains(i)) by {
        assert(set16(state.interrupt_pipes.allocated).contains(i) <==> live.dom().contains(i));
    }
    assert forall|block: int| #[trigger]
        set64(next.epx.used_blocks).contains(block) implies exists|i: int|
        {
            &&& all.dom().contains(i)
            &&& !(#[trigger] all[i]).is_interrupt()
            &&& blocks_of_pipe(all[i]).contains(block)
        } by {
        assert(set64(state.epx.used_blocks).contains(block));
        let i = choose|i: int|
            {
                &&& live.dom().contains(i)
                &&& !(#[trigger] live[i]).is_interrupt()
                &&& blocks_of_pipe(live[i]).contains(block)
            };
        assert(all.dom().contains(i) && all[i] == live[i]);
    }
}

/// Dropping a live pipe keeps the accounts: everything it had is free again, and no other pipe
/// loses anything.
pub proof fn dropping_keeps_accounts(
    state: HostState,
    next: HostState,
    live: Map<int, Channel>,
    gone: Channel,
)
    requires
        accounts(state, live),
        next.wf(),
        live.dom().contains(gone.index as int),
        live[gone.index as int] == gone,
        gone.is_drop(state, next),
    ensures
        accounts(next, live.remove(gone.index as int)),
{
    let k = gone.index as int;
    let rest = live.remove(k);
    assert(live[k].wf());
    assert forall|i: int| #[trigger] rest.dom().contains(i) implies rest[i].wf() && rest[i].index
        == i && is_housed(rest[i], next) by {
        assert(live.dom().contains(i));
        assert(is_housed(live[i], state));
        if !gone.is_interrupt() && !live[i].is_interrupt() {
            assert(buffers_disjoint(live[i], live[k]));
            assert forall|block: int| blocks_of_pipe(live[i]).contains(block) implies set64(
                next.epx.used_blocks,
            ).contains(block) by {
                assert(set64(state.epx.used_blocks).contains(block));
                assert(is_housed(live[k], state));
            }
        }
    }
    assert forall|i: int, j: int|
        #![trigger rest[i], rest[j]]
        rest.dom().contains(i) && rest.dom().contains(j) && i != j implies buffers_disjoint(
        rest[i],
        rest[j],
    ) by {
        assert(buffers_disjoint(live[i], live[j]));
    }
    assert forall|i: int| 1 <= i < EP_COUNT implies (#[trigger] set16(
        next.interrupt_pipes.allocated,
    ).contains(i) <==> rest.dom().contains(i)) by {
        assert(set16(state.interrupt_pipes.allocated).contains(i) <==> live.dom().contains(i));
    }
    assert forall|s: int| 0 <= s < EPX_MAX_PIPES implies (#[trigger] set16(
        next.epx.allocated_slots,
    ).contains(s) <==> rest.dom().contains(EP_COUNT + s)) by {
        assert(set16(state.epx.allocated_slots).contains(s) <==> live.dom().contains(EP_COUNT + s));
    }
    assert forall|block: int| #[trigger]
        set64(next.epx.used_blocks).contains(block) implies exists|i: int|
        {
            &&& rest.dom().contains(i)
            &&& !(#[trigger] rest[i]).is_interrupt()
            &&& blocks_of_pipe(rest[i]).contains(block)
        } by {
        assert(set64(state.epx.used_blocks).contains(block));
        let i = choose|i: int|
            {
                &&& live.dom().contains(i)
                &&& !(#[trigger] live[i]).is_interrupt()
                &&& blocks_of_pipe(live[i]).contains(block)
            };
        assert(i != k);
        assert(rest.dom().contains(i) && rest[i] == live[i]);
    }
}

/// Dropping an EPX pipe gives back exactly what allocating it took.
pub proof fn drop_undoes_alloc(
    state: HostState,
    mid: HostState,
    next: HostState,
    c: Channel,
    start: int,
)
    requires
        state.wf(),
        c.wf(),
        c.max_packet_size > 0,
        !c.is_interrupt(),
        state.gives_slot(mid, c, start),
        c.is_drop(mid, next),
    ensures
        set64(next.epx.used_blocks) == set64(state.epx.used_blocks),
        set16(next.epx.allocated_slots) == set16(state.epx.allocated_slots),
        next.epx.current_channel == state.epx.current_channel,
        next.interrupt_pipes == state.interrupt_pipes,
        outcome_discarded(state.epx.arbiter, next.epx.arbiter, c.epx_slot() as int),
{
    let blocks = blocks_of(c.max_packet_size as int);
    assert(blocks_of(c.buf.len as int) == blocks);
    assert((c.buf.addr - EPX_BUFFER_OFFSET) / EPX_BLOCK_SIZE as int == start);
    assert(set64(next.epx.used_blocks) =~= set64(state.epx.used_blocks));
    assert(set16(next.epx.allocated_slots) =~= set16(state.epx.allocated_slots));
}

/// Dropping an interrupt pipe gives its endpoint back, with nothing left recorded for it.
pub proof fn drop_undoes_alloc_of_endpoint(
    state: HostState,
    mid: HostState,
    next: HostState,
    c: Channel,
)
    requires
        c.wf(),
        c.is_interrupt(),
        state.gives_endpoint(mid, c),
        c.is_drop(mid, next),
    ensures
        set16(next.interrupt_pipes.allocated) == set16(state.interrupt_pipes.allocated),
        !set16(next.interrupt_pipes.toggle_owed).contains(c.index as int),
        !set16(next.interrupt_pipes.armed_in).contains(c.index as int),
        !set16(next.interrupt_pipes.timed_out).contains(c.index as int),
        next.epx == state.epx,
{
    assert(set16(next.interrupt_pipes.allocated) =~= set16(state.interrupt_pipes.allocated));
}

/// While a pipe holds EPX, no other pipe may run.
pub proof fn holder_is_exclusive(holder: Channel, other: Channel, epx: EpxState)
    requires
        holder.wf(),
        !holder.is_interrupt(),
        epx.current_channel == holder.index,
        other.index != holder.index,
    ensures
        holder.may_run(epx),
        !other.may_run(epx),
{
}

/// EPX is claimed only by the pipe whose turn it is, and never taken from a holder: where a
/// settling pipe may run, so that its transaction is started, EPX is free, no other queued pipe may
/// take it, and from then on no other pipe may run until EPX is let go.
pub proof fn claims_are_exclusive(
    t: EpxTransaction,
    a: Channel,
    b: Channel,
    epx: EpxState,
    next: EpxState,
)
    requires
        t.inv(a, epx),
        t.phase == Phase::Settling,
        a.may_run(epx),
        b.wf(),
        !b.is_interrupt(),
        b.index != a.index,
        next.current_channel == a.index,
    ensures
        epx.current_channel == 0,
        set16(epx.arbiter.waiting).contains(b.epx_slot() as int) ==> !b.may_run(epx),
        !b.may_run(next),
{
    if set16(epx.arbiter.waiting).contains(b.epx_slot() as int) && b.may_run(epx) {
        one_queued_pipe_may_take(a, b, epx);
    }
}

/// A transaction that is only waited for never ends in a timeout: that takes a deadline, which
/// only a pipe with a response budget has.
pub proof fn only_a_deadline_times_out(c: Channel, epx: EpxState, sie_status: u32)
    ensures
        c.outcome_of(epx, sie_status) matches Some(result) ==> c.next_of(result)
            != TransactionNext::Return(Err::<(), PipeError>(PipeError::Timeout)),
{
}

/// Of the pipes queued for a free EPX, at most one may take it.
pub proof fn one_queued_pipe_may_take(a: Channel, b: Channel, epx: EpxState)
    requires
        a.wf(),
        !a.is_interrupt(),
        b.wf(),
        !b.is_interrupt(),
        epx.wf(),
        epx.current_channel == 0,
        set16(epx.arbiter.waiting).contains(a.epx_slot() as int),
        set16(epx.arbiter.waiting).contains(b.epx_slot() as int),
        a.may_run(epx),
        b.may_run(epx),
    ensures
        a.index == b.index,
{
    assert forall|s: int| #[trigger] set16(epx.arbiter.waiting).contains(s) implies 0 <= s
        < EPX_MAX_PIPES by {
        assert(in16(epx.arbiter.waiting, s));
    }
    turn_is_unique(
        epx.arbiter.last as int,
        set16(epx.arbiter.waiting),
        a.epx_slot() as int,
        b.epx_slot() as int,
    );
}

/// While pipes are queued for a free EPX, one of them may take it.
pub proof fn some_queued_pipe_may_take(epx: EpxState)
    requires
        epx.wf(),
        epx.current_channel == 0,
        set16(epx.arbiter.waiting) != Set::<int>::empty(),
    ensures
        exists|slot: int|
            {
                &&& #[trigger] set16(epx.arbiter.waiting).contains(slot)
                &&& 0 <= slot < EPX_MAX_PIPES
                &&& forall|c: Channel|
                    c.wf() && !c.is_interrupt() && c.epx_slot() == slot ==> #[trigger] c.may_run(epx)
            },
{
    let waiting = set16(epx.arbiter.waiting);
    assert forall|s: int| #[trigger] waiting.contains(s) implies 0 <= s < EPX_MAX_PIPES by {
        assert(in16(epx.arbiter.waiting, s));
    }
    some_slot_has_the_turn(epx.arbiter.last as int, waiting);
    let slot = choose|slot: int| is_turn(epx.arbiter.last as int, waiting, slot);
    assert(waiting.contains(slot));
}

proof fn lemma_wakes_contains(set: Set<int>, end: int, slot: int)
    requires
        0 <= slot < end <= EPX_MAX_PIPES,
        set.contains(slot),
    ensures
        wakes_epx(set, end).contains(Op::Wake(Waker::Epx(slot as usize))),
    decreases end,
{
    let op = Op::Wake(Waker::Epx(slot as usize));
    let shorter = wakes_epx(set, end - 1);
    if slot == end - 1 {
        assert(shorter.push(op).last() == op);
    } else {
        lemma_wakes_contains(set, end - 1, slot);
        let k = choose|k: int| 0 <= k < shorter.len() && shorter[k] == op;
        assert(wakes_epx(set, end)[k] == op);
    }
}

/// Letting EPX go, and stopping its holder short, wakes every contender.
pub proof fn freeing_epx_wakes_every_contender(
    guard: EpxTransactionGuard,
    epx: EpxState,
    chip: Chip,
    buffer: u32,
    sie_ctrl: u32,
    slot: int,
)
    requires
        set16(epx.allocated_slots).contains(slot),
    ensures
        guard.release_ops(epx, chip).contains(Op::Wake(Waker::Epx(slot as usize))),
        !spec_packet_moved(buffer, flag(sie_ctrl, SIE_SEND_DATA)) ==> epx.yield_ops(
            buffer,
            sie_ctrl,
        ).contains(Op::Wake(Waker::Epx(slot as usize))),
{
    let op = Op::Wake(Waker::Epx(slot as usize));
    let wakes = epx.wake_all_ops();
    assert(in16(epx.allocated_slots, slot));
    lemma_wakes_contains(set16(epx.allocated_slots), EPX_MAX_PIPES as int, slot);
    let k = choose|k: int| 0 <= k < wakes.len() && wakes[k] == op;
    let stop = if guard.transaction_active {
        stop_ops() + void_ops()
    } else {
        Seq::<Op>::empty()
    };
    let before = stop.len() + disarm_yield_ops(chip).len();
    assert(guard.release_ops(epx, chip)[before + k] == op);
    if !spec_packet_moved(buffer, flag(sie_ctrl, SIE_SEND_DATA)) {
        assert(epx.yield_ops(buffer, sie_ctrl)[1 + k] == op);
    }
}

/// Whatever ends a transaction wakes the pipe that holds EPX.
pub proof fn completion_wakes_the_holder(c: Channel, epx: EpxState, chip: Chip, cause: IrqCause)
    requires
        c.wf(),
        !c.is_interrupt(),
        epx.current_channel == c.index,
        cause == IrqCause::Stall || cause == IrqCause::RxOverflow || cause
            == IrqCause::TransComplete || cause == IrqCause::RxTimeout || epx.arbiter.armed && (
        cause == IrqCause::CrcError || cause == IrqCause::BitStuffError || cause
            == IrqCause::DataSeqError),
    ensures
        cause_ops(chip, epx, cause).contains(Op::Wake(Waker::Epx(c.epx_slot()))),
{
    assert(cause_ops(chip, epx, cause)[1] == Op::Wake(Waker::Epx(c.epx_slot())));
}

/// Letting EPX go leaves it idle, records nothing for the pipe, and while another pipe is queued
/// the pipe that let go cannot take EPX right back.
pub proof fn release_hands_epx_on(
    guard: EpxTransactionGuard,
    c: Channel,
    epx: EpxState,
    next: EpxState,
    chip: Chip,
    other: int,
)
    requires
        c.wf(),
        !c.is_interrupt(),
        guard.index == c.index,
        epx.wf(),
        guard.is_release(epx, next, chip),
        set16(epx.arbiter.waiting).contains(other),
        other != c.epx_slot(),
    ensures
        next.is_idle(),
        !next.arbiter.has_outcome(c.epx_slot() as int),
        !c.may_run(next),
{
    let waiting = set16(next.arbiter.waiting);
    assert(waiting.contains(other));
    assert forall|s: int| #[trigger] waiting.contains(s) implies 0 <= s < EPX_MAX_PIPES by {
        assert(in16(next.arbiter.waiting, s));
    }
    if is_turn(next.arbiter.last as int, waiting, c.epx_slot() as int) {
        releaser_goes_to_the_back(next.arbiter.last as int, waiting, c.epx_slot() as int);
    }
}

/// What one pipe does to the queue and to EPX does not disturb the transaction of another: it
/// moves only itself in the queue, and takes EPX only for itself or gives it up.
pub proof fn transactions_do_not_disturb(
    t: EpxTransaction,
    a: Channel,
    b: Channel,
    epx: EpxState,
    next: EpxState,
)
    requires
        t.inv(a, epx),
        a.index != b.index,
        next.wf(),
        forall|s: int|
            s != b.index - EP_COUNT ==> (#[trigger] set16(next.arbiter.waiting).contains(s)
                <==> set16(epx.arbiter.waiting).contains(s)),
        next.current_channel == epx.current_channel || next.current_channel == b.index
            || next.current_channel == 0,
    ensures
        t.inv(a, next),
{
    assert(a.epx_slot() as int != b.index - EP_COUNT);
    assert(set16(next.arbiter.waiting).contains(a.epx_slot() as int) <==> set16(
        epx.arbiter.waiting,
    ).contains(a.epx_slot() as int));
}

/// Only allocated pipes are queued for EPX or hold it, so the rotation never stalls on a pipe that
/// will not claim its turn.
pub open spec fn queue_is_live(epx: EpxState) -> bool {
    &&& set16(epx.arbiter.waiting).subset_of(set16(epx.allocated_slots))
    &&& epx.current_channel != 0 ==> set16(epx.allocated_slots).contains(
        epx.current_channel - EP_COUNT,
    )
}

/// Nobody is queued in a reset driver.
pub proof fn reset_queue_is_live(epx: EpxState)
    requires
        epx.is_reset(),
    ensures
        queue_is_live(epx),
{
}

/// A new pipe is not queued and does not hold EPX, so it can begin a transaction.
pub proof fn new_pipe_is_not_queued(
    state: HostState,
    next: HostState,
    c: Channel,
    start: int,
    t: EpxTransaction,
)
    requires
        queue_is_live(state.epx),
        next.wf(),
        c.wf(),
        !c.is_interrupt(),
        state.gives_slot(next, c, start),
        t.phase == Phase::Idle,
        t.guard.index == c.index,
    ensures
        queue_is_live(next.epx),
        t.inv(c, next.epx),
{
    let slot = c.index - EP_COUNT;
    assert(!set16(state.epx.allocated_slots).contains(slot));
    assert(!set16(state.epx.arbiter.waiting).contains(slot));
}

/// What an allocated pipe does to the queue and to EPX keeps dead pipes out of it.
pub proof fn transactions_keep_queue_live(c: Channel, epx: EpxState, next: EpxState)
    requires
        queue_is_live(epx),
        c.wf(),
        !c.is_interrupt(),
        set16(epx.allocated_slots).contains(c.epx_slot() as int),
        next.allocated_slots == epx.allocated_slots,
        forall|s: int|
            s != c.epx_slot() ==> (#[trigger] set16(next.arbiter.waiting).contains(s) ==> set16(
                epx.arbiter.waiting,
            ).contains(s)),
        next.current_channel == epx.current_channel || next.current_channel == c.index
            || next.current_channel == 0,
    ensures
        queue_is_live(next),
{
}

/// Dropping a pipe whose transaction has ended or was cancelled leaves no trace of it in the
/// queue.
pub proof fn dropping_keeps_queue_live(
    state: HostState,
    next: HostState,
    c: Channel,
    t: EpxTransaction,
)
    requires
        queue_is_live(state.epx),
        t.inv(c, state.epx),
        t.phase == Phase::Idle,
        c.is_drop(state, next),
    ensures
        queue_is_live(next.epx),
{
}

/// A stopped pipe learns of its stop exactly what happened: a packet that still moved is
/// reported as complete, anything else as a yield.
pub proof fn stop_is_reported(
    c: Channel,
    epx: EpxState,
    next: EpxState,
    moved: bool,
    sie_status: u32,
)
    requires
        c.wf(),
        !c.is_interrupt(),
        epx.current_channel == c.index,
        !epx.arbiter.has_outcome(c.epx_slot() as int),
        epx.is_yield(next, c.index, moved),
    ensures
        c.outcome_of(next, sie_status) == Some(
            Ok::<TransactionStatus, PipeError>(
                if moved {
                    TransactionStatus::Complete
                } else {
                    TransactionStatus::NakYield
                },
            ),
        ),
        next.current_channel == if moved {
            c.index
        } else {
            0
        },
{
}

/// An error raised while EPX is mid-transaction is reported to its holder, before anything else,
/// and to no other pipe. One raised with no transaction armed is charged to nobody.
pub proof fn error_is_reported_to_the_holder(
    c: Channel,
    other: Channel,
    epx: EpxState,
    next: EpxState,
    error: EpxError,
    sie_status: u32,
)
    requires
        c.wf(),
        !c.is_interrupt(),
        other.wf(),
        !other.is_interrupt(),
        other.index != c.index,
        epx.current_channel == c.index,
        epx.error_recorded(next, error),
    ensures
        epx.arbiter.armed ==> c.outcome_of(next, sie_status) == Some(
            Err::<TransactionStatus, PipeError>(pipe_error(error)),
        ),
        !epx.arbiter.armed ==> next == epx,
        other.outcome_of(next, sie_status) == other.outcome_of(epx, sie_status),
{
    if epx.arbiter.armed {
        let s = c.epx_slot() as int;
        let t = other.epx_slot() as int;
        assert(error_field(next.arbiter.error, s) == error.code());
        assert(error_field(next.arbiter.error, t) == error_field(
            epx.arbiter.error,
            t,
        ));
    }
}

/// On RP2040 a contended holder is stopped by the second frame without progress, and not by the
/// first; a completed transaction in between starts the count again.
pub proof fn stop_takes_two_frames(epx: EpxState)
    requires
        epx.wf(),
        !epx.arbiter.switch_requested,
        epx.current_channel != 0,
        set16(epx.arbiter.waiting) != Set::<int>::empty(),
    ensures
        ({
            let first = sof_outcome(Chip::Rp2040, epx);
            let between = after_sof(epx, first);
            &&& first == SofOutcome::Armed
            &&& sof_outcome(Chip::Rp2040, between) == SofOutcome::Stopped(epx.current_channel)
            &&& sof_outcome(Chip::Rp2040, between.without_switch_request(Chip::Rp2040))
                == SofOutcome::Armed
        }),
{
}

/// Asking for a yield and taking it back leaves the registers as they were without a request.
pub proof fn disarm_undoes_arm(chip: Chip, regs: Map<Reg, u32>)
    requires
        regs.dom().contains(Reg::NakPoll),
        regs.dom().contains(Reg::Inte),
        chip == Chip::Rp235x ==> !flag(regs[Reg::NakPoll], NAK_STOP_EPX_ON_NAK) && !flag(
            regs[Reg::Inte],
            INT_EPX_STOPPED_ON_NAK,
        ),
        chip == Chip::Rp2040 ==> regs[Reg::NakPoll] == NAK_POLL_NORMAL && !flag(
            regs[Reg::Inte],
            INT_HOST_SOF,
        ),
    ensures
        run(regs, arm_yield_ops(chip) + disarm_yield_ops(chip)) == regs,
{
    let arm = arm_yield_ops(chip);
    let disarm = disarm_yield_ops(chip);
    let mid = run(regs, arm);
    lemma_run_concat(regs, arm, disarm);
    lemma_run_short(regs, arm[0], arm[1], arm[1]);
    lemma_run_short(mid, disarm[0], disarm[1], disarm[1]);
    assert(arm =~= seq![arm[0], arm[1]]);
    assert(disarm =~= seq![disarm[0], disarm[1]]);
    assert(forall|w: u32, m: u32| #![trigger w & m]
        w & m == 0 ==> ((w & !0u32) | m) & !m | 0u32 == w) by (bit_vector);
    let nak = regs[Reg::NakPoll];
    let inte = regs[Reg::Inte];
    assert(nak & NAK_STOP_EPX_ON_NAK == 0 || chip == Chip::Rp2040);
    assert(inte & INT_EPX_STOPPED_ON_NAK == 0 || chip == Chip::Rp2040);
    assert(inte & INT_HOST_SOF == 0 || chip == Chip::Rp235x);
    assert(run(regs, arm + disarm) =~= regs);
}

/// A buffer becomes the controller's only in the last step, a full clock crossing after the rest
/// of its control word was stored, and then the word is exactly the one asked for.
pub proof fn buffer_is_handed_over_last(reg: Reg, value: u32, regs: Map<Reg, u32>)
    requires
        flag(value, BUF_AVAILABLE),
    ensures
        hand_over_ops(reg, value).len() == 3,
        !flag(run(regs, hand_over_ops(reg, value).take(1))[reg], BUF_AVAILABLE),
        hand_over_ops(reg, value)[1] == Op::Delay(USB_CLOCK_DELAY_CYCLES),
        !flag(run(regs, hand_over_ops(reg, value).take(2))[reg], BUF_AVAILABLE),
        run(regs, hand_over_ops(reg, value)) == regs.insert(reg, value),
{
    let ops = hand_over_ops(reg, value);
    lemma_run_short(regs, ops[0], ops[1], ops[2]);
    assert(ops.take(1) =~= seq![ops[0]]);
    assert(ops.take(2) =~= seq![ops[0], ops[1]]);
    assert(ops =~= seq![ops[0], ops[1], ops[2]]);
    assert((value & !0x400u32) & 0x400 == 0 && (value & 0x400 != 0 ==> value | 0x400 == value))
        by (bit_vector);
    assert(run(regs, ops) =~= regs.insert(reg, value));
}

pub proof fn lemma_wakes_keep_registers(regs: Map<Reg, u32>, set: Set<int>, end: int)
    ensures
        run(regs, wakes_epx(set, end)) == regs,
    decreases end,
{
    if end > 0 {
        lemma_wakes_keep_registers(regs, set, end - 1);
        if set.contains(end - 1) {
            lemma_run_push(
                regs,
                wakes_epx(set, end - 1),
                Op::Wake(Waker::Epx((end - 1) as usize)),
            );
        }
    }
}

/// When EPX was let go, its endpoint is disabled and its buffer is the processor's.
pub proof fn released_epx_is_disabled(
    guard: EpxTransactionGuard,
    epx: EpxState,
    chip: Chip,
    regs: Map<Reg, u32>,
)
    ensures
        ({
            let after = run(regs, guard.release_ops(epx, chip));
            &&& !flag(after[Reg::EpxControl], EP_ENABLE)
            &&& !flag(after[Reg::EpInBufferControl(0)], BUF_AVAILABLE)
        }),
{
    let ops = guard.release_ops(epx, chip);
    let n = ops.len() as int;
    let before = ops.take(n - 2);
    let last = seq![ops[n - 2], ops[n - 1]];
    assert(ops =~= before + last);
    lemma_run_concat(regs, before, last);
    lemma_run_short(run(regs, before), ops[n - 2], ops[n - 1], ops[n - 1]);
    let mid = run(regs, before);
    let ctrl = mid[Reg::EpxControl];
    let buffer = mid[Reg::EpInBufferControl(0)];
    assert(((ctrl & !(0x2000_0000u32 | 0x8000_0000u32)) | 0u32) & 0x8000_0000u32 == 0
        && ((buffer & !0x400u32) | 0u32) & 0x400u32 == 0) by (bit_vector);
    assert(ops[n - 2] == Op::Modify(Reg::EpxControl, EP_INTERRUPT_PER_BUFF | EP_ENABLE, 0));
    assert(ops[n - 1] == Op::Modify(Reg::EpInBufferControl(0), BUF_AVAILABLE, 0));
}

/// A holder that was stopped short has lost its buffer before another pipe can install its own.
pub proof fn stop_revokes_the_buffer(
    epx: EpxState,
    buffer: u32,
    sie_ctrl: u32,
    regs: Map<Reg, u32>,
)
    requires
        !spec_packet_moved(buffer, flag(sie_ctrl, SIE_SEND_DATA)),
    ensures
        !flag(
            run(regs, epx.yield_ops(buffer, sie_ctrl))[Reg::EpInBufferControl(0)],
            BUF_AVAILABLE,
        ),
{
    let revoke = seq![Op::Modify(Reg::EpInBufferControl(0), BUF_AVAILABLE, 0)];
    lemma_run_concat(regs, revoke, epx.wake_all_ops());
    lemma_run_short(regs, revoke[0], revoke[0], revoke[0]);
    lemma_wakes_keep_registers(
        run(regs, revoke),
        set16(epx.allocated_slots),
        EPX_MAX_PIPES as int,
    );
    let w = regs[Reg::EpInBufferControl(0)];
    assert(((w & !0x400u32) | 0u32) & 0x400u32 == 0) by (bit_vector);
}

/// A step leaves a pipe's own endpoint alone: its control, address and buffer control words, its
/// bits in the shared registers, and the bytes of its buffer.
pub open spec fn spares(op: Op, b: Channel) -> bool {
    match op {
        Op::Write(reg, _) => !is_own_register(reg, b) && reg != Reg::IntEpCtrl && reg
            != Reg::BuffStatus,
        Op::Modify(reg, clear, set) => {
            &&& !is_own_register(reg, b)
            &&& reg != Reg::BuffStatus
            &&& reg == Reg::IntEpCtrl ==> clear & spec_int_ep_bit(b.index) == 0 && set
                & spec_int_ep_bit(b.index) == 0
        },
        Op::Clear(reg, mask) => {
            &&& !is_own_register(reg, b)
            &&& reg != Reg::IntEpCtrl
            &&& reg == Reg::BuffStatus ==> mask & spec_buff_status_bits(b.index) == 0
        },
        Op::CopyOut { addr, from: _, len } => addr + len <= b.buf.addr || b.buf.addr + b.buf.len
            <= addr,
        Op::ZeroDpram(_) => false,
        _ => true,
    }
}

/// The registers that belong to one interrupt pipe alone.
pub open spec fn is_own_register(reg: Reg, b: Channel) -> bool {
    ||| reg == b.ep_control()
    ||| reg == b.buffer_control()
    ||| reg == Reg::AddrEndpX((b.index - 1) as usize)
}

/// Every step of a list leaves a pipe's own endpoint alone.
pub open spec fn all_spare(ops: Seq<Op>, b: Channel) -> bool {
    forall|k: int| 0 <= k < ops.len() ==> spares(#[trigger] ops[k], b)
}

/// Each interrupt pipe owns its endpoint outright: whatever one does, it leaves the endpoint of
/// another alone.
pub proof fn interrupt_pipes_keep_apart(
    a: Channel,
    b: Channel,
    timed_out: bool,
    from: usize,
    total: usize,
)
    requires
        a.wf(),
        b.wf(),
        a.is_interrupt(),
        b.is_interrupt(),
        a.index != b.index,
        buffers_disjoint(a, b),
        from <= total,
    ensures
        all_spare(a.configure_interrupt_ops(), b),
        all_spare(a.reload_ops(), b),
        all_spare(a.poll_interrupt_ops(timed_out), b),
        all_spare(a.interrupt_send_ops(from, total), b),
        all_spare(a.retire_ops(), b),
{
    endpoint_bits_are_disjoint(a.index, b.index);
    let x = spec_int_ep_bit(b.index);
    assert(0u32 & x == 0) by (bit_vector);
}

/// The toggle that the next transfer of an interrupt pipe starts with.
pub open spec fn next_pid(c: Channel, pipes: InterruptPipeState) -> bool {
    c.pid != set16(pipes.toggle_owed).contains(c.index as int)
}

/// Cancelling a transfer and starting the next counts the cancelled packet once if it moved, and
/// not at all if it did not. `pipes` is the state before the cancelled transfer was settled and
/// `settled` the one after; `next` and `begun` are the pipe and the state once the next transfer
/// has begun.
pub proof fn cancelled_packet_is_counted_once(
    c: Channel,
    pipes: InterruptPipeState,
    settled: InterruptPipeState,
    moved: bool,
    next: Channel,
    begun: InterruptPipeState,
)
    requires
        c.wf(),
        c.is_interrupt(),
        !set16(pipes.toggle_owed).contains(c.index as int),
        set16(settled.toggle_owed) == if moved {
            set16(pipes.toggle_owed).insert(c.index as int)
        } else {
            set16(pipes.toggle_owed)
        },
        next == c.settled(settled),
        set16(begun.toggle_owed) == set16(settled.toggle_owed).remove(c.index as int),
    ensures
        next_pid(c, settled) == (c.pid != moved),
        next.pid == next_pid(c, settled),
        next_pid(next, begun) == next.pid,
{
}

} // verus!
