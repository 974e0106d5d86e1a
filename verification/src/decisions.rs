//! What the driver's decisions mean to a pipe and to its caller.

use vstd::prelude::*;
use crate::arbiter::{error_field, EpxError};
use crate::bits::{range, set16, set64};
use crate::channel::{Channel, InterruptTransferGuard};
use crate::effects::{
    data_in_is_armed_as_asked, data_out_is_armed_as_asked,
    dedicated_endpoint_is_armed_to_receive, dedicated_endpoint_is_configured_for_the_pipe,
    dedicated_endpoint_sends_as_asked, epx_is_configured_for_the_pipe, hands_over, type_code,
};
use crate::epx::{blocks_of, can_hold, fits, is_first_fit, spec_packet_moved, EpxState};
use crate::epx_transaction::{EpxTransaction, Request};
use crate::host::{describes, event_for, HostState};
use crate::interrupt_pipes::{wakes_ep_in, InterruptPipeState};
use crate::interrupt_transfer::{InterruptPhase, InterruptRead, InterruptStep, InterruptWrite};
use crate::irq::{
    after_sof, buff_status_ops, cause_handled, cause_next, cause_ops, nak_stopped, signalled,
    signalled_ops, sof_ops, sof_outcome, spec_cause, IrqCause, IrqNext, SofOutcome,
};
use crate::layout::{EPX_BLOCK_SIZE, EPX_BUFFER_OFFSET, EP_COUNT, EP_MEMORY_SIZE};
use crate::regs::{
    buffer_word_reads_back, flag, lemma_run_concat, lemma_run_short, run, spec_buff_status_bits,
    spec_buffer_word, Op, Reg, Waker, ADDR_INTEP_DIR, ADDR_INTEP_PREAMBLE,
    BUF_AVAILABLE, BUF_FULL, BUF_PID, INT_BUFF_STATUS, INT_EPX_STOPPED_ON_NAK,
    INT_ERROR_BIT_STUFF, INT_ERROR_CRC, INT_ERROR_DATA_SEQ, INT_ERROR_RX_OVERFLOW,
    INT_ERROR_RX_TIMEOUT, INT_HOST_CONN_DIS, INT_HOST_RESUME, INT_HOST_SOF, INT_STALL,
    INT_TRANS_COMPLETE, SIE_PREAMBLE_EN, SIE_RECEIVE_DATA, SIE_SEND_DATA, SIE_SEND_SETUP,
    SIE_STOP_TRANS, STATUS_BIT_STUFF_ERROR, STATUS_CRC_ERROR, STATUS_DATA_SEQ_ERROR, STATUS_RESUME,
    STATUS_RX_OVERFLOW, STATUS_STALL_REC, STATUS_TRANS_COMPLETE,
};
use crate::transaction::{EpxTransactionGuard, TransactionNext, TransactionStatus};
use crate::transfer::{
    spec_setup_length, write_takes_packets_left, ControlStage, ControlTransfer, EpxRead,
    PacketWriter, ReadStep, WritePhase,
};
use crate::types::{
    Chip, DeviceEvent, EndpointInfo, EndpointType, HostError, PipeDirection, PipeError, Speed,
    SplitInfo,
};

verus! {

// Transactions on EPX.

/// A pipe whose transaction was stopped at a NAK for the sake of another queues again and repeats
/// it, whatever it carries, unless it is isochronous: that packet cannot be replayed in a later
/// frame, so the caller is told.
pub proof fn stopped_pipe_queues_again(
    c: Channel,
    epx: EpxState,
    next: EpxState,
    sie_status: u32,
)
    requires
        c.wf(),
        c.ep_type != EndpointType::Interrupt,
        epx.current_channel == c.index,
        !epx.arbiter.has_outcome(c.epx_slot() as int),
        epx.is_yield(next, c.index, false),
    ensures
        ({
            let told = match c.outcome_of(next, sie_status) {
                Some(result) => Some(c.next_of(result)),
                None => None,
            };
            let canceled = TransactionNext::Return(Err::<(), PipeError>(PipeError::Canceled));
            &&& c.ep_type == EndpointType::Control ==> told == Some(TransactionNext::Retry)
            &&& c.ep_type == EndpointType::Bulk ==> told == Some(TransactionNext::Retry)
            &&& c.ep_type == EndpointType::Isochronous ==> told == Some(canceled)
        }),
{
}

/// Of the ways in which a transaction can end, only a yield is kept from the caller, and only on a
/// pipe that is not isochronous; completion, a timeout and every error are passed on as they are.
pub proof fn outcome_is_passed_on(c: Channel, result: Result<TransactionStatus, PipeError>)
    ensures
        result matches Err(e) ==> c.next_of(result) == TransactionNext::Return(
            Err::<(), PipeError>(e),
        ),
        result matches Ok(TransactionStatus::Complete) ==> c.next_of(result)
            == TransactionNext::Return(Ok::<(), PipeError>(())),
        result matches Ok(TransactionStatus::Timeout) ==> c.next_of(result)
            == TransactionNext::Return(Err::<(), PipeError>(PipeError::Timeout)),
        result matches Ok(TransactionStatus::NakYield) ==> (c.next_of(result)
            == TransactionNext::Retry <==> c.ep_type != EndpointType::Isochronous),
        c.next_of(result) == TransactionNext::Retry ==> result == Ok::<
            TransactionStatus,
            PipeError,
        >(TransactionStatus::NakYield),
{
}

/// A transaction that ended other than by completion or a timeout may still be running in the
/// controller, so its guard stays armed and letting EPX go stops it first.
pub proof fn unfinished_transaction_is_stopped(
    t: EpxTransaction,
    result: Result<TransactionStatus, PipeError>,
    epx: EpxState,
    chip: Chip,
)
    requires
        t.guard.transaction_active,
    ensures
        result is Err || result->Ok_0 == TransactionStatus::NakYield ==> {
            let ops = t.guard_after(result).release_ops(epx, chip);
            ops.len() > 0 && ops[0] == Op::Modify(Reg::SieCtrl, 0, SIE_STOP_TRANS)
        },
        result matches Ok(TransactionStatus::Complete) ==> !t.guard_after(
            result,
        ).transaction_active,
        result matches Ok(TransactionStatus::Timeout) ==> !t.guard_after(result).transaction_active,
{
}

/// With nothing recorded for the pipe, a transaction ends as the controller latched it: completion
/// before a stall before an overflow. Nothing latched means that it is still running. Only the
/// reported bit is cleared.
pub proof fn latched_outcome_is_reported(
    c: Channel,
    epx: EpxState,
    sie_status: u32,
    regs: Map<Reg, u32>,
)
    requires
        c.wf(),
        c.ep_type != EndpointType::Interrupt,
        !epx.arbiter.has_outcome(c.epx_slot() as int),
        regs[Reg::SieStatus] == sie_status,
    ensures
        ({
            let told = c.outcome_of(epx, sie_status);
            let after = run(regs, c.outcome_ops(epx, sie_status));
            let complete = flag(sie_status, STATUS_TRANS_COMPLETE);
            let stall = flag(sie_status, STATUS_STALL_REC);
            let overflow = flag(sie_status, STATUS_RX_OVERFLOW);
            &&& complete ==> {
                &&& told == Some(Ok::<TransactionStatus, PipeError>(TransactionStatus::Complete))
                &&& after == regs.insert(Reg::SieStatus, sie_status & !STATUS_TRANS_COMPLETE)
            }
            &&& !complete && stall ==> {
                &&& told == Some(Err::<TransactionStatus, PipeError>(PipeError::Stall))
                &&& after == regs.insert(Reg::SieStatus, sie_status & !STATUS_STALL_REC)
            }
            &&& !complete && !stall && overflow ==> {
                &&& told == Some(Err::<TransactionStatus, PipeError>(PipeError::BufferOverflow))
                &&& after == regs.insert(Reg::SieStatus, sie_status & !STATUS_RX_OVERFLOW)
            }
            &&& !complete && !stall && !overflow ==> told is None && after == regs
        }),
{
    let ops = c.outcome_ops(epx, sie_status);
    if ops.len() > 0 {
        lemma_run_short(regs, ops[0], ops[0], ops[0]);
        assert(ops =~= seq![ops[0]]);
    }
}

/// What the interrupt recorded for a pipe comes before what the controller latched, an error
/// before a completion before a yield, and without a step; each is reported once.
pub proof fn recorded_outcome_comes_first(
    c: Channel,
    epx: EpxState,
    next: EpxState,
    sie_status: u32,
)
    requires
        c.wf(),
        c.ep_type != EndpointType::Interrupt,
        epx.arbiter.has_outcome(c.epx_slot() as int),
        c.outcome_consumed(epx, next),
    ensures
        ({
            let slot = c.epx_slot() as int;
            let told = c.outcome_of(epx, sie_status);
            let complete = Some(Ok::<TransactionStatus, PipeError>(TransactionStatus::Complete));
            let stopped = Some(Ok::<TransactionStatus, PipeError>(TransactionStatus::NakYield));
            &&& c.outcome_ops(epx, sie_status) == Seq::<Op>::empty()
            &&& match epx.arbiter.error_of(slot) {
                Some(EpxError::BadResponse) => told == Some(
                    Err::<TransactionStatus, PipeError>(PipeError::BadResponse),
                ),
                Some(EpxError::DataToggle) => told == Some(
                    Err::<TransactionStatus, PipeError>(PipeError::DataToggleError),
                ),
                None => told == if set16(epx.arbiter.completed).contains(slot) {
                    complete
                } else {
                    stopped
                },
            }
            &&& next.arbiter.error_of(slot) is None
            &&& told == complete ==> !set16(next.arbiter.completed).contains(slot)
            &&& told == stopped ==> !next.arbiter.has_outcome(slot)
        }),
{
    assert(error_field(next.arbiter.error, c.epx_slot() as int) == 0);
}

/// A transaction that overran its deadline still counts if it had completed: a setup by the
/// latched completion, a data packet by its buffer.
pub proof fn late_completion_counts(setup: bool, sie_status: u32, buffer: u32, sie_ctrl: u32)
    ensures
        setup ==> (Channel::completed_in_time(setup, sie_status, buffer, sie_ctrl) <==> flag(
            sie_status,
            STATUS_TRANS_COMPLETE,
        )),
        !setup && flag(sie_ctrl, SIE_SEND_DATA) ==> (Channel::completed_in_time(
            setup,
            sie_status,
            buffer,
            sie_ctrl,
        ) <==> !flag(buffer, BUF_AVAILABLE) && !flag(buffer, BUF_FULL)),
        !setup && !flag(sie_ctrl, SIE_SEND_DATA) ==> (Channel::completed_in_time(
            setup,
            sie_status,
            buffer,
            sie_ctrl,
        ) <==> !flag(buffer, BUF_AVAILABLE) && flag(buffer, BUF_FULL)),
{
}

/// At its deadline a transaction either succeeds, exactly if it had completed, or times out; it is
/// not tried again.
pub proof fn deadline_decides(c: Channel, setup: bool, sie_status: u32, buffer: u32, sie_ctrl: u32)
    ensures
        ({
            let next = c.next_of(
                Ok(Channel::status_after_deadline(setup, sie_status, buffer, sie_ctrl)),
            );
            let completed = if setup {
                flag(sie_status, STATUS_TRANS_COMPLETE)
            } else {
                !flag(buffer, BUF_AVAILABLE) && flag(buffer, BUF_FULL) != flag(
                    sie_ctrl,
                    SIE_SEND_DATA,
                )
            };
            &&& completed ==> next == TransactionNext::Return(Ok::<(), PipeError>(()))
            &&& !completed ==> next == TransactionNext::Return(
                Err::<(), PipeError>(PipeError::Timeout),
            )
        }),
{
}

/// A packet that was armed has moved once the controller has given its buffer back with the full
/// bit turned over: filled by a receive, emptied by a send. As long as the controller owns the
/// buffer, and when it was merely taken back, it has not.
pub proof fn moved_packet_turns_the_full_bit(last: bool, pid: bool, is_out: bool, length: u16)
    ensures
        ({
            let armed = spec_buffer_word(last, pid, is_out, length);
            let taken_back = armed & !BUF_AVAILABLE;
            let moved = if is_out {
                taken_back & !BUF_FULL
            } else {
                taken_back | BUF_FULL
            };
            &&& !spec_packet_moved(armed, is_out)
            &&& !spec_packet_moved(taken_back, is_out)
            &&& spec_packet_moved(moved, is_out)
        }),
{
    buffer_word_reads_back(last, pid, is_out, length);
    lemma_full_bit(spec_buffer_word(last, pid, is_out, length));
}

proof fn lemma_full_bit(w: u32)
    by (bit_vector)
    ensures
        (w & !0x400u32) & 0x400 == 0,
        ((w & !0x400u32) & !0x8000u32) & 0x400 == 0,
        ((w & !0x400u32) | 0x8000u32) & 0x400 == 0,
        (w & !0x400u32) & 0x8000 == w & 0x8000,
        ((w & !0x400u32) & !0x8000u32) & 0x8000 == 0,
        ((w & !0x400u32) | 0x8000u32) & 0x8000 != 0,
{
}

/// Any pipe may take a free EPX that nobody is queued for, and a pipe that is queued alone has the
/// turn. A pipe that holds EPX may run whoever is queued.
pub proof fn lone_pipe_may_run(c: Channel, epx: EpxState)
    requires
        c.wf(),
        c.ep_type != EndpointType::Interrupt,
    ensures
        epx.current_channel == c.index ==> c.may_run(epx),
        epx.current_channel == 0 && set16(epx.arbiter.waiting) == Set::<int>::empty() ==> c.may_run(
            epx,
        ),
        epx.current_channel == 0 && set16(epx.arbiter.waiting) == set![c.index - EP_COUNT]
            ==> c.may_run(epx),
        c.may_run(epx) ==> epx.current_channel == 0 || epx.current_channel == c.index,
        epx.current_channel == 0 && set16(epx.arbiter.waiting) != Set::<int>::empty() && !set16(
            epx.arbiter.waiting,
        ).contains(c.index - EP_COUNT) ==> !c.may_run(epx),
{
}

/// A guard lets EPX go unless another pipe has taken it meanwhile; then its pipe is the last holder
/// that the rotation counts from, nothing is armed, and the queue is as it was.
pub proof fn guard_lets_go_unless_taken(
    guard: EpxTransactionGuard,
    epx: EpxState,
    next: EpxState,
    chip: Chip,
)
    requires
        guard.wf(),
    ensures
        guard.releases(epx) <==> epx.current_channel == guard.index || epx.current_channel == 0,
        guard.is_release(epx, next, chip) ==> {
            &&& next.current_channel == 0
            &&& next.arbiter.last == guard.index - 16
            &&& !next.arbiter.armed
            &&& next.arbiter.waiting == epx.arbiter.waiting
            &&& next.allocated_slots == epx.allocated_slots
            &&& next.used_blocks == epx.used_blocks
            &&& chip == Chip::Rp2040 ==> !next.arbiter.switch_requested
        },
{
}

/// A polled endpoint is charged with a latched receive timeout only while nobody holds EPX and no
/// transaction is armed on it.
pub proof fn busy_epx_is_not_idle(epx: EpxState)
    ensures
        epx.is_idle() <==> epx.current_channel == 0 && !epx.arbiter.armed,
{
}

/// Progress restarts the count of frames on RP2040 and changes nothing else; RP235x counts none.
pub proof fn progress_drops_the_switch_request(epx: EpxState)
    ensures
        ({
            let next = epx.without_switch_request(Chip::Rp2040);
            &&& !next.arbiter.switch_requested
            &&& next.arbiter.waiting == epx.arbiter.waiting
            &&& next.arbiter.last == epx.arbiter.last
            &&& next.current_channel == epx.current_channel
            &&& epx.without_switch_request(Chip::Rp235x) == epx
        }),
{
}

// Data toggles.

/// Advancing the toggle turns DATA0 into DATA1 and back on every pipe but an isochronous one, and
/// changes nothing else.
pub proof fn toggle_flips(c: Channel)
    ensures
        c.ep_type != EndpointType::Isochronous ==> c.toggled().pid == !c.pid,
        c.ep_type == EndpointType::Isochronous ==> c.toggled() == c,
        c.toggled().toggled() == c,
        (Channel { pid: c.pid, ..c.toggled() }) == c,
{
}

/// Successive packets over EPX alternate between DATA0 and DATA1 on control and bulk pipes,
/// whether read or written, starting with the pipe's toggle; isochronous packets all carry DATA0.
pub proof fn epx_packets_alternate(
    c: Channel,
    read: EpxRead,
    writer: PacketWriter,
    next_read: EpxRead,
    next_writer: PacketWriter,
    regs: Map<Reg, u32>,
)
    requires
        c.wf(),
        c.ep_type != EndpointType::Interrupt,
        read.wf(),
        next_read.wf(),
        writer.wf(),
        next_writer.wf(),
    ensures
        ({
            let d = c.toggled();
            let reg = Reg::EpInBufferControl(0);
            let read_pid = flag(run(regs, read.request(&c).ops(c))[reg], BUF_PID);
            let next_read_pid = flag(run(regs, next_read.request(&d).ops(d))[reg], BUF_PID);
            let sent_pid = flag(run(regs, writer.request(&c).ops(c))[reg], BUF_PID);
            let next_sent_pid = flag(run(regs, next_writer.request(&d).ops(d))[reg], BUF_PID);
            &&& c.ep_type != EndpointType::Isochronous ==> {
                &&& read_pid == c.pid
                &&& sent_pid == c.pid
                &&& next_read_pid == !c.pid
                &&& next_sent_pid == !c.pid
            }
            &&& c.ep_type == EndpointType::Isochronous ==> !read_pid && !sent_pid
        }),
{
    let d = c.toggled();
    data_in_is_armed_as_asked(c, c.packet_len(read.len - read.count) as u16, c.pid, regs);
    data_in_is_armed_as_asked(d, d.packet_len(next_read.len - next_read.count) as u16, d.pid, regs);
    data_out_is_armed_as_asked(c, writer.count, writer.total, c.pid, regs);
    data_out_is_armed_as_asked(d, next_writer.count, next_writer.total, d.pid, regs);
}

/// Successive packets on a dedicated endpoint alternate between DATA0 and DATA1, whether received
/// or sent, starting with the pipe's toggle.
pub proof fn dedicated_packets_alternate(
    c: Channel,
    from: usize,
    next_from: usize,
    total: usize,
    regs: Map<Reg, u32>,
)
    requires
        c.wf(),
        c.ep_type == EndpointType::Interrupt,
        from <= total,
        next_from <= total,
    ensures
        ({
            let d = c.toggled();
            let reg = Reg::EpInBufferControl(c.index);
            &&& flag(run(regs, c.reload_ops())[reg], BUF_PID) == c.pid
            &&& flag(run(regs, d.reload_ops())[reg], BUF_PID) == !c.pid
            &&& flag(run(regs, c.interrupt_send_ops(from, total))[reg], BUF_PID) == c.pid
            &&& flag(run(regs, d.interrupt_send_ops(next_from, total))[reg], BUF_PID) == !c.pid
        }),
{
    let d = c.toggled();
    dedicated_endpoint_is_armed_to_receive(c, regs);
    dedicated_endpoint_is_armed_to_receive(d, regs);
    dedicated_endpoint_sends_as_asked(c, from, total, regs);
    dedicated_endpoint_sends_as_asked(d, next_from, total, regs);
}

/// The guard of a transfer on a dedicated endpoint watches that endpoint and knows which way its
/// packets go, so it tells a moved packet from one that was merely armed.
pub proof fn guard_knows_the_direction(
    read: InterruptRead,
    write: InterruptWrite,
    c: Channel,
    d: Channel,
)
    requires
        read.inv(c),
        write.inv(d),
    ensures
        read.guard.index == c.index,
        read.guard.is_out == (c.dir != PipeDirection::In),
        write.guard.index == d.index,
        write.guard.is_out,
{
}

// Control transfers.

/// The length of a data stage is the little-endian number in the last two bytes of the setup
/// packet.
pub proof fn announced_length(setup: Seq<u8>)
    ensures
        spec_setup_length(setup) == setup[6] + 256 * setup[7],
{
}

/// The transactions of a control transfer have the budget for requests with a data stage exactly
/// if the setup packet announces data, as far as it fits in 64 bits of microseconds.
pub proof fn budget_follows_the_data_stage(c: Channel, setup: Seq<u8>)
    ensures
        ({
            let begun = ControlTransfer::pipe_begun(c, setup);
            let us = if setup[6] != 0 || setup[7] != 0 {
                c.timeout.data_timeout_us
            } else {
                c.timeout.no_data_timeout_us
            };
            &&& us <= u64::MAX ==> begun.control_timeout_us == Some(us as u64)
            &&& us > u64::MAX ==> begun.control_timeout_us == Some(u64::MAX)
            &&& (Channel { control_timeout_us: c.control_timeout_us, ..begun }) == c
        }),
{
}

/// The status stage of a control transfer is an empty packet against the direction of the data,
/// and it is armed with DATA1.
pub proof fn status_goes_against_the_data(t: ControlTransfer, c: Channel, regs: Map<Reg, u32>)
    requires
        c.wf(),
        c.ep_type == EndpointType::Control,
        t.stage == ControlStage::Status,
    ensures
        ({
            let after = run(regs, t.spec_request().ops(c));
            &&& hands_over(after[Reg::EpInBufferControl(0)], true, !t.out, 0)
            &&& flag(after[Reg::SieCtrl], SIE_RECEIVE_DATA) == t.out
            &&& flag(after[Reg::SieCtrl], SIE_SEND_DATA) == !t.out
            &&& !flag(after[Reg::SieCtrl], SIE_SEND_SETUP)
        }),
{
    data_in_is_armed_as_asked(c, 0, true, regs);
    data_out_is_armed_as_asked(c, 0, 0, true, regs);
}

/// A control transfer starts with its setup packet, its data stage starts with DATA1 in either
/// direction, and it leaves the pipe at DATA0 with no budget running; an error also ends the
/// budget. The caller hears nothing before the last stage, then how much the data stage moved.
pub proof fn control_transfer_course(
    t: ControlTransfer,
    c: Channel,
    n: usize,
    e: PipeError,
    regs: Map<Reg, u32>,
)
    requires
        c.wf(),
        c.ep_type == EndpointType::Control,
        c.max_packet_size > 0,
        t.stage == ControlStage::Setup,
        t.wf(),
        0 < spec_setup_length(t.setup@),
    ensures
        ({
            let data = t.after_stage(Ok(0));
            let status = data.after_stage(Ok(n));
            let c1 = t.pipe_after_stage(c, Ok(0));
            let c3 = status.pipe_after_stage(c1, Ok(0));
            let reg = Reg::EpInBufferControl(0);
            &&& t.spec_request() == Request::Setup(t.setup)
            &&& data.stage == ControlStage::Data
            &&& data.data_read().len == t.setup[6] + 256 * t.setup[7]
            &&& data.data_read().count == 0
            &&& data.data_write().total == t.setup[6] + 256 * t.setup[7]
            &&& data.data_write().count == 0
            &&& !data.data_write().ensure_transaction_end
            &&& flag(run(regs, data.data_read().request(&c1).ops(c1))[reg], BUF_PID)
            &&& flag(run(regs, data.data_write().request(&c1).ops(c1))[reg], BUF_PID)
            &&& data.pipe_after_stage(c1, Ok(n)) == c1
            &&& !c3.pid
            &&& c3.control_timeout_us is None
            &&& c1.control_timeout_us == c.control_timeout_us
            &&& t.result_after_stage(Ok(0)) is None
            &&& data.result_after_stage(Ok(n)) is None
            &&& status.result_after_stage(Ok(0)) == Some(Ok::<usize, PipeError>(n))
            &&& t.result_after_stage(Err(e)) == Some(Err::<usize, PipeError>(e))
            &&& data.result_after_stage(Err(e)) == Some(Err::<usize, PipeError>(e))
            &&& status.result_after_stage(Err(e)) == Some(Err::<usize, PipeError>(e))
            &&& t.pipe_after_stage(c, Err(e)) == (Channel { control_timeout_us: None, ..c })
            &&& data.pipe_after_stage(c, Err(e)) == (Channel { control_timeout_us: None, ..c })
            &&& status.pipe_after_stage(c, Err(e)) == (Channel { control_timeout_us: None, ..c })
        }),
{
    let data = t.after_stage(Ok(0));
    let c1 = t.pipe_after_stage(c, Ok(0));
    let r = data.data_read();
    let w = data.data_write();
    data_in_is_armed_as_asked(c1, c1.packet_len(r.len - r.count) as u16, c1.pid, regs);
    data_out_is_armed_as_asked(c1, w.count, w.total, c1.pid, regs);
}

// Reads and writes.

/// A read asks for what is missing, at most a full packet.
pub proof fn read_asks_for_what_is_missing(r: EpxRead, c: Channel)
    requires
        r.wf(),
    ensures
        r.request(&c) matches Request::DataIn { len, pid } && pid == c.pid && len == if r.len
            - r.count < c.max_packet_size {
            r.len - r.count
        } else {
            c.max_packet_size as int
        },
{
}

/// A packet that fits is appended to what was read, from the start of the pipe's buffer, and
/// counted; the read goes on exactly after a full packet that leaves room. One that does not fit
/// is refused and not copied.
pub proof fn packet_is_appended(r: EpxRead, c: Channel, buffer: u32)
    requires
        r.wf(),
    ensures
        ({
            let n = (buffer & 0x3ff) as int;
            let room = r.len - r.count;
            let step = r.step_after(c.max_packet_size, buffer);
            &&& n <= room ==> {
                &&& r.packet_ops(c, buffer) == seq![
                    Op::CopyIn { addr: c.buf.addr, at: r.count, len: n as usize },
                ]
                &&& r.after_packet(buffer).count == r.count + n
            }
            &&& n > room ==> {
                &&& step == ReadStep::Done(Err::<usize, PipeError>(PipeError::BufferOverflow))
                &&& r.packet_ops(c, buffer) == Seq::<Op>::empty()
                &&& r.after_packet(buffer) == r
            }
            &&& step == ReadStep::More <==> n < room && n >= c.max_packet_size
            &&& n <= room && step != ReadStep::More ==> step == ReadStep::Done(
                Ok::<usize, PipeError>((r.count + n) as usize),
            )
        }),
{
    assert(buffer & 0x3ff <= 0x3ff) by {
        lemma_length_field(buffer);
    }
}

proof fn lemma_length_field(w: u32)
    by (bit_vector)
    ensures
        w & 0x3ff <= 0x3ff,
{
}

/// A write takes one packet for every started packet size, at least one, and an empty one behind
/// a full last packet exactly if that was asked for.
pub proof fn write_packet_count(total: usize, ensure_transaction_end: bool, mps: int)
    requires
        0 < mps,
    ensures
        ({
            let w = PacketWriter {
                total,
                ensure_transaction_end,
                count: 0,
                phase: WritePhase::Data,
            };
            &&& total == 0 ==> w.packets_left(mps) == 1
            &&& total > 0 && (!ensure_transaction_end || total as int % mps != 0)
                ==> w.packets_left(mps) == (total + mps - 1) / mps
            &&& total > 0 && ensure_transaction_end && total as int % mps == 0
                ==> w.packets_left(mps) == (total + mps - 1) / mps + 1
        }),
{
}

/// The packet that a writer has armed, on EPX or on a dedicated endpoint, carries exactly the bytes
/// that the writer counts as sent with it.
pub proof fn armed_packet_is_the_counted_one(w: PacketWriter, c: Channel, pid: bool)
    requires
        w.wf(),
        w.phase != WritePhase::Done,
        c.max_packet_size > 0,
    ensures
        ({
            let next = w.after_packet(c.max_packet_size as int);
            let copy = Op::CopyOut {
                addr: c.buf.addr,
                from: w.count,
                len: (next.count - w.count) as usize,
            };
            &&& w.request(&c) == Request::DataOut { from: w.count, total: w.total, pid: c.pid }
            &&& c.data_out_ops(w.count, w.total, pid)[0] == copy
            &&& c.interrupt_send_ops(w.count, w.total)[0] == copy
        }),
{
}

// Pipes.

/// Every byte of a packet has room in the pipe's blocks, and one block fewer would not hold it.
pub proof fn blocks_hold_the_bytes(len: int)
    requires
        0 < len,
    ensures
        blocks_of(len) * EPX_BLOCK_SIZE >= len,
        (blocks_of(len) - 1) * EPX_BLOCK_SIZE < len,
{
}

/// A gap of free blocks is never overlooked: where one is large enough, a buffer can be had, and
/// the one given lies no higher.
pub proof fn gap_is_not_overlooked(used: Set<int>, start: int, len: int, given: int)
    requires
        0 < len,
        0 <= start,
        EPX_BUFFER_OFFSET + (start + blocks_of(len)) * EPX_BLOCK_SIZE <= EP_MEMORY_SIZE,
        forall|b: int| start <= b < start + blocks_of(len) ==> !#[trigger] used.contains(b),
    ensures
        can_hold(used, len),
        is_first_fit(used, given, blocks_of(len)) ==> {
            &&& given <= start
            &&& forall|b: int|
                given <= b < given + blocks_of(len) ==> !#[trigger] used.contains(b)
            &&& EPX_BUFFER_OFFSET + (given + blocks_of(len)) * EPX_BLOCK_SIZE <= EP_MEMORY_SIZE
        },
{
    assert(used.disjoint(range(start, start + blocks_of(len))));
    assert(fits(used, start, blocks_of(len)));
    if is_first_fit(used, given, blocks_of(len)) {
        assert forall|b: int| given <= b < given + blocks_of(len) implies !#[trigger] used.contains(
            b,
        ) by {
            assert(range(given, given + blocks_of(len)).contains(b));
        }
    }
}

/// A pipe's slot is its place behind the dedicated endpoints; no other index has one.
pub proof fn slots_count_from_the_endpoints(index: usize)
    ensures
        index < 16 ==> EpxState::slot(index) is None,
        16 <= index < 32 ==> EpxState::slot(index) == Some((index - 16) as usize),
        index >= 32 ==> EpxState::slot(index) is None,
        forall|c: Channel|
            c.wf() && c.ep_type != EndpointType::Interrupt && c.index == index
                ==> #[trigger] c.epx_slot() == index - 16,
{
}

/// An interrupt endpoint is refused for its packet size, then for want of an endpoint; any other
/// for want of a slot, then of memory.
pub proof fn refusal_has_its_reason(state: HostState, endpoint: EndpointInfo)
    ensures
        endpoint.ep_type == EndpointType::Interrupt ==> {
            let bad_size = endpoint.max_packet_size == 0 || endpoint.max_packet_size > 64;
            &&& bad_size ==> state.refusal(endpoint) == Some(HostError::InvalidDescriptor)
            &&& !bad_size ==> (state.refusal(endpoint) == Some(HostError::OutOfPipes) <==> forall|
                i: int,
            |
                1 <= i < 16 ==> #[trigger] set16(state.interrupt_pipes.allocated).contains(i))
            &&& !bad_size ==> state.refusal(endpoint) is None || state.refusal(endpoint) == Some(
                HostError::OutOfPipes,
            )
        },
        endpoint.ep_type != EndpointType::Interrupt ==> {
            &&& state.refusal(endpoint) == Some(HostError::OutOfPipes) <==> forall|s: int|
                0 <= s < 16 ==> #[trigger] set16(state.epx.allocated_slots).contains(s)
            &&& state.refusal(endpoint) != Some(HostError::InvalidDescriptor)
            &&& endpoint.max_packet_size == 0 ==> state.refusal(endpoint) is Some
            &&& state.refusal(endpoint) != Some(HostError::OutOfPipes) ==> (state.refusal(endpoint)
                is None <==> can_hold(
                set64(state.epx.used_blocks),
                endpoint.max_packet_size as int,
            ))
            &&& state.refusal(endpoint) is None || state.refusal(endpoint) == Some(
                HostError::OutOfPipes,
            ) || state.refusal(endpoint) == Some(HostError::InsufficientMemory)
        },
{
    let taken = set16(state.interrupt_pipes.allocated);
    let slots = set16(state.epx.allocated_slots);
    if forall|i: int| 1 <= i < 16 ==> #[trigger] taken.contains(i) {
        assert(range(1, 16).subset_of(taken));
    }
    if range(1, 16).subset_of(taken) {
        assert forall|i: int| 1 <= i < 16 implies #[trigger] taken.contains(i) by {
            assert(range(1, 16).contains(i));
        }
    }
    if forall|s: int| 0 <= s < 16 ==> #[trigger] slots.contains(s) {
        assert(range(0, 16).subset_of(slots));
    }
    if range(0, 16).subset_of(slots) {
        assert forall|s: int| 0 <= s < 16 implies #[trigger] slots.contains(s) by {
            assert(range(0, 16).contains(s));
        }
    }
}

/// A new pipe speaks to the device and endpoint it was opened for: once it is configured, the
/// controller has that address, endpoint number, direction, type and preamble.
pub proof fn controller_addresses_the_device(
    c: Channel,
    endpoint: EndpointInfo,
    dir: PipeDirection,
    dev_addr: u8,
    split: Option<SplitInfo>,
    regs: Map<Reg, u32>,
)
    requires
        c.wf(),
        describes(c, endpoint, dir, dev_addr, split),
    ensures
        ({
            let low_speed_behind_hub = match split {
                Some(s) => s.device_speed == Speed::Low,
                None => false,
            };
            let epx = run(regs, c.configure_epx_ops());
            let own = run(regs, c.configure_interrupt_ops());
            let addr = own[Reg::AddrEndpX((c.index - 1) as usize)];
            &&& c.max_packet_size == endpoint.max_packet_size
            &&& !c.pid
            &&& endpoint.ep_type != EndpointType::Interrupt ==> {
                &&& epx[Reg::AddrEndp] & 0x7f == dev_addr % 128
                &&& (epx[Reg::AddrEndp] >> 16) & 0xf == endpoint.addr % 16
                &&& (epx[Reg::EpxControl] >> 26) & 3 == type_code(endpoint.ep_type)
                &&& flag(epx[Reg::SieCtrl], SIE_PREAMBLE_EN) == low_speed_behind_hub
            }
            &&& endpoint.ep_type == EndpointType::Interrupt ==> {
                &&& addr & 0x7f == dev_addr % 128
                &&& (addr >> 16) & 0xf == endpoint.addr % 16
                &&& flag(addr, ADDR_INTEP_DIR) == (dir != PipeDirection::In)
                &&& flag(addr, ADDR_INTEP_PREAMBLE) == low_speed_behind_hub
                &&& (own[Reg::EpInControl((c.index - 1) as usize)] >> 16) & 0x3ff == if endpoint
                    .interval_ms == 0 {
                    0
                } else {
                    endpoint.interval_ms - 1
                }
            }
        }),
{
    epx_is_configured_for_the_pipe(c, regs);
    if c.ep_type == EndpointType::Interrupt {
        dedicated_endpoint_is_configured_for_the_pipe(c, regs);
    }
}

/// A receive timeout that was charged to the armed endpoints is what each of them hears next, and
/// no other endpoint; without one, a buffer is idle exactly once the controller has given it back.
pub proof fn charged_timeout_is_heard(
    c: Channel,
    pipes: InterruptPipeState,
    charged: InterruptPipeState,
    buffer: u32,
)
    requires
        !set16(pipes.timed_out).contains(c.index as int),
        set16(charged.timed_out) == set16(pipes.timed_out).union(set16(pipes.armed_in)),
    ensures
        ({
            let timeout = Some(Err::<(), PipeError>(PipeError::Timeout));
            let idle = Some(Ok::<(), PipeError>(()));
            &&& set16(pipes.armed_in).contains(c.index as int) <==> c.released(charged, buffer)
                == timeout
            &&& c.released(pipes, buffer) == idle <==> !flag(buffer, BUF_AVAILABLE)
            &&& c.released(pipes, buffer) is None <==> flag(buffer, BUF_AVAILABLE)
        }),
{
}

/// Only a pipe that carries nothing but IN looks at the receive timeout while it waits, at its
/// polling interval, and never more often than every millisecond.
pub proof fn receive_timeout_is_sampled(c: Channel)
    ensures
        c.rx_timeout_poll_ms() is Some <==> c.dir == PipeDirection::In,
        c.rx_timeout_poll_ms() matches Some(ms) ==> {
            &&& ms >= 1
            &&& c.interval >= 1 ==> ms == c.interval
            &&& c.interval == 0 ==> ms == 1
        },
{
}

/// The root port reports a change exactly when a device is there that was not, or is gone that
/// was; an attach comes with the device's speed.
pub proof fn port_reports_changes(was: bool, speed: u32)
    ensures
        event_for(was, speed) is Some <==> was != (speed == 1 || speed == 2),
        event_for(was, speed) == Some(DeviceEvent::Disconnected) <==> was && speed != 1 && speed
            != 2,
        event_for(was, speed) == Some(DeviceEvent::Connected(Speed::Low)) <==> !was && speed == 1,
        event_for(was, speed) == Some(DeviceEvent::Connected(Speed::Full)) <==> !was && speed == 2,
{
}

// The interrupt.

/// The bit that raises a cause.
pub open spec fn raised_by(cause: IrqCause) -> u32 {
    match cause {
        IrqCause::HostConnDis => INT_HOST_CONN_DIS,
        IrqCause::HostResume => INT_HOST_RESUME,
        IrqCause::Stall => INT_STALL,
        IrqCause::RxOverflow => INT_ERROR_RX_OVERFLOW,
        IrqCause::TransComplete => INT_TRANS_COMPLETE,
        IrqCause::RxTimeout => INT_ERROR_RX_TIMEOUT,
        IrqCause::BuffStatus => INT_BUFF_STATUS,
        IrqCause::CrcError => INT_ERROR_CRC,
        IrqCause::BitStuffError => INT_ERROR_BIT_STUFF,
        IrqCause::DataSeqError => INT_ERROR_DATA_SEQ,
        IrqCause::HostSof => INT_HOST_SOF,
        IrqCause::Unknown => 0,
    }
}

/// The place of a cause in the order of handling.
pub open spec fn rank(cause: IrqCause) -> int {
    match cause {
        IrqCause::HostConnDis => 0,
        IrqCause::HostResume => 1,
        IrqCause::Stall => 2,
        IrqCause::RxOverflow => 3,
        IrqCause::TransComplete => 4,
        IrqCause::RxTimeout => 5,
        IrqCause::BuffStatus => 6,
        IrqCause::CrcError => 7,
        IrqCause::BitStuffError => 8,
        IrqCause::DataSeqError => 9,
        IrqCause::HostSof => 10,
        IrqCause::Unknown => 11,
    }
}

/// An interrupt is handled for the first cause that is raised, and for none only if none is.
pub proof fn first_cause_is_handled(ints: u32)
    ensures
        spec_cause(ints) != IrqCause::Unknown ==> flag(ints, raised_by(spec_cause(ints))),
        forall|d: IrqCause|
            #[trigger] rank(d) < rank(spec_cause(ints)) ==> !flag(ints, raised_by(d)),
{
}

/// Only RP235x stops EPX at a NAK, and it says so with its own bit.
pub proof fn only_rp235x_stops_at_a_nak(ints: u32)
    ensures
        nak_stopped(Chip::Rp235x, ints) <==> flag(ints, INT_EPX_STOPPED_ON_NAK),
        !nak_stopped(Chip::Rp2040, ints),
{
}

proof fn lemma_wakes_run(regs: Map<Reg, u32>, ops: Seq<Op>)
    requires
        forall|k: int| 0 <= k < ops.len() ==> #[trigger] ops[k] is Wake,
    ensures
        run(regs, ops) == regs,
    decreases ops.len(),
{
    if ops.len() > 0 {
        lemma_wakes_run(regs, ops.drop_last());
    }
}

/// A cause other than buffer status and frames is acknowledged by clearing one bit and touching
/// nothing else: what ends a transaction is masked until the next one starts, a resume and the
/// framing errors are cleared where they are latched.
pub proof fn cause_is_acknowledged(
    chip: Chip,
    epx: EpxState,
    cause: IrqCause,
    regs: Map<Reg, u32>,
)
    requires
        cause != IrqCause::BuffStatus,
        cause != IrqCause::HostSof,
        cause != IrqCause::Unknown,
    ensures
        ({
            let after = run(regs, cause_ops(chip, epx, cause));
            let (reg, bit) = match cause {
                IrqCause::HostResume => (Reg::SieStatus, STATUS_RESUME),
                IrqCause::CrcError => (Reg::SieStatus, STATUS_CRC_ERROR),
                IrqCause::BitStuffError => (Reg::SieStatus, STATUS_BIT_STUFF_ERROR),
                IrqCause::DataSeqError => (Reg::SieStatus, STATUS_DATA_SEQ_ERROR),
                _ => (Reg::Inte, raised_by(cause)),
            };
            &&& after == regs.insert(reg, regs[reg] & !bit)
            &&& cause_next(chip, epx, cause) == IrqNext::Done
        }),
{
    let ops = cause_ops(chip, epx, cause);
    let head = seq![ops[0]];
    let rest = ops.skip(1);
    assert(ops =~= head + rest);
    lemma_run_concat(regs, head, rest);
    lemma_run_short(regs, ops[0], ops[0], ops[0]);
    assert forall|k: int| 0 <= k < rest.len() implies #[trigger] rest[k] is Wake by {
        assert(rest[k] == ops[k + 1]);
    }
    lemma_wakes_run(run(regs, head), rest);
}

/// Of the pipes on EPX, an interrupt wakes none but the holder, and it ends by waking whoever
/// watches the port.
pub proof fn interrupt_wakes_the_holder_only(
    chip: Chip,
    epx: EpxState,
    cause: IrqCause,
    k: int,
    slot: usize,
)
    requires
        0 <= k < cause_ops(chip, epx, cause).len(),
    ensures
        cause_ops(chip, epx, cause)[k] == Op::Wake(Waker::Epx(slot)) ==> epx.current_channel
            == EP_COUNT + slot,
        cause_next(chip, epx, cause) == IrqNext::Done ==> cause_ops(chip, epx, cause).last()
            == Op::Wake(Waker::Bus),
{
}

/// A framing error is what the holder of a running transaction hears: a bad response for a broken
/// packet, a toggle error for one out of sequence. No other cause records anything for a pipe.
pub proof fn framing_error_reaches_the_holder(
    c: Channel,
    chip: Chip,
    epx: EpxState,
    next: EpxState,
    cause: IrqCause,
    sie_status: u32,
)
    requires
        c.wf(),
        c.ep_type != EndpointType::Interrupt,
        epx.current_channel == c.index,
        cause_handled(chip, epx, next, cause),
    ensures
        ({
            let told = c.outcome_of(next, sie_status);
            let broken = cause == IrqCause::CrcError || cause == IrqCause::BitStuffError;
            let disordered = cause == IrqCause::DataSeqError;
            &&& broken && epx.arbiter.armed ==> told == Some(
                Err::<TransactionStatus, PipeError>(PipeError::BadResponse),
            )
            &&& disordered && epx.arbiter.armed ==> told == Some(
                Err::<TransactionStatus, PipeError>(PipeError::DataToggleError),
            )
            &&& !epx.arbiter.armed || !broken && !disordered ==> {
                &&& next.arbiter.error == epx.arbiter.error
                &&& next.arbiter.completed == epx.arbiter.completed
                &&& next.arbiter.yielded == epx.arbiter.yielded
            }
            &&& next.current_channel == epx.current_channel
            &&& next.arbiter.waiting == epx.arbiter.waiting
            &&& next.arbiter.armed == epx.arbiter.armed
            &&& cause == IrqCause::TransComplete && chip == Chip::Rp2040
                ==> !next.arbiter.switch_requested
            &&& cause != IrqCause::TransComplete && cause != IrqCause::HostSof
                ==> next.arbiter.switch_requested == epx.arbiter.switch_requested
        }),
{
    if epx.arbiter.armed {
        let s = c.epx_slot() as int;
        if cause == IrqCause::CrcError || cause == IrqCause::BitStuffError || cause
            == IrqCause::DataSeqError {
            assert(epx.current_channel == EP_COUNT + s);
            assert(error_field(next.arbiter.error, s) != 0);
        }
    }
}

/// A frame stops only a holder that others are queued behind, on RP2040, and only after a frame
/// that asked for it.
pub proof fn frame_stops_only_under_contention(chip: Chip, epx: EpxState)
    ensures
        sof_outcome(chip, epx) is Stopped <==> {
            &&& chip == Chip::Rp2040
            &&& set16(epx.arbiter.waiting) != Set::<int>::empty()
            &&& epx.current_channel != 0
            &&& epx.arbiter.switch_requested
        },
        sof_outcome(chip, epx) matches SofOutcome::Stopped(index) ==> index == epx.current_channel,
        sof_outcome(chip, epx) == SofOutcome::Idle <==> chip == Chip::Rp2040 && set16(
            epx.arbiter.waiting,
        ) == Set::<int>::empty(),
        sof_outcome(chip, epx) == SofOutcome::Ignored <==> chip == Chip::Rp235x,
{
}

proof fn lemma_pair(status: u32, k: u32)
    by (bit_vector)
    requires
        k < 32,
    ensures
        (status & (3u32 << k) != 0) == (status & (1u32 << k) != 0 || status & (2u32 << k) != 0),
{
}

/// An endpoint is signalled by either bit of its pair.
pub proof fn either_bit_signals(status: u32, n: int)
    requires
        1 <= n < 16,
    ensures
        signalled(status).contains(n) <==> flag(status, 1u32 << ((2 * n) as u32)) || flag(
            status,
            2u32 << ((2 * n) as u32),
        ),
{
    lemma_pair(status, (2 * n) as u32);
}

proof fn lemma_signalled_ops(status: u32, end: int, n: int)
    requires
        1 <= n < 16,
        end <= 16,
    ensures
        signalled_ops(status, end).contains(Op::Wake(Waker::EpIn(n as usize))) <==> n < end
            && signalled(status).contains(n),
        n < end && signalled(status).contains(n) ==> signalled_ops(status, end).contains(
            Op::Clear(Reg::BuffStatus, 3u32 << ((2 * n) as u32)),
        ),
    decreases end,
{
    let wake = Op::Wake(Waker::EpIn(n as usize));
    let clear = Op::Clear(Reg::BuffStatus, 3u32 << ((2 * n) as u32));
    if end > 1 {
        lemma_signalled_ops(status, end - 1, n);
        let before = signalled_ops(status, end - 1);
        let all = signalled_ops(status, end);
        if before.contains(wake) {
            let k = choose|k: int| 0 <= k < before.len() && before[k] == wake;
            assert(all[k] == wake);
        }
        if before.contains(clear) {
            let k = choose|k: int| 0 <= k < before.len() && before[k] == clear;
            assert(all[k] == clear);
        }
        if signalled(status).contains(end - 1) {
            assert(all[before.len() as int] == Op::Clear(
                Reg::BuffStatus,
                spec_buff_status_bits((end - 1) as usize),
            ));
            assert(all[before.len() as int + 1] == Op::Wake(Waker::EpIn((end - 1) as usize)));
            assert(all.len() == before.len() + 2);
        }
        if all.contains(wake) {
            let k = choose|k: int| 0 <= k < all.len() && all[k] == wake;
            if k < before.len() {
                assert(before[k] == wake);
            }
        }
    }
}

/// The buffer status interrupt wakes exactly the pipes whose endpoints signalled, clears their
/// signals, and wakes the holder of EPX if EPX signalled.
pub proof fn signal_reaches_its_pipe(epx: EpxState, status: u32, n: int)
    requires
        1 <= n < 16,
    ensures
        ({
            let ops = buff_status_ops(epx, status);
            let raised = flag(status, 1u32 << ((2 * n) as u32)) || flag(
                status,
                2u32 << ((2 * n) as u32),
            );
            &&& ops.contains(Op::Wake(Waker::EpIn(n as usize))) <==> raised
            &&& raised ==> ops.contains(Op::Clear(Reg::BuffStatus, 3u32 << ((2 * n) as u32)))
            &&& flag(status, 0b11) ==> {
                &&& ops[0] == Op::Clear(Reg::BuffStatus, status & 0b11)
                &&& 16 <= epx.current_channel < 32 ==> ops[1] == Op::Wake(
                    Waker::Epx((epx.current_channel - 16) as usize),
                )
            }
            &&& ops.last() == Op::Wake(Waker::Bus)
        }),
{
    either_bit_signals(status, n);
    lemma_signalled_ops(status, 16, n);
    let ops = buff_status_ops(epx, status);
    let wake = Op::Wake(Waker::EpIn(n as usize));
    let clear = Op::Clear(Reg::BuffStatus, 3u32 << ((2 * n) as u32));
    let head = if flag(status, 0b11) {
        seq![Op::Clear(Reg::BuffStatus, status & 0b11)] + epx.wake_current_ops()
    } else {
        Seq::<Op>::empty()
    };
    let middle = signalled_ops(status, 16);
    assert(ops =~= head + middle + seq![Op::Wake(Waker::Bus)]);
    if middle.contains(wake) {
        let k = choose|k: int| 0 <= k < middle.len() && middle[k] == wake;
        assert(ops[head.len() + k] == wake);
        let j = choose|j: int| 0 <= j < middle.len() && middle[j] == clear;
        assert(ops[head.len() + j] == clear);
    }
    if ops.contains(wake) {
        let k = choose|k: int| 0 <= k < ops.len() && ops[k] == wake;
        assert(head.len() <= k < head.len() + middle.len());
        assert(middle[k - head.len()] == wake);
    }
}

/// A frame is answered in the way of the chip: RP235x masks it; RP2040 acknowledges it by reading
/// the frame number, and only remembers whether the next frame may stop the holder.
pub proof fn frame_is_answered(chip: Chip, epx: EpxState)
    ensures
        ({
            let outcome = sof_outcome(chip, epx);
            let ops = sof_ops(outcome);
            let next = after_sof(epx, outcome);
            &&& chip == Chip::Rp235x ==> next == epx && ops == seq![
                Op::Clear(Reg::Inte, INT_HOST_SOF),
            ]
            &&& chip == Chip::Rp2040 ==> {
                &&& ops[0] == Op::Read(Reg::SofRd)
                &&& next.arbiter.switch_requested <==> outcome == SofOutcome::Armed
                &&& outcome is Stopped <==> ops.contains(
                    Op::Modify(Reg::SieCtrl, 0, SIE_STOP_TRANS),
                )
                &&& outcome is Stopped ==> ops.last() == Op::WaitClear(
                    Reg::SieCtrl,
                    SIE_STOP_TRANS,
                )
            }
            &&& next.current_channel == epx.current_channel
            &&& next.arbiter.waiting == epx.arbiter.waiting
            &&& next.arbiter.last == epx.arbiter.last
            &&& next.arbiter.armed == epx.arbiter.armed
            &&& next.arbiter.completed == epx.arbiter.completed
            &&& next.arbiter.yielded == epx.arbiter.yielded
            &&& next.arbiter.error == epx.arbiter.error
        }),
{
    let outcome = sof_outcome(chip, epx);
    let ops = sof_ops(outcome);
    if outcome is Stopped {
        assert(ops[1] == Op::Modify(Reg::SieCtrl, 0, SIE_STOP_TRANS));
    }
}

proof fn lemma_wakes_ep_in(set: Set<int>, end: int, n: int)
    requires
        1 <= n < 16,
        end <= 16,
    ensures
        wakes_ep_in(set, end).contains(Op::Wake(Waker::EpIn(n as usize))) <==> n < end
            && set.contains(n),
    decreases end,
{
    let wake = Op::Wake(Waker::EpIn(n as usize));
    if end > 1 {
        lemma_wakes_ep_in(set, end - 1, n);
        let before = wakes_ep_in(set, end - 1);
        let all = wakes_ep_in(set, end);
        if before.contains(wake) {
            let k = choose|k: int| 0 <= k < before.len() && before[k] == wake;
            assert(all[k] == wake);
        }
        if set.contains(end - 1) {
            assert(all.last() == Op::Wake(Waker::EpIn((end - 1) as usize)));
        }
        if all.contains(wake) {
            let k = choose|k: int| 0 <= k < all.len() && all[k] == wake;
            if k < before.len() {
                assert(before[k] == wake);
            }
        }
    }
}

/// Charging a receive timeout wakes exactly the pipes that it is charged to.
pub proof fn timeout_wakes_the_charged(pipes: InterruptPipeState, n: int)
    requires
        1 <= n < 16,
    ensures
        wakes_ep_in(set16(pipes.armed_in), EP_COUNT as int).contains(
            Op::Wake(Waker::EpIn(n as usize)),
        ) <==> set16(pipes.armed_in).contains(n),
{
    lemma_wakes_ep_in(set16(pipes.armed_in), 16, n);
}

/// Resetting the toggle of a pipe makes its next transfer start with DATA0, whatever a cancelled
/// one left, and leaves what other pipes are owed.
pub proof fn reset_toggle_is_data0(
    c: Channel,
    pipes: InterruptPipeState,
    next: InterruptPipeState,
    other: int,
)
    requires
        c.wf(),
        c.ep_type == EndpointType::Interrupt,
        c.toggle_forgotten(pipes, next),
        other != c.index,
    ensures
        !(Channel { pid: false, ..c }).settled(next).pid,
        set16(next.toggle_owed).contains(other) <==> set16(pipes.toggle_owed).contains(other),
{
}

/// After a cancelled transfer the next one starts with the toggle behind the cancelled packet
/// exactly if that packet moved, and the endpoint is no longer armed; other pipes are not affected.
pub proof fn cancelled_transfer_is_accounted_for(
    c: Channel,
    guard: InterruptTransferGuard,
    pipes: InterruptPipeState,
    next: InterruptPipeState,
    buffer: u32,
    other: int,
)
    requires
        c.wf(),
        c.ep_type == EndpointType::Interrupt,
        guard.index == c.index,
        guard.is_out == (c.dir != PipeDirection::In),
        guard.active,
        guard.is_settled(pipes, next, buffer),
        !set16(pipes.toggle_owed).contains(c.index as int),
        other != c.index,
    ensures
        ({
            let given_back = !flag(buffer, BUF_AVAILABLE);
            let moved = if c.dir == PipeDirection::In {
                given_back && flag(buffer, BUF_FULL)
            } else {
                given_back && !flag(buffer, BUF_FULL)
            };
            &&& c.settled(next).pid == (c.pid != moved)
            &&& !set16(next.armed_in).contains(c.index as int)
            &&& set16(next.armed_in).contains(other) <==> set16(pipes.armed_in).contains(other)
            &&& set16(next.toggle_owed).contains(other) <==> set16(pipes.toggle_owed).contains(
                other,
            )
            &&& next.allocated == pipes.allocated
            &&& next.timed_out == pipes.timed_out
        }),
{
}

/// A packet that landed while its transfer was stopped wakes its owner and nobody else, and takes
/// nothing from it.
pub proof fn landed_packet_wakes_its_owner(c: Channel, epx: EpxState, buffer: u32, sie_ctrl: u32)
    requires
        c.wf(),
        c.ep_type != EndpointType::Interrupt,
        epx.current_channel == c.index,
        !flag(buffer, BUF_AVAILABLE),
        flag(buffer, BUF_FULL) != flag(sie_ctrl, SIE_SEND_DATA),
    ensures
        epx.yield_ops(buffer, sie_ctrl) == seq![Op::Wake(Waker::Epx((c.index - 16) as usize))],
{
}

/// The course of a read on a dedicated endpoint. It waits while the controller owns the buffer;
/// the endpoint is taken with the toggle behind a cancelled packet, under a guard; a packet that is
/// there ends it with its length and the other toggle, one that does not fit or a timeout with an
/// error, the pipe unchanged and the guard as it was.
pub proof fn interrupt_read_course(
    t: InterruptRead,
    c: Channel,
    pipes: InterruptPipeState,
    buffer: u32,
)
    requires
        t.inv(c),
        t.phase != InterruptPhase::Over,
    ensures
        ({
            let next = t.next(c, pipes, buffer);
            let pipe = t.pipe_next(c, pipes, buffer);
            let step = t.step_next(c, pipes, buffer);
            let waits = t.phase == InterruptPhase::Opening || t.phase == InterruptPhase::Moving;
            let timed_out = set16(pipes.timed_out).contains(c.index as int);
            let owned = flag(buffer, BUF_AVAILABLE);
            let owed = set16(pipes.toggle_owed).contains(c.index as int);
            let n = (buffer & 0x3ff) as int;
            &&& waits && timed_out ==> {
                &&& step == InterruptStep::Done(Err::<usize, PipeError>(PipeError::Timeout))
                &&& pipe == c
                &&& next.guard == t.guard
            }
            &&& waits && !timed_out && owned ==> step == InterruptStep::Wait && pipe == c && next
                == t
            &&& waits && !timed_out && !owned ==> {
                &&& step == InterruptStep::Continue
                &&& next.guard.active
                &&& next.guard.index == c.index
                &&& next.guard.is_out == (c.dir != PipeDirection::In)
                &&& t.phase == InterruptPhase::Opening ==> pipe.pid == (c.pid != owed)
                    && next.phase == InterruptPhase::Opened
                &&& t.phase == InterruptPhase::Moving ==> pipe == c && next.phase
                    == InterruptPhase::Arrived
            }
            &&& t.phase == InterruptPhase::Opened ==> {
                &&& step == InterruptStep::Continue
                &&& pipe == c
                &&& next.guard == t.guard
                &&& next.phase == InterruptPhase::Arrived <==> flag(buffer, BUF_FULL)
                &&& next.phase == InterruptPhase::Moving <==> !flag(buffer, BUF_FULL)
            }
            &&& t.phase == InterruptPhase::Arrived && n <= t.capacity ==> {
                &&& step == InterruptStep::Done(Ok::<usize, PipeError>(n as usize))
                &&& pipe.pid == !c.pid
                &&& !next.guard.active
            }
            &&& t.phase == InterruptPhase::Arrived && n > t.capacity ==> {
                &&& step == InterruptStep::Done(Err::<usize, PipeError>(PipeError::BufferOverflow))
                &&& pipe == c
                &&& next.guard.active
            }
        }),
{
    lemma_length_field(buffer);
}

/// The course of a write to a dedicated endpoint. It waits while the controller owns the buffer,
/// takes the endpoint with the toggle behind a cancelled packet, under a guard, and sends the
/// data from the start; every packet that has moved turns the toggle and is followed by the next,
/// until none is left. A timeout ends it with an error, the pipe unchanged and the guard as it was.
pub proof fn interrupt_write_course(
    t: InterruptWrite,
    c: Channel,
    pipes: InterruptPipeState,
    buffer: u32,
)
    requires
        t.inv(c),
        t.phase != InterruptPhase::Over,
    ensures
        ({
            let next = t.next(c, pipes, buffer);
            let pipe = t.pipe_next(c, pipes, buffer);
            let step = t.step_next(c, pipes, buffer);
            let ops = t.ops_next(c, pipes, buffer);
            let timed_out = set16(pipes.timed_out).contains(c.index as int);
            let owned = flag(buffer, BUF_AVAILABLE);
            let owed = set16(pipes.toggle_owed).contains(c.index as int);
            let mps = c.max_packet_size as int;
            let left = t.writer.packets_left(mps);
            let copy = Op::CopyOut {
                addr: c.buf.addr,
                from: next.writer.count,
                len: (next.writer.after_packet(mps).count - next.writer.count) as usize,
            };
            &&& timed_out ==> {
                &&& step == InterruptStep::Done(Err::<usize, PipeError>(PipeError::Timeout))
                &&& pipe == c
                &&& next.guard == t.guard
            }
            &&& !timed_out && owned ==> step == InterruptStep::Wait && pipe == c && next == t
            &&& !timed_out && !owned && t.phase == InterruptPhase::Opening ==> {
                &&& step == InterruptStep::Continue
                &&& next.guard.active
                &&& next.writer == t.writer
                &&& pipe.pid == (c.pid != owed)
                &&& ops.contains(copy)
            }
            &&& !timed_out && !owned && t.phase == InterruptPhase::Moving ==> {
                &&& pipe.pid == !c.pid
                &&& next.writer.packets_left(mps) == left - 1
                &&& left == 1 <==> step == InterruptStep::Done(
                    Ok::<usize, PipeError>(t.writer.total),
                )
                &&& left == 1 ==> !next.guard.active
                &&& left > 1 ==> step == InterruptStep::Continue && next.guard.active
                    && ops.contains(copy)
            }
        }),
{
    let mps = c.max_packet_size as int;
    let timed_out = set16(pipes.timed_out).contains(c.index as int);
    if !timed_out && !flag(buffer, BUF_AVAILABLE) {
        write_takes_packets_left(t.writer, mps);
        let next = t.next(c, pipes, buffer);
        let pipe = t.pipe_next(c, pipes, buffer);
        if t.step_next(c, pipes, buffer) == InterruptStep::Continue {
            armed_packet_is_the_counted_one(next.writer, pipe, false);
            let ops = t.ops_next(c, pipes, buffer);
            let send = pipe.interrupt_send_ops(next.writer.count, next.writer.total);
            assert(ops[ops.len() - send.len()] == send[0]);
        }
    }
}

} // verus!
