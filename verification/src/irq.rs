//! The controller's interrupt.

use vstd::prelude::*;
use crate::arbiter::{EpxArbiter, EpxError};
use crate::bits::{lemma_zero16, range, set16};
use crate::epx::{disarm_yield_ops, spec_packet_moved, EpxState};
use crate::host::HostState;
use crate::interrupt_pipes::InterruptPipeState;
use crate::layout::EP_COUNT;
use crate::regs::{
    buff_status_bits, flag, has_flag, spec_buff_status_bits, Op, Reg, Waker, INT_BUFF_STATUS,
    INT_EPX_STOPPED_ON_NAK, INT_ERROR_BIT_STUFF, INT_ERROR_CRC, INT_ERROR_DATA_SEQ,
    INT_ERROR_RX_OVERFLOW, INT_ERROR_RX_TIMEOUT, INT_HOST_CONN_DIS, INT_HOST_RESUME, INT_HOST_SOF,
    INT_STALL, INT_TRANS_COMPLETE, NAK_EPX_STOPPED_ON_NAK, SIE_SEND_DATA, SIE_STOP_TRANS,
    STATUS_BIT_STUFF_ERROR, STATUS_CRC_ERROR, STATUS_DATA_SEQ_ERROR, STATUS_RESUME,
};
use crate::transaction::{stop_ops, EPX_BUFF_STATUS};
use crate::types::Chip;

verus! {

/// The one cause that an interrupt is handled for.
#[derive(Clone, Copy, PartialEq, Eq, Structural, Debug)]
pub enum IrqCause {
    HostConnDis,
    HostResume,
    Stall,
    RxOverflow,
    TransComplete,
    RxTimeout,
    BuffStatus,
    CrcError,
    BitStuffError,
    DataSeqError,
    HostSof,
    Unknown,
}

/// What is left of handling an interrupt, after the steps were carried out.
#[derive(Clone, Copy, PartialEq, Eq, Structural, Debug)]
pub enum IrqNext {
    Done,
    /// Read BUFF_STATUS and go on with [`InterruptHandler::on_buff_status`].
    ReadBuffStatus,
    /// The transaction of the pipe with this index was stopped: sample the EPX buffer control
    /// word and SIE_CTRL, and go on with [`InterruptHandler::on_epx_stopped`].
    SampleEpx(usize),
}

/// How a start of frame was answered.
#[derive(Clone, Copy, PartialEq, Eq, Structural, Debug)]
pub enum SofOutcome {
    /// RP235x: frames do not matter.
    Ignored,
    /// Nobody is queued for EPX.
    Idle,
    /// EPX is free.
    Free,
    /// A second frame without progress: the holder is retrying NAKs and was stopped.
    Stopped(usize),
    /// A first frame with somebody queued.
    Armed,
}

/// The first cause that is raised, in order of handling.
pub open spec fn spec_cause(ints: u32) -> IrqCause {
    if flag(ints, INT_HOST_CONN_DIS) {
        IrqCause::HostConnDis
    } else if flag(ints, INT_HOST_RESUME) {
        IrqCause::HostResume
    } else if flag(ints, INT_STALL) {
        IrqCause::Stall
    } else if flag(ints, INT_ERROR_RX_OVERFLOW) {
        IrqCause::RxOverflow
    } else if flag(ints, INT_TRANS_COMPLETE) {
        IrqCause::TransComplete
    } else if flag(ints, INT_ERROR_RX_TIMEOUT) {
        IrqCause::RxTimeout
    } else if flag(ints, INT_BUFF_STATUS) {
        IrqCause::BuffStatus
    } else if flag(ints, INT_ERROR_CRC) {
        IrqCause::CrcError
    } else if flag(ints, INT_ERROR_BIT_STUFF) {
        IrqCause::BitStuffError
    } else if flag(ints, INT_ERROR_DATA_SEQ) {
        IrqCause::DataSeqError
    } else if flag(ints, INT_HOST_SOF) {
        IrqCause::HostSof
    } else {
        IrqCause::Unknown
    }
}

/// The first cause that is raised, in order of handling.
pub fn cause(ints: u32) -> (c: IrqCause)
    ensures
        c == spec_cause(ints),
{
    if has_flag(ints, INT_HOST_CONN_DIS) {
        IrqCause::HostConnDis
    } else if has_flag(ints, INT_HOST_RESUME) {
        IrqCause::HostResume
    } else if has_flag(ints, INT_STALL) {
        IrqCause::Stall
    } else if has_flag(ints, INT_ERROR_RX_OVERFLOW) {
        IrqCause::RxOverflow
    } else if has_flag(ints, INT_TRANS_COMPLETE) {
        IrqCause::TransComplete
    } else if has_flag(ints, INT_ERROR_RX_TIMEOUT) {
        IrqCause::RxTimeout
    } else if has_flag(ints, INT_BUFF_STATUS) {
        IrqCause::BuffStatus
    } else if has_flag(ints, INT_ERROR_CRC) {
        IrqCause::CrcError
    } else if has_flag(ints, INT_ERROR_BIT_STUFF) {
        IrqCause::BitStuffError
    } else if has_flag(ints, INT_ERROR_DATA_SEQ) {
        IrqCause::DataSeqError
    } else if has_flag(ints, INT_HOST_SOF) {
        IrqCause::HostSof
    } else {
        IrqCause::Unknown
    }
}

/// The wake-up that ends every interrupt.
pub open spec fn wake_bus() -> Seq<Op> {
    seq![Op::Wake(Waker::Bus)]
}

/// Whether the interrupt reports that EPX was stopped at a NAK.
pub open spec fn nak_stopped(chip: Chip, ints: u32) -> bool {
    chip == Chip::Rp235x && flag(ints, INT_EPX_STOPPED_ON_NAK)
}

/// The steps that acknowledge a stop at a NAK.
pub open spec fn nak_stop_ops(chip: Chip) -> Seq<Op> {
    seq![Op::Modify(Reg::NakPoll, 0, NAK_EPX_STOPPED_ON_NAK)] + disarm_yield_ops(chip)
}

/// What is left to do after a stop at a NAK: hand EPX on from its holder.
pub open spec fn nak_stop_next(epx: EpxState) -> IrqNext {
    IrqNext::SampleEpx(epx.current_channel)
}

/// How a start of frame is answered.
pub open spec fn sof_outcome(chip: Chip, epx: EpxState) -> SofOutcome {
    if chip == Chip::Rp235x {
        SofOutcome::Ignored
    } else if set16(epx.arbiter.waiting) == Set::<int>::empty() {
        SofOutcome::Idle
    } else if epx.current_channel == 0 {
        SofOutcome::Free
    } else if epx.arbiter.switch_requested {
        SofOutcome::Stopped(epx.current_channel)
    } else {
        SofOutcome::Armed
    }
}

/// The steps that answer a start of frame.
pub open spec fn sof_ops(outcome: SofOutcome) -> Seq<Op> {
    match outcome {
        SofOutcome::Ignored => seq![Op::Clear(Reg::Inte, INT_HOST_SOF)],
        SofOutcome::Idle => seq![Op::Read(Reg::SofRd)] + disarm_yield_ops(Chip::Rp2040),
        SofOutcome::Stopped(_) => seq![Op::Read(Reg::SofRd)] + stop_ops(),
        _ => seq![Op::Read(Reg::SofRd)],
    }
}

/// The state after a start of frame: the next one may stop the holder, or not.
pub open spec fn after_sof(epx: EpxState, outcome: SofOutcome) -> EpxState {
    if outcome == SofOutcome::Ignored {
        epx
    } else {
        EpxState {
            arbiter: EpxArbiter {
                switch_requested: outcome == SofOutcome::Armed,
                ..epx.arbiter
            },
            ..epx
        }
    }
}

/// Polled endpoints with a buffer status bit set.
pub open spec fn signalled(status: u32) -> Set<int> {
    Set::new(|n: int| 1 <= n < EP_COUNT && flag(status, spec_buff_status_bits(n as usize)))
}

/// The steps for the signalled polled endpoints below `end`.
pub open spec fn signalled_ops(status: u32, end: int) -> Seq<Op>
    decreases end,
{
    if end <= 1 {
        Seq::empty()
    } else if signalled(status).contains(end - 1) {
        signalled_ops(status, end - 1) + seq![
            Op::Clear(Reg::BuffStatus, spec_buff_status_bits((end - 1) as usize)),
            Op::Wake(Waker::EpIn((end - 1) as usize)),
        ]
    } else {
        signalled_ops(status, end - 1)
    }
}

/// The steps that answer BUFF_STATUS.
pub open spec fn buff_status_ops(epx: EpxState, status: u32) -> Seq<Op> {
    (if flag(status, EPX_BUFF_STATUS) {
        seq![Op::Clear(Reg::BuffStatus, status & EPX_BUFF_STATUS)] + epx.wake_current_ops()
    } else {
        Seq::<Op>::empty()
    }) + signalled_ops(status, EP_COUNT as int) + wake_bus()
}

/// The steps of an interrupt for which EPX was not stopped at a NAK.
pub open spec fn cause_ops(chip: Chip, epx: EpxState, cause: IrqCause) -> Seq<Op> {
    let charge = if epx.arbiter.armed {
        epx.wake_current_ops()
    } else {
        Seq::<Op>::empty()
    };
    match cause {
        IrqCause::HostConnDis => seq![Op::Clear(Reg::Inte, INT_HOST_CONN_DIS)] + wake_bus(),
        IrqCause::HostResume => seq![Op::Clear(Reg::SieStatus, STATUS_RESUME)] + wake_bus(),
        IrqCause::Stall => seq![Op::Clear(Reg::Inte, INT_STALL)] + epx.wake_current_ops()
            + wake_bus(),
        IrqCause::RxOverflow => seq![Op::Clear(Reg::Inte, INT_ERROR_RX_OVERFLOW)]
            + epx.wake_current_ops() + wake_bus(),
        IrqCause::TransComplete => seq![Op::Clear(Reg::Inte, INT_TRANS_COMPLETE)]
            + epx.wake_current_ops() + wake_bus(),
        IrqCause::RxTimeout => seq![Op::Clear(Reg::Inte, INT_ERROR_RX_TIMEOUT)]
            + epx.wake_current_ops() + wake_bus(),
        IrqCause::BuffStatus => Seq::empty(),
        IrqCause::CrcError => seq![Op::Clear(Reg::SieStatus, STATUS_CRC_ERROR)] + charge
            + wake_bus(),
        IrqCause::BitStuffError => seq![Op::Clear(Reg::SieStatus, STATUS_BIT_STUFF_ERROR)] + charge
            + wake_bus(),
        IrqCause::DataSeqError => seq![Op::Clear(Reg::SieStatus, STATUS_DATA_SEQ_ERROR)] + charge
            + wake_bus(),
        IrqCause::HostSof => match sof_outcome(chip, epx) {
            SofOutcome::Stopped(index) => sof_ops(SofOutcome::Stopped(index)),
            outcome => sof_ops(outcome) + wake_bus(),
        },
        IrqCause::Unknown => wake_bus(),
    }
}

/// What is left to do after those steps.
pub open spec fn cause_next(chip: Chip, epx: EpxState, cause: IrqCause) -> IrqNext {
    match cause {
        IrqCause::BuffStatus => IrqNext::ReadBuffStatus,
        IrqCause::HostSof => match sof_outcome(chip, epx) {
            SofOutcome::Stopped(index) => IrqNext::SampleEpx(index),
            _ => IrqNext::Done,
        },
        _ => IrqNext::Done,
    }
}

/// Whether `next` is the EPX state after those steps.
pub open spec fn cause_handled(chip: Chip, epx: EpxState, next: EpxState, cause: IrqCause) -> bool {
    match cause {
        IrqCause::TransComplete => next == epx.without_switch_request(chip),
        IrqCause::CrcError => epx.error_recorded(next, EpxError::BadResponse),
        IrqCause::BitStuffError => epx.error_recorded(next, EpxError::BadResponse),
        IrqCause::DataSeqError => epx.error_recorded(next, EpxError::DataToggle),
        IrqCause::HostSof => next == after_sof(epx, sof_outcome(chip, epx)),
        _ => next == epx,
    }
}

/// USB interrupt handler.
#[derive(Clone, Copy, PartialEq, Eq, Structural, Debug)]
pub struct InterruptHandler {}

impl InterruptHandler {
    /// Service the RP235x stop-on-NAK interrupt, given INTS. Returns the index of the pipe that
    /// was stopped.
    pub fn on_nak_stop(epx: &mut EpxState, chip: Chip, ints: u32) -> (r: Option<(usize, Vec<Op>)>)
        ensures
            *final(epx) == *old(epx),
            r is Some <==> nak_stopped(chip, ints),
            r matches Some((index, ops)) ==> {
                &&& IrqNext::SampleEpx(index) == nak_stop_next(*old(epx))
                &&& ops@ == nak_stop_ops(chip)
            },
    {
        match chip {
            Chip::Rp235x => {
                if !has_flag(ints, INT_EPX_STOPPED_ON_NAK) {
                    return None;
                }
                let index: usize = epx.current_channel;
                let mut ops: Vec<Op> = vec![Op::Modify(Reg::NakPoll, 0, NAK_EPX_STOPPED_ON_NAK)];
                let mut disarm: Vec<Op> = epx.disarm_epx_yield(chip);
                ops.append(&mut disarm);
                Some((index, ops))
            },
            Chip::Rp2040 => None,
        }
    }

    /// Service SOF, using RP2040 frame boundaries to yield a NAKing EPX owner.
    pub fn on_host_sof(epx: &mut EpxState, chip: Chip) -> (r: (SofOutcome, Vec<Op>))
        requires
            old(epx).wf(),
        ensures
            final(epx).wf(),
            r.0 == sof_outcome(chip, *old(epx)),
            r.1@ == sof_ops(r.0),
            *final(epx) == after_sof(*old(epx), r.0),
    {
        match chip {
            Chip::Rp235x => (SofOutcome::Ignored, vec![Op::Clear(Reg::Inte, INT_HOST_SOF)]),
            Chip::Rp2040 => {
                // Reading SOF_RD acknowledges HOST_SOF.
                let mut ops: Vec<Op> = vec![Op::Read(Reg::SofRd)];
                let index: usize = epx.current_channel;
                proof {
                    lemma_zero16(epx.arbiter.waiting);
                }
                let outcome: SofOutcome = if epx.arbiter.waiting == 0 {
                    let mut disarm: Vec<Op> = epx.disarm_epx_yield(chip);
                    ops.append(&mut disarm);
                    SofOutcome::Idle
                } else if index == 0 {
                    epx.arbiter.switch_requested = false;
                    SofOutcome::Free
                } else if epx.arbiter.switch_requested {
                    // A second SOF without progress means the holder is retrying NAKs.
                    ops.push(Op::Modify(Reg::SieCtrl, 0, SIE_STOP_TRANS));
                    ops.push(Op::WaitClear(Reg::SieCtrl, SIE_STOP_TRANS));
                    epx.arbiter.switch_requested = false;
                    SofOutcome::Stopped(index)
                } else {
                    epx.arbiter.switch_requested = true;
                    SofOutcome::Armed
                };
                assert(ops@ =~= sof_ops(outcome));
                (outcome, ops)
            },
        }
    }

    /// Handle an interrupt, given INTS; `nak_ints` is a second reading of it, made after the
    /// first.
    pub fn on_interrupt(state: &mut HostState, chip: Chip, ints: u32, nak_ints: u32) -> (r: (
        IrqNext,
        Vec<Op>,
    ))
        requires
            old(state).wf(),
        ensures
            final(state).wf(),
            final(state).interrupt_pipes == old(state).interrupt_pipes,
            if nak_stopped(chip, nak_ints) {
                &&& r.0 == nak_stop_next(old(state).epx)
                &&& r.1@ == nak_stop_ops(chip)
                &&& *final(state) == *old(state)
            } else {
                &&& r.0 == cause_next(chip, old(state).epx, spec_cause(ints))
                &&& r.1@ == cause_ops(chip, old(state).epx, spec_cause(ints))
                &&& cause_handled(chip, old(state).epx, final(state).epx, spec_cause(ints))
            },
    {
        // Hand EPX over if the controller stopped it at a NAK boundary.
        match Self::on_nak_stop(&mut state.epx, chip, nak_ints) {
            Some((index, ops)) => {
                return (IrqNext::SampleEpx(index), ops);
            },
            None => {},
        }
        let mut ops: Vec<Op> = Vec::new();
        match cause(ints) {
            IrqCause::HostConnDis => {
                ops.push(Op::Clear(Reg::Inte, INT_HOST_CONN_DIS));
            },
            IrqCause::HostResume => {
                ops.push(Op::Clear(Reg::SieStatus, STATUS_RESUME));
            },
            IrqCause::Stall => {
                ops.push(Op::Clear(Reg::Inte, INT_STALL));
                let mut wake: Vec<Op> = state.epx.wake_current();
                ops.append(&mut wake);
            },
            IrqCause::RxOverflow => {
                ops.push(Op::Clear(Reg::Inte, INT_ERROR_RX_OVERFLOW));
                let mut wake: Vec<Op> = state.epx.wake_current();
                ops.append(&mut wake);
            },
            IrqCause::TransComplete => {
                ops.push(Op::Clear(Reg::Inte, INT_TRANS_COMPLETE));
                state.epx.note_epx_progress(chip);
                let mut wake: Vec<Op> = state.epx.wake_current();
                ops.append(&mut wake);
            },
            IrqCause::RxTimeout => {
                ops.push(Op::Clear(Reg::Inte, INT_ERROR_RX_TIMEOUT));
                let mut wake: Vec<Op> = state.epx.wake_current();
                ops.append(&mut wake);
            },
            IrqCause::BuffStatus => {
                return (IrqNext::ReadBuffStatus, ops);
            },
            IrqCause::CrcError => {
                ops.push(Op::Clear(Reg::SieStatus, STATUS_CRC_ERROR));
                let mut wake: Vec<Op> = state.epx.record_epx_error(EpxError::BadResponse);
                ops.append(&mut wake);
            },
            IrqCause::BitStuffError => {
                ops.push(Op::Clear(Reg::SieStatus, STATUS_BIT_STUFF_ERROR));
                let mut wake: Vec<Op> = state.epx.record_epx_error(EpxError::BadResponse);
                ops.append(&mut wake);
            },
            IrqCause::DataSeqError => {
                ops.push(Op::Clear(Reg::SieStatus, STATUS_DATA_SEQ_ERROR));
                let mut wake: Vec<Op> = state.epx.record_epx_error(EpxError::DataToggle);
                ops.append(&mut wake);
            },
            IrqCause::HostSof => {
                let (outcome, mut sof) = Self::on_host_sof(&mut state.epx, chip);
                ops.append(&mut sof);
                match outcome {
                    SofOutcome::Stopped(index) => {
                        assert(ops@ =~= sof_ops(outcome));
                        return (IrqNext::SampleEpx(index), ops);
                    },
                    _ => {},
                }
            },
            IrqCause::Unknown => {},
        }
        ops.push(Op::Wake(Waker::Bus));
        assert(ops@ =~= cause_ops(chip, old(state).epx, spec_cause(ints)));
        (IrqNext::Done, ops)
    }

    /// Hand EPX on after its transaction was stopped, given samples of its buffer control word
    /// and of SIE_CTRL. Returns whether EPX was handed on.
    pub fn on_epx_stopped(state: &mut HostState, index: usize, buffer: u32, sie_ctrl: u32) -> (r: (
        bool,
        Vec<Op>,
    ))
        requires
            old(state).wf(),
        ensures
            final(state).wf(),
            r.0 == !spec_packet_moved(buffer, flag(sie_ctrl, SIE_SEND_DATA)),
            old(state).epx.is_yield(final(state).epx, index, !r.0),
            final(state).interrupt_pipes == old(state).interrupt_pipes,
            r.1@ == old(state).epx.yield_ops(buffer, sie_ctrl) + wake_bus(),
    {
        let (yielded, mut ops) = state.epx.yield_epx(index, buffer, sie_ctrl);
        ops.push(Op::Wake(Waker::Bus));
        assert(ops@ =~= old(state).epx.yield_ops(buffer, sie_ctrl) + wake_bus());
        (yielded, ops)
    }

    /// Answer the buffer status interrupt, given BUFF_STATUS. Bits 0 and 1 are EPX's pair; from
    /// bit 2 up they are the dedicated interrupt endpoints, two bits per endpoint. Either
    /// direction can signal, so both bits of a pair are cleared.
    pub fn on_buff_status(state: &mut HostState, status: u32) -> (ops: Vec<Op>)
        requires
            old(state).wf(),
        ensures
            final(state).wf(),
            final(state).epx == old(state).epx,
            set16(final(state).interrupt_pipes.armed_in) == set16(
                old(state).interrupt_pipes.armed_in,
            ).difference(signalled(status)),
            final(state).interrupt_pipes == (InterruptPipeState {
                armed_in: final(state).interrupt_pipes.armed_in,
                ..old(state).interrupt_pipes
            }),
            ops@ == buff_status_ops(old(state).epx, status),
    {
        let mut ops: Vec<Op> = Vec::new();
        if has_flag(status, EPX_BUFF_STATUS) {
            ops.push(Op::Clear(Reg::BuffStatus, status & EPX_BUFF_STATUS));
            let mut wake: Vec<Op> = state.epx.wake_current();
            ops.append(&mut wake);
        }
        let ghost head = ops@;
        assert(head + signalled_ops(status, 1) =~= head);
        assert(set16(state.interrupt_pipes.armed_in) =~= set16(
            old(state).interrupt_pipes.armed_in,
        ).difference(signalled(status).intersect(range(0, 1))));
        let mut n: usize = 1;
        while n < EP_COUNT
            invariant
                1 <= n <= EP_COUNT,
                state.epx == old(state).epx,
                state.interrupt_pipes == (InterruptPipeState {
                    armed_in: state.interrupt_pipes.armed_in,
                    ..old(state).interrupt_pipes
                }),
                set16(state.interrupt_pipes.armed_in) == set16(
                    old(state).interrupt_pipes.armed_in,
                ).difference(signalled(status).intersect(range(0, n as int))),
                ops@ == head + signalled_ops(status, n as int),
            decreases EP_COUNT - n,
        {
            let mask: u32 = buff_status_bits(n);
            if has_flag(status, mask) {
                ops.push(Op::Clear(Reg::BuffStatus, mask));
                state.interrupt_pipes.mark_completed(n);
                ops.push(Op::Wake(Waker::EpIn(n)));
                assert(signalled(status).contains(n as int));
            }
            assert(ops@ =~= head + signalled_ops(status, n + 1));
            assert(set16(state.interrupt_pipes.armed_in) =~= set16(
                old(state).interrupt_pipes.armed_in,
            ).difference(signalled(status).intersect(range(0, n + 1))));
            n = n + 1;
        }
        assert(signalled(status).intersect(range(0, EP_COUNT as int)) =~= signalled(
            status,
        ));
        ops.push(Op::Wake(Waker::Bus));
        assert(ops@ =~= buff_status_ops(old(state).epx, status));
        ops
    }
}

} // verus!
