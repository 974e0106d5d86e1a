//! Transactions on EPX: claiming the endpoint, arming it, waiting for it and letting it go.

use vstd::prelude::*;
use crate::arbiter::{error_field, is_turn, pipe_error, turn_is_unique, EpxArbiter};
use crate::bits::{in16, set16};
use crate::channel::{hand_over_ops, Channel};
use crate::epx::{
    arm_epx_yield, arm_yield_ops, disarm_yield_ops, outcome_discarded, spec_packet_moved, EpxState,
};
use crate::layout::{EPX_MAX_PIPES, EP_COUNT};
use crate::regs::{
    addr_word, buffer_word, flag, has_flag, le_word, mask_if, mask_when, pack_bytes, spec_addr_word,
    spec_buffer_word, spec_type_bits, type_bits, Op, Reg, BUF_AVAILABLE, EP_BUFFER_ADDRESS,
    EP_ENABLE, EP_INTERRUPT_PER_BUFF, EP_TYPE, INT_ERROR_BIT_STUFF, INT_ERROR_CRC,
    INT_ERROR_DATA_SEQ, INT_ERROR_RX_OVERFLOW, INT_ERROR_RX_TIMEOUT, INT_STALL, INT_TRANS_COMPLETE,
    SIE_PREAMBLE_EN, SIE_RECEIVE_DATA, SIE_SEND_DATA, SIE_SEND_SETUP, SIE_START_TRANS,
    SIE_STOP_TRANS, STATUS_OUTCOMES, STATUS_RX_OVERFLOW, STATUS_STALL_REC, STATUS_TRANS_COMPLETE,
};
use crate::types::{Chip, EndpointType, PipeError};

verus! {

/// START_TRANS is synchronized separately from the rest of SIE_CTRL.
pub const SIE_START_DELAY_CYCLES: u32 = 12;

/// The buffer status bits of EPX.
pub const EPX_BUFF_STATUS: u32 = 0b11;

/// How a transaction ended without an error.
#[derive(Clone, Copy, PartialEq, Eq, Structural, Debug)]
pub enum TransactionStatus {
    Complete,
    NakYield,
    Timeout,
}

/// What follows a transaction.
#[derive(Clone, Copy, PartialEq, Eq, Debug)]
pub enum TransactionNext {
    /// Tell the caller.
    Return(Result<(), PipeError>),
    /// Queue for EPX again.
    Retry,
}

/// Queue membership for a pipe waiting on EPX. A cancelled wait gives it back, so that it does
/// not stall the rotation on a pipe that will never claim EPX.
#[derive(Clone, Copy, PartialEq, Eq, Structural, Debug)]
pub struct WaitTicket {
    pub slot: usize,
}

impl WaitTicket {
    /// Join the queue.
    pub fn new(epx: &mut EpxState, slot: usize) -> (ticket: WaitTicket)
        requires
            old(epx).wf(),
            slot < EPX_MAX_PIPES,
        ensures
            final(epx).wf(),
            ticket.slot == slot,
            set16(final(epx).arbiter.waiting) == set16(old(epx).arbiter.waiting).insert(
                slot as int,
            ),
            *final(epx) == (EpxState {
                arbiter: EpxArbiter { waiting: final(epx).arbiter.waiting, ..old(epx).arbiter },
                ..*old(epx)
            }),
    {
        epx.arbiter.set_waiting(slot, true);
        WaitTicket { slot }
    }

    /// Leave the queue.
    pub fn release(self, epx: &mut EpxState)
        requires
            old(epx).wf(),
            self.slot < EPX_MAX_PIPES,
        ensures
            final(epx).wf(),
            set16(final(epx).arbiter.waiting) == set16(old(epx).arbiter.waiting).remove(
                self.slot as int,
            ),
            *final(epx) == (EpxState {
                arbiter: EpxArbiter { waiting: final(epx).arbiter.waiting, ..old(epx).arbiter },
                ..*old(epx)
            }),
    {
        epx.arbiter.set_waiting(self.slot, false);
    }
}

/// Holds EPX for a pipe until the transaction is over.
#[derive(Clone, Copy, PartialEq, Eq, Structural, Debug)]
pub struct EpxTransactionGuard {
    pub index: usize,
    pub transaction_active: bool,
}

/// The steps that stop the transaction on EPX and wait until it has stopped.
pub open spec fn stop_ops() -> Seq<Op> {
    seq![Op::Modify(Reg::SieCtrl, 0, SIE_STOP_TRANS), Op::WaitClear(Reg::SieCtrl, SIE_STOP_TRANS)]
}

/// The steps that void what a stopped transaction latched.
pub open spec fn void_ops() -> Seq<Op> {
    seq![
        Op::Clear(Reg::SieStatus, STATUS_OUTCOMES),
        Op::Clear(Reg::BuffStatus, EPX_BUFF_STATUS),
    ]
}

impl EpxTransactionGuard {
    /// The guard belongs to an EPX pipe.
    pub open spec fn wf(self) -> bool {
        EP_COUNT <= self.index < EP_COUNT + EPX_MAX_PIPES
    }

    /// Guard EPX for a pipe that has just claimed it.
    pub fn new(channel: &Channel) -> (g: EpxTransactionGuard)
        requires
            channel.wf(),
            !channel.is_interrupt(),
        ensures
            g.wf(),
            g == (EpxTransactionGuard { index: channel.index, transaction_active: false }),
    {
        EpxTransactionGuard { index: channel.index, transaction_active: false }
    }

    /// A transaction is being started.
    pub fn arm(&mut self, epx: &mut EpxState)
        ensures
            *final(self) == (EpxTransactionGuard { transaction_active: true, ..*old(self) }),
            *final(epx) == (EpxState {
                arbiter: EpxArbiter { armed: true, ..old(epx).arbiter },
                ..*old(epx)
            }),
    {
        self.transaction_active = true;
        epx.arbiter.armed = true;
    }

    /// The controller has released EPX.
    pub fn disarm(&mut self, epx: &mut EpxState)
        ensures
            *final(self) == (EpxTransactionGuard { transaction_active: false, ..*old(self) }),
            *final(epx) == (EpxState {
                arbiter: EpxArbiter { armed: false, ..old(epx).arbiter },
                ..*old(epx)
            }),
    {
        self.transaction_active = false;
        epx.arbiter.armed = false;
    }

    /// Whether dropping the guard lets EPX go: nobody else has taken it meanwhile.
    pub open spec fn releases(self, epx: EpxState) -> bool {
        epx.current_channel == self.index || epx.current_channel == 0
    }

    /// The state after the guard let EPX go.
    pub open spec fn is_release(self, epx: EpxState, next: EpxState, chip: Chip) -> bool {
        let slot = self.index - EP_COUNT;
        &&& next.current_channel == 0
        &&& next.allocated_slots == epx.allocated_slots
        &&& next.used_blocks == epx.used_blocks
        &&& next.arbiter.last == slot
        &&& !next.arbiter.armed
        &&& next.arbiter.switch_requested == (epx.arbiter.switch_requested && chip != Chip::Rp2040)
        &&& outcome_discarded(
            EpxArbiter {
                last: next.arbiter.last,
                armed: false,
                switch_requested: next.arbiter.switch_requested,
                ..epx.arbiter
            },
            next.arbiter,
            slot,
        )
    }

    /// The steps of letting EPX go.
    pub open spec fn release_ops(self, epx: EpxState, chip: Chip) -> Seq<Op> {
        (if self.transaction_active {
            stop_ops() + void_ops()
        } else {
            Seq::<Op>::empty()
        }) + disarm_yield_ops(chip) + epx.wake_all_ops() + seq![
            Op::Modify(Reg::EpxControl, EP_INTERRUPT_PER_BUFF | EP_ENABLE, 0),
            Op::Modify(Reg::EpInBufferControl(0), BUF_AVAILABLE, 0),
        ]
    }

    /// Drop the guard: stop a transaction that is still running, let EPX go and wake whoever is
    /// queued for it.
    pub fn release(self, epx: &mut EpxState, chip: Chip) -> (ops: Vec<Op>)
        requires
            self.wf(),
            old(epx).wf(),
        ensures
            final(epx).wf(),
            !self.releases(*old(epx)) ==> ops@ == Seq::<Op>::empty() && *final(epx) == *old(epx),
            self.releases(*old(epx)) ==> {
                &&& self.is_release(*old(epx), *final(epx), chip)
                &&& ops@ == self.release_ops(*old(epx), chip)
            },
    {
        let selected: usize = epx.current_channel;
        let mut ops: Vec<Op> = Vec::new();
        if selected == self.index || selected == 0 {
            // Stop the SIE before reconfiguring EPX.
            if self.transaction_active {
                ops.push(Op::Modify(Reg::SieCtrl, 0, SIE_STOP_TRANS));
                ops.push(Op::WaitClear(Reg::SieCtrl, SIE_STOP_TRANS));
                ops.push(Op::Clear(Reg::SieStatus, STATUS_OUTCOMES));
                ops.push(Op::Clear(Reg::BuffStatus, EPX_BUFF_STATUS));
            }
            match EpxState::slot(self.index) {
                Some(slot) => {
                    epx.arbiter.last = slot;

                    // Do not leak a cancelled attempt's outcome.
                    epx.arbiter.discard_outcome(slot);
                },
                None => {},
            }
            epx.arbiter.armed = false;
            epx.current_channel = 0;
            let mut disarm: Vec<Op> = epx.disarm_epx_yield(chip);
            ops.append(&mut disarm);
            let mut wakes: Vec<Op> = epx.wake_all();
            ops.append(&mut wakes);

            ops.push(Op::Modify(Reg::EpxControl, EP_INTERRUPT_PER_BUFF | EP_ENABLE, 0));
            ops.push(Op::Modify(Reg::EpInBufferControl(0), BUF_AVAILABLE, 0));
            assert(ops@ =~= self.release_ops(*old(epx), chip));
        }
        ops
    }
}

impl Channel {
    /// This pipe's slot in the EPX arrays.
    pub open spec fn spec_epx_slot(&self) -> usize {
        (self.index - EP_COUNT) as usize
    }

    /// This pipe's slot in the EPX arrays. Only meaningful for non-interrupt pipes.
    #[verifier::when_used_as_spec(spec_epx_slot)]
    pub fn epx_slot(&self) -> (slot: usize)
        requires
            self.wf(),
            !self.is_interrupt(),
        ensures
            slot == self.epx_slot(),
            slot < EPX_MAX_PIPES,
    {
        self.index - EP_COUNT
    }

    /// Whether the pipe holds EPX, or EPX is free and it is the pipe's turn or nobody's.
    pub open spec fn may_run(self, epx: EpxState) -> bool {
        ||| epx.current_channel == self.index
        ||| epx.current_channel == 0 && {
            ||| set16(epx.arbiter.waiting) == Set::<int>::empty()
            ||| is_turn(
                epx.arbiter.last as int,
                set16(epx.arbiter.waiting),
                self.epx_slot() as int,
            )
        }
    }

    /// Do we hold the shared endpoint, or may we take it next?
    pub fn can_run_transaction(&self, epx: &EpxState) -> (r: bool)
        requires
            self.wf(),
            !self.is_interrupt(),
            epx.wf(),
        ensures
            r == self.may_run(*epx),
    {
        let sel: usize = epx.current_channel;
        if sel == self.index {
            return true;
        }
        if sel != 0 {
            return false;
        }
        // EPX is free: take it only when the queue says it is our turn, so a pipe that keeps
        // re-arming cannot monopolise the endpoint.
        match epx.turn() {
            Some(slot) => {
                proof {
                    assert forall|s: int| #[trigger]
                        set16(epx.arbiter.waiting).contains(s) implies 0 <= s < EPX_MAX_PIPES by {
                        assert(in16(epx.arbiter.waiting, s));
                    }
                    if is_turn(
                        epx.arbiter.last as int,
                        set16(epx.arbiter.waiting),
                        self.epx_slot() as int,
                    ) {
                        turn_is_unique(
                            epx.arbiter.last as int,
                            set16(epx.arbiter.waiting),
                            slot as int,
                            self.epx_slot() as int,
                        );
                    }
                }
                slot == self.epx_slot()
            },
            None => true,
        }
    }

    /// One look at the queue from [`WaitTicket`] holders: whether EPX may be taken. While it may
    /// not, its holder is asked to yield.
    pub fn poll_acquire(&self, epx: &mut EpxState, chip: Chip) -> (r: (bool, Vec<Op>))
        requires
            self.wf(),
            !self.is_interrupt(),
            old(epx).wf(),
        ensures
            *final(epx) == *old(epx),
            r.0 == self.may_run(*old(epx)),
            r.1@ == if !r.0 {
                arm_yield_ops(chip)
            } else if chip == Chip::Rp235x {
                disarm_yield_ops(chip)
            } else {
                Seq::<Op>::empty()
            },
    {
        if self.can_run_transaction(epx) {
            match chip {
                Chip::Rp235x => (true, epx.disarm_epx_yield(chip)),
                Chip::Rp2040 => (true, Vec::new()),
            }
        } else {
            (false, arm_epx_yield(chip))
        }
    }

    /// One look at EPX, given its buffer control word: whether it is still this pipe that may take
    /// it, and its buffer is idle.
    pub fn poll_epx_buffer(&self, epx: &EpxState, buffer: u32) -> (r: (bool, Vec<Op>))
        requires
            self.wf(),
            !self.is_interrupt(),
            epx.wf(),
        ensures
            r.0 == (self.may_run(*epx) && !flag(buffer, BUF_AVAILABLE)),
            r.1@ == if self.may_run(*epx) {
                seq![Op::Clear(Reg::BuffStatus, EPX_BUFF_STATUS)]
            } else {
                Seq::<Op>::empty()
            },
    {
        if self.can_run_transaction(epx) {
            let ops: Vec<Op> = vec![Op::Clear(Reg::BuffStatus, EPX_BUFF_STATUS)];
            (!has_flag(buffer, BUF_AVAILABLE), ops)
        } else {
            (false, Vec::new())
        }
    }

    /// The steps that set EPX up for the pipe.
    pub open spec fn configure_epx_ops(self) -> Seq<Op> {
        seq![
            Op::Write(Reg::AddrEndp, spec_addr_word(self.dev_addr, self.ep_addr)),
            Op::Modify(
                Reg::EpxControl,
                EP_BUFFER_ADDRESS | EP_TYPE,
                EP_ENABLE | EP_INTERRUPT_PER_BUFF | self.buf.addr as u32 | spec_type_bits(
                    self.ep_type,
                ),
            ),
            Op::Modify(Reg::SieCtrl, SIE_PREAMBLE_EN, mask_if(self.pre, SIE_PREAMBLE_EN)),
        ]
    }

    /// Take EPX for the selected pipe and configure it.
    pub fn configure_epx_for_pipe(&self, epx: &mut EpxState) -> (ops: Vec<Op>)
        requires
            self.wf(),
            !self.is_interrupt(),
            old(epx).wf(),
        ensures
            final(epx).wf(),
            *final(epx) == (EpxState { current_channel: self.index, ..*old(epx) }),
            ops@ == self.configure_epx_ops(),
    {
        epx.current_channel = self.index;
        vec![
            Op::Write(Reg::AddrEndp, addr_word(self.dev_addr, self.ep_addr)),
            Op::Modify(
                Reg::EpxControl,
                EP_BUFFER_ADDRESS | EP_TYPE,
                EP_ENABLE | EP_INTERRUPT_PER_BUFF | self.buf.addr as u32 | type_bits(self.ep_type),
            ),
            Op::Modify(Reg::SieCtrl, SIE_PREAMBLE_EN, mask_when(self.pre, SIE_PREAMBLE_EN)),
        ]
    }

    /// Take EPX for this pipe, once the queue and the buffer have let it. The guard releases it.
    pub fn acquire_epx(&self, epx: &mut EpxState, ticket: WaitTicket) -> (r: (
        EpxTransactionGuard,
        Vec<Op>,
    ))
        requires
            self.wf(),
            !self.is_interrupt(),
            old(epx).wf(),
            ticket.slot == self.epx_slot(),
            self.may_run(*old(epx)),
        ensures
            final(epx).wf(),
            r.0 == (EpxTransactionGuard { index: self.index, transaction_active: false }),
            r.1@ == self.configure_epx_ops(),
            set16(final(epx).arbiter.waiting) == set16(old(epx).arbiter.waiting).remove(
                self.epx_slot() as int,
            ),
            *final(epx) == (EpxState {
                current_channel: self.index,
                arbiter: EpxArbiter { waiting: final(epx).arbiter.waiting, ..old(epx).arbiter },
                ..*old(epx)
            }),
    {
        ticket.release(epx);
        let ops: Vec<Op> = self.configure_epx_for_pipe(epx);
        (EpxTransactionGuard::new(self), ops)
    }

    /// The steps that start the armed transaction. The receive timeout is unreliable for
    /// low-speed devices behind hubs, so it stays masked.
    pub open spec fn start_transaction_ops() -> Seq<Op> {
        seq![
            Op::Modify(
                Reg::Inte,
                INT_ERROR_RX_TIMEOUT,
                INT_TRANS_COMPLETE | INT_STALL | INT_ERROR_RX_OVERFLOW | INT_ERROR_CRC
                    | INT_ERROR_BIT_STUFF | INT_ERROR_DATA_SEQ,
            ),
            Op::Delay(SIE_START_DELAY_CYCLES),
            Op::Modify(Reg::SieCtrl, 0, SIE_START_TRANS),
        ]
    }

    /// Start the armed transaction.
    pub fn start_epx_transaction(&self) -> (ops: Vec<Op>)
        requires
            !self.is_interrupt(),
        ensures
            ops@ == Self::start_transaction_ops(),
    {
        vec![
            Op::Modify(
                Reg::Inte,
                INT_ERROR_RX_TIMEOUT,
                INT_TRANS_COMPLETE | INT_STALL | INT_ERROR_RX_OVERFLOW | INT_ERROR_CRC
                    | INT_ERROR_BIT_STUFF | INT_ERROR_DATA_SEQ,
            ),
            Op::Delay(SIE_START_DELAY_CYCLES),
            Op::Modify(Reg::SieCtrl, 0, SIE_START_TRANS),
        ]
    }

    /// Whether the interrupt stopped this pipe's transaction short. Consumes the note.
    pub fn take_nak_yield(&self, epx: &mut EpxState) -> (was: bool)
        requires
            self.wf(),
            !self.is_interrupt(),
            old(epx).wf(),
        ensures
            final(epx).wf(),
            was == set16(old(epx).arbiter.yielded).contains(self.epx_slot() as int),
            set16(final(epx).arbiter.yielded) == set16(old(epx).arbiter.yielded).remove(
                self.epx_slot() as int,
            ),
            *final(epx) == (EpxState {
                arbiter: EpxArbiter { yielded: final(epx).arbiter.yielded, ..old(epx).arbiter },
                ..*old(epx)
            }),
    {
        epx.arbiter.take_yielded(self.epx_slot())
    }

    /// What the interrupt recorded for this pipe, an error first, then a completion, then a
    /// yield.
    pub open spec fn recorded_outcome(self, epx: EpxState) -> Option<
        Result<TransactionStatus, PipeError>,
    > {
        let slot = self.epx_slot() as int;
        match epx.arbiter.error_of(slot) {
            Some(error) => Some(Err(pipe_error(error))),
            None => if set16(epx.arbiter.completed).contains(slot) {
                Some(Ok(TransactionStatus::Complete))
            } else if set16(epx.arbiter.yielded).contains(slot) {
                Some(Ok(TransactionStatus::NakYield))
            } else {
                None
            },
        }
    }

    /// Whether `next` is `epx` with the recorded outcome that is reported consumed, and no other.
    pub open spec fn outcome_consumed(self, epx: EpxState, next: EpxState) -> bool {
        let slot = self.epx_slot() as int;
        let failed = epx.arbiter.error_of(slot) is Some;
        let completed = set16(epx.arbiter.completed).contains(slot);
        &&& set16(next.arbiter.completed) == if failed {
            set16(epx.arbiter.completed)
        } else {
            set16(epx.arbiter.completed).remove(slot)
        }
        &&& set16(next.arbiter.yielded) == if failed || completed {
            set16(epx.arbiter.yielded)
        } else {
            set16(epx.arbiter.yielded).remove(slot)
        }
        &&& forall|s: int|
            0 <= s < EPX_MAX_PIPES ==> #[trigger] error_field(next.arbiter.error, s) == if s
                == slot {
                0
            } else {
                error_field(epx.arbiter.error, s)
            }
        &&& next == (EpxState {
            arbiter: EpxArbiter {
                completed: next.arbiter.completed,
                yielded: next.arbiter.yielded,
                error: next.arbiter.error,
                ..epx.arbiter
            },
            ..epx
        })
    }

    /// What SIE_STATUS says of the transaction, and the latched bit to clear for it.
    pub open spec fn latched_outcome(sie_status: u32) -> Option<
        (Result<TransactionStatus, PipeError>, u32),
    > {
        if flag(sie_status, STATUS_TRANS_COMPLETE) {
            Some((Ok(TransactionStatus::Complete), STATUS_TRANS_COMPLETE))
        } else if flag(sie_status, STATUS_STALL_REC) {
            Some((Err(PipeError::Stall), STATUS_STALL_REC))
        } else if flag(sie_status, STATUS_RX_OVERFLOW) {
            Some((Err(PipeError::BufferOverflow), STATUS_RX_OVERFLOW))
        } else {
            None
        }
    }

    /// How the transaction ended, if it did: as recorded, or else as latched.
    pub open spec fn outcome_of(self, epx: EpxState, sie_status: u32) -> Option<
        Result<TransactionStatus, PipeError>,
    > {
        match self.recorded_outcome(epx) {
            Some(outcome) => Some(outcome),
            None => match Self::latched_outcome(sie_status) {
                Some((outcome, _)) => Some(outcome),
                None => None,
            },
        }
    }

    /// The step that clears the latched outcome, where that is the one reported.
    pub open spec fn outcome_ops(self, epx: EpxState, sie_status: u32) -> Seq<Op> {
        match (self.recorded_outcome(epx), Self::latched_outcome(sie_status)) {
            (None, Some((_, mask))) => seq![Op::Clear(Reg::SieStatus, mask)],
            _ => Seq::empty(),
        }
    }

    /// One look at a running transaction, given SIE_STATUS. `None` while it runs.
    ///
    /// What the interrupt recorded comes before what the controller has latched, and only the
    /// one outcome that is reported is consumed.
    pub fn wait_epx_transaction(&self, epx: &mut EpxState, sie_status: u32) -> (r: (
        Option<Result<TransactionStatus, PipeError>>,
        Vec<Op>,
    ))
        requires
            self.wf(),
            !self.is_interrupt(),
            old(epx).wf(),
        ensures
            final(epx).wf(),
            r.0 == self.outcome_of(*old(epx), sie_status),
            r.1@ == self.outcome_ops(*old(epx), sie_status),
            self.outcome_consumed(*old(epx), *final(epx)),
    {
        let slot: usize = self.epx_slot();
        match epx.arbiter.take_error(slot) {
            Some(error) => {
                return (Some(Err(error)), Vec::new());
            },
            None => {},
        }
        if epx.arbiter.take_completed(slot) {
            return (Some(Ok(TransactionStatus::Complete)), Vec::new());
        }
        if self.take_nak_yield(epx) {
            return (Some(Ok(TransactionStatus::NakYield)), Vec::new());
        }
        if has_flag(sie_status, STATUS_TRANS_COMPLETE) {
            let ops: Vec<Op> = vec![Op::Clear(Reg::SieStatus, STATUS_TRANS_COMPLETE)];
            return (Some(Ok(TransactionStatus::Complete)), ops);
        }
        if has_flag(sie_status, STATUS_STALL_REC) {
            let ops: Vec<Op> = vec![Op::Clear(Reg::SieStatus, STATUS_STALL_REC)];
            return (Some(Err(PipeError::Stall)), ops);
        }
        if has_flag(sie_status, STATUS_RX_OVERFLOW) {
            let ops: Vec<Op> = vec![Op::Clear(Reg::SieStatus, STATUS_RX_OVERFLOW)];
            return (Some(Err(PipeError::BufferOverflow)), ops);
        }
        (None, Vec::new())
    }

    /// Stop a transaction that overran its deadline.
    pub fn stop_epx_transaction(&self) -> (ops: Vec<Op>)
        ensures
            ops@ == stop_ops(),
    {
        vec![
            Op::Modify(Reg::SieCtrl, 0, SIE_STOP_TRANS),
            Op::WaitClear(Reg::SieCtrl, SIE_STOP_TRANS),
        ]
    }

    /// Whether a transaction completed just before it was stopped at its deadline.
    pub open spec fn completed_in_time(
        setup: bool,
        sie_status: u32,
        buffer: u32,
        sie_ctrl: u32,
    ) -> bool {
        if setup {
            flag(sie_status, STATUS_TRANS_COMPLETE)
        } else {
            spec_packet_moved(buffer, flag(sie_ctrl, SIE_SEND_DATA))
        }
    }

    /// How a transaction ended that was stopped at its deadline.
    pub open spec fn status_after_deadline(
        setup: bool,
        sie_status: u32,
        buffer: u32,
        sie_ctrl: u32,
    ) -> TransactionStatus {
        if Self::completed_in_time(setup, sie_status, buffer, sie_ctrl) {
            TransactionStatus::Complete
        } else {
            TransactionStatus::Timeout
        }
    }

    /// The steps that settle a transaction that was stopped at its deadline.
    pub open spec fn timed_out_ops(
        epx: EpxState,
        setup: bool,
        sie_status: u32,
        buffer: u32,
        sie_ctrl: u32,
    ) -> Seq<Op> {
        match (setup, Self::completed_in_time(setup, sie_status, buffer, sie_ctrl)) {
            (true, true) => seq![Op::Clear(Reg::SieStatus, STATUS_TRANS_COMPLETE)],
            (true, false) => void_ops(),
            (false, true) => epx.yield_ops(buffer, sie_ctrl),
            (false, false) => epx.yield_ops(buffer, sie_ctrl) + void_ops(),
        }
    }

    /// Find out how a transaction ended that was stopped at its deadline. `setup` tells whether
    /// it was a SETUP transaction; the register words are sampled after the stop.
    pub fn stop_timed_out_transaction(
        &self,
        epx: &mut EpxState,
        setup: bool,
        sie_status: u32,
        buffer: u32,
        sie_ctrl: u32,
    ) -> (r: (TransactionStatus, Vec<Op>))
        requires
            self.wf(),
            !self.is_interrupt(),
            old(epx).wf(),
        ensures
            final(epx).wf(),
            r.0 == Self::status_after_deadline(setup, sie_status, buffer, sie_ctrl),
            r.1@ == Self::timed_out_ops(*old(epx), setup, sie_status, buffer, sie_ctrl),
            setup ==> *final(epx) == *old(epx),
            !setup && r.0 == TransactionStatus::Complete ==> {
                &&& set16(final(epx).arbiter.completed) == set16(old(epx).arbiter.completed).remove(
                    self.epx_slot() as int,
                )
                &&& *final(epx) == (EpxState {
                    arbiter: EpxArbiter {
                        completed: final(epx).arbiter.completed,
                        ..old(epx).arbiter
                    },
                    ..*old(epx)
                })
            },
            !setup && r.0 == TransactionStatus::Timeout ==> old(epx).is_yield(
                *final(epx),
                self.index,
                false,
            ),
    {
        if setup {
            if has_flag(sie_status, STATUS_TRANS_COMPLETE) {
                let ops: Vec<Op> = vec![Op::Clear(Reg::SieStatus, STATUS_TRANS_COMPLETE)];
                return (TransactionStatus::Complete, ops);
            }
            // Do not expose this result to the next owner.
            let ops: Vec<Op> = vec![
                Op::Clear(Reg::SieStatus, STATUS_OUTCOMES),
                Op::Clear(Reg::BuffStatus, EPX_BUFF_STATUS),
            ];
            return (TransactionStatus::Timeout, ops);
        }
        let (yielded, mut ops) = epx.yield_epx(self.index, buffer, sie_ctrl);
        if !yielded {
            let _ = epx.arbiter.take_completed(self.epx_slot());
            assert(set16(epx.arbiter.completed) =~= set16(old(epx).arbiter.completed).remove(
                self.epx_slot() as int,
            ));
            (TransactionStatus::Complete, ops)
        } else {
            ops.push(Op::Clear(Reg::SieStatus, STATUS_OUTCOMES));
            ops.push(Op::Clear(Reg::BuffStatus, EPX_BUFF_STATUS));
            assert(ops@ =~= old(epx).yield_ops(buffer, sie_ctrl) + void_ops());
            (TransactionStatus::Timeout, ops)
        }
    }

    /// The steps that arm a SETUP transaction.
    pub open spec fn setup_ops(setup: Seq<u8>) -> Seq<Op> {
        seq![
            Op::Write(Reg::SetupPacketLow, le_word(setup[0], setup[1], setup[2], setup[3]) as u32),
            Op::Write(Reg::SetupPacketHigh, le_word(setup[4], setup[5], setup[6], setup[7]) as u32),
            Op::Modify(Reg::SieCtrl, SIE_SEND_DATA | SIE_RECEIVE_DATA, SIE_SEND_SETUP),
        ]
    }

    /// Copy setup packet to buffer and set SETUP transaction.
    ///
    /// Set PID = 1 for next transaction.
    pub fn set_setup_packet(&mut self, setup: &[u8; 8]) -> (ops: Vec<Op>)
        requires
            old(self).ep_type == EndpointType::Control,
        ensures
            *final(self) == (Channel { pid: true, ..*old(self) }),
            ops@ == Self::setup_ops(setup@),
    {
        self.pid = true;
        vec![
            Op::Write(Reg::SetupPacketLow, pack_bytes(setup[0], setup[1], setup[2], setup[3])),
            Op::Write(Reg::SetupPacketHigh, pack_bytes(setup[4], setup[5], setup[6], setup[7])),
            Op::Modify(Reg::SieCtrl, SIE_SEND_DATA | SIE_RECEIVE_DATA, SIE_SEND_SETUP),
        ]
    }

    /// The toggle that a packet carries: always DATA0 on an isochronous pipe.
    pub open spec fn packet_pid(self, pid: bool) -> bool {
        pid && self.ep_type != EndpointType::Isochronous
    }

    /// The steps that arm a DATA IN transaction.
    pub open spec fn data_in_ops(self, len: u16, pid: bool) -> Seq<Op> {
        hand_over_ops(
            self.buffer_control(),
            spec_buffer_word(true, self.packet_pid(pid), false, len),
        ) + seq![Op::Modify(Reg::SieCtrl, SIE_SEND_DATA | SIE_SEND_SETUP, SIE_RECEIVE_DATA)]
    }

    /// Set DATA IN transaction.
    pub fn set_data_in(&self, len: u16, pid: bool) -> (ops: Vec<Op>)
        requires
            !self.is_interrupt(),
        ensures
            ops@ == self.data_in_ops(len, pid),
    {
        let pid_bit: bool = if self.ep_type == EndpointType::Isochronous {
            false
        } else {
            pid
        };
        let mut ops: Vec<Op> = self.write_buffer_control(buffer_word(true, pid_bit, false, len));
        ops.push(Op::Modify(Reg::SieCtrl, SIE_SEND_DATA | SIE_SEND_SETUP, SIE_RECEIVE_DATA));
        assert(ops@ =~= self.data_in_ops(len, pid));
        ops
    }

    /// The steps that arm a DATA OUT transaction for the first packet of `data[from..total]`.
    pub open spec fn data_out_ops(self, from: usize, total: usize, pid: bool) -> Seq<Op> {
        let chunk = self.packet_len(total - from);
        seq![Op::CopyOut { addr: self.buf.addr, from, len: chunk as usize }] + hand_over_ops(
            self.buffer_control(),
            spec_buffer_word(true, self.packet_pid(pid), true, chunk as u16),
        ) + seq![Op::Modify(Reg::SieCtrl, SIE_SEND_SETUP | SIE_RECEIVE_DATA, SIE_SEND_DATA)]
    }

    /// Set DATA OUT transaction and copy the next packet of `data[from..total]` to the buffer.
    /// Returns count of copied bytes.
    pub fn set_data_out(&self, from: usize, total: usize, pid: bool) -> (r: (usize, Vec<Op>))
        requires
            self.wf(),
            !self.is_interrupt(),
            from <= total,
            from < total ==> self.max_packet_size > 0,
        ensures
            r.0 == self.packet_len(total - from),
            r.1@ == self.data_out_ops(from, total, pid),
    {
        let pid_bit: bool = if self.ep_type == EndpointType::Isochronous {
            false
        } else {
            pid
        };
        let chunk: usize = if total - from <= self.max_packet_size as usize {
            total - from
        } else {
            self.max_packet_size as usize
        };
        let mut ops: Vec<Op> = vec![Op::CopyOut { addr: self.buf.addr, from, len: chunk }];
        let word: u32 = buffer_word(true, pid_bit, true, chunk as u16);
        let mut hand_over: Vec<Op> = self.write_buffer_control(word);
        ops.append(&mut hand_over);
        ops.push(Op::Modify(Reg::SieCtrl, SIE_SEND_SETUP | SIE_RECEIVE_DATA, SIE_SEND_DATA));
        assert(ops@ =~= self.data_out_ops(from, total, pid));
        (chunk, ops)
    }

    /// What follows a transaction that ended with `result`. An isochronous packet cannot be
    /// replayed in a later frame; any other is sent again after a yield.
    pub open spec fn next_of(self, result: Result<TransactionStatus, PipeError>) -> TransactionNext {
        match result {
            Ok(TransactionStatus::Complete) => TransactionNext::Return(Ok(())),
            Ok(TransactionStatus::NakYield) => if self.ep_type == EndpointType::Isochronous {
                TransactionNext::Return(Err(PipeError::Canceled))
            } else {
                TransactionNext::Retry
            },
            Ok(TransactionStatus::Timeout) => TransactionNext::Return(Err(PipeError::Timeout)),
            Err(error) => TransactionNext::Return(Err(error)),
        }
    }

    /// Whether the controller is known to have released EPX.
    pub open spec fn sie_released(result: Result<TransactionStatus, PipeError>) -> bool {
        result == Ok::<TransactionStatus, PipeError>(TransactionStatus::Complete) || result == Ok::<
            TransactionStatus,
            PipeError,
        >(TransactionStatus::Timeout)
    }

    /// Decide what follows a transaction. Only completion and a timeout that was waited for
    /// prove that the controller released EPX; other outcomes leave the guard armed, so that
    /// releasing it stops the transaction.
    pub fn after_transaction(
        &self,
        guard: &mut EpxTransactionGuard,
        epx: &mut EpxState,
        result: Result<TransactionStatus, PipeError>,
    ) -> (next: TransactionNext)
        ensures
            next == self.next_of(result),
            result == Ok::<TransactionStatus, PipeError>(TransactionStatus::NakYield) ==> next
                == match self.ep_type {
                EndpointType::Isochronous => TransactionNext::Return(
                    Err::<(), PipeError>(PipeError::Canceled),
                ),
                _ => TransactionNext::Retry,
            },
            *final(guard) == if Self::sie_released(result) {
                EpxTransactionGuard { transaction_active: false, ..*old(guard) }
            } else {
                *old(guard)
            },
            *final(epx) == if Self::sie_released(result) {
                EpxState {
                    arbiter: EpxArbiter { armed: false, ..old(epx).arbiter },
                    ..*old(epx)
                }
            } else {
                *old(epx)
            },
    {
        match result {
            Ok(TransactionStatus::Complete) => {
                guard.disarm(epx);
                TransactionNext::Return(Ok(()))
            },
            Ok(TransactionStatus::NakYield) => {
                if self.ep_type == EndpointType::Isochronous {
                    TransactionNext::Return(Err(PipeError::Canceled))
                } else {
                    TransactionNext::Retry
                }
            },
            Ok(TransactionStatus::Timeout) => {
                guard.disarm(epx);
                TransactionNext::Return(Err(PipeError::Timeout))
            },
            Err(error) => TransactionNext::Return(Err(error)),
        }
    }
}

} // verus!
