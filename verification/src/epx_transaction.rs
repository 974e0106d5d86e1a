//! The course of one transaction on EPX, from joining the queue to letting the endpoint go.
//!
//! A caller drives it: it queues, looks again whenever it is woken, and may cancel at any time.

use vstd::prelude::*;
use crate::arbiter::EpxArbiter;
use crate::bits::set16;
use crate::channel::Channel;
use crate::epx::{arm_yield_ops, disarm_yield_ops, EpxState};
use crate::regs::{flag, has_flag, Op, Reg, BUF_AVAILABLE, SIE_SEND_SETUP};
use crate::transaction::{
    stop_ops, EpxTransactionGuard, TransactionNext, TransactionStatus, WaitTicket, EPX_BUFF_STATUS,
};
use crate::types::{Chip, EndpointType, PipeError};

verus! {

/// What a transaction moves.
#[derive(Clone, Copy, PartialEq, Eq, Debug)]
pub enum Request {
    /// A setup packet.
    Setup([u8; 8]),
    /// A packet from the device, of at most `len` bytes.
    DataIn { len: u16, pid: bool },
    /// The first packet of `data[from..total]`.
    DataOut { from: usize, total: usize, pid: bool },
}

impl Request {
    /// Whether a pipe can carry the request.
    pub open spec fn fits(self, channel: Channel) -> bool {
        match self {
            Request::Setup(_) => channel.ep_type == EndpointType::Control,
            Request::DataIn { .. } => true,
            Request::DataOut { from, total, .. } => from <= total && (from < total
                ==> channel.max_packet_size > 0),
        }
    }

    /// The steps that arm the request.
    pub open spec fn ops(self, channel: Channel) -> Seq<Op> {
        match self {
            Request::Setup(setup) => Channel::setup_ops(setup@),
            Request::DataIn { len, pid } => channel.data_in_ops(len, pid),
            Request::DataOut { from, total, pid } => channel.data_out_ops(from, total, pid),
        }
    }

    /// The pipe once the request is armed: a setup packet sets DATA1 for the next transaction.
    pub open spec fn armed(self, channel: Channel) -> Channel {
        match self {
            Request::Setup(_) => Channel { pid: true, ..channel },
            _ => channel,
        }
    }

    /// Program the buffer for the request.
    pub fn arm(&self, channel: &mut Channel) -> (ops: Vec<Op>)
        requires
            old(channel).wf(),
            !old(channel).is_interrupt(),
            self.fits(*old(channel)),
        ensures
            ops@ == self.ops(*old(channel)),
            *final(channel) == self.armed(*old(channel)),
    {
        match self {
            Request::Setup(setup) => channel.set_setup_packet(setup),
            Request::DataIn { len, pid } => channel.set_data_in(*len, *pid),
            Request::DataOut { from, total, pid } => channel.set_data_out(*from, *total, *pid).1,
        }
    }
}

/// Where a transaction stands.
#[derive(Clone, Copy, PartialEq, Eq, Structural, Debug)]
pub enum Phase {
    /// Neither queued nor holding EPX.
    Idle,
    /// Waiting for the turn.
    Queued,
    /// It is the pipe's turn; waiting for the EPX buffer to be idle. Still queued, because
    /// leaving early could move the turn.
    Settling,
    /// Holding EPX with a transaction armed.
    Running,
}

/// A transaction of one pipe.
#[derive(Clone, Copy, PartialEq, Eq, Structural, Debug)]
pub struct EpxTransaction {
    pub phase: Phase,
    pub guard: EpxTransactionGuard,
}

impl EpxTransaction {
    /// The transaction of `channel` fits the shared state: the pipe is queued in the waiting
    /// phases and no other, and holds EPX only while it runs.
    pub open spec fn inv(self, channel: Channel, epx: EpxState) -> bool {
        &&& channel.wf()
        &&& !channel.is_interrupt()
        &&& epx.wf()
        &&& self.guard.index == channel.index
        &&& set16(epx.arbiter.waiting).contains(channel.epx_slot() as int) <==> (self.phase
            == Phase::Queued || self.phase == Phase::Settling)
        &&& epx.current_channel == channel.index ==> self.phase == Phase::Running
    }

    /// A transaction that has not begun.
    pub fn new(channel: &Channel) -> (t: EpxTransaction)
        requires
            channel.wf(),
            !channel.is_interrupt(),
        ensures
            t.phase == Phase::Idle,
            t.guard == (EpxTransactionGuard { index: channel.index, transaction_active: false }),
    {
        EpxTransaction { phase: Phase::Idle, guard: EpxTransactionGuard::new(channel) }
    }

    /// Join the queue for EPX.
    pub fn enqueue(&mut self, channel: &Channel, epx: &mut EpxState)
        requires
            old(self).inv(*channel, *old(epx)),
            old(self).phase == Phase::Idle,
        ensures
            final(self).inv(*channel, *final(epx)),
            *final(self) == (EpxTransaction { phase: Phase::Queued, ..*old(self) }),
            set16(final(epx).arbiter.waiting) == set16(old(epx).arbiter.waiting).insert(
                channel.epx_slot() as int,
            ),
            *final(epx) == (EpxState {
                arbiter: EpxArbiter { waiting: final(epx).arbiter.waiting, ..old(epx).arbiter },
                ..*old(epx)
            }),
    {
        let _ = WaitTicket::new(epx, channel.epx_slot());
        self.phase = Phase::Queued;
    }

    /// Look whether it is the pipe's turn. Returns whether it is.
    pub fn poll_queue(&mut self, channel: &Channel, epx: &mut EpxState, chip: Chip) -> (r: (
        bool,
        Vec<Op>,
    ))
        requires
            old(self).inv(*channel, *old(epx)),
            old(self).phase == Phase::Queued,
        ensures
            final(self).inv(*channel, *final(epx)),
            r.0 == channel.may_run(*old(epx)),
            r.1@ == if !r.0 {
                arm_yield_ops(chip)
            } else if chip == Chip::Rp235x {
                disarm_yield_ops(chip)
            } else {
                Seq::<Op>::empty()
            },
            *final(self) == (EpxTransaction {
                phase: if r.0 {
                    Phase::Settling
                } else {
                    Phase::Queued
                },
                ..*old(self)
            }),
            *final(epx) == *old(epx),
    {
        let (ready, ops) = channel.poll_acquire(epx, chip);
        if ready {
            self.phase = Phase::Settling;
        }
        (ready, ops)
    }

    /// The steps of a look at the EPX buffer.
    pub open spec fn settle_ops(
        channel: Channel,
        epx: EpxState,
        request: Request,
        buffer: u32,
    ) -> Seq<Op> {
        if !channel.may_run(epx) {
            Seq::empty()
        } else if flag(buffer, BUF_AVAILABLE) {
            seq![Op::Clear(Reg::BuffStatus, EPX_BUFF_STATUS)]
        } else {
            seq![Op::Clear(Reg::BuffStatus, EPX_BUFF_STATUS)] + channel.configure_epx_ops()
                + request.ops(channel) + Channel::start_transaction_ops()
        }
    }

    /// Look whether it is still the pipe's turn and the EPX buffer is idle, given its control
    /// word, and if so claim EPX, arm the request and start it. A pipe that has lost its turn goes
    /// back to waiting for it. Returns whether the transaction was started.
    pub fn poll_buffer(
        &mut self,
        channel: &mut Channel,
        epx: &mut EpxState,
        request: &Request,
        buffer: u32,
    ) -> (r: (bool, Vec<Op>))
        requires
            old(self).inv(*old(channel), *old(epx)),
            old(self).phase == Phase::Settling,
            request.fits(*old(channel)),
        ensures
            final(self).inv(*final(channel), *final(epx)),
            r.0 == (old(channel).may_run(*old(epx)) && !flag(buffer, BUF_AVAILABLE)),
            r.1@ == Self::settle_ops(*old(channel), *old(epx), *request, buffer),
            !r.0 ==> {
                &&& *final(self) == (EpxTransaction {
                    phase: if old(channel).may_run(*old(epx)) {
                        Phase::Settling
                    } else {
                        Phase::Queued
                    },
                    ..*old(self)
                })
                &&& *final(epx) == *old(epx)
                &&& *final(channel) == *old(channel)
            },
            r.0 ==> {
                &&& old(epx).current_channel == 0
                &&& *final(channel) == request.armed(*old(channel))
                &&& *final(self) == (EpxTransaction {
                    phase: Phase::Running,
                    guard: EpxTransactionGuard {
                        index: old(channel).index,
                        transaction_active: true,
                    },
                })
                &&& set16(final(epx).arbiter.waiting) == set16(old(epx).arbiter.waiting).remove(
                    old(channel).epx_slot() as int,
                )
                &&& *final(epx) == (EpxState {
                    current_channel: old(channel).index,
                    arbiter: EpxArbiter {
                        waiting: final(epx).arbiter.waiting,
                        armed: true,
                        ..old(epx).arbiter
                    },
                    ..*old(epx)
                })
            },
    {
        let (idle, mut ops) = channel.poll_epx_buffer(epx, buffer);
        if idle {
            let (mut guard, mut configure) = channel.acquire_epx(
                epx,
                WaitTicket { slot: channel.epx_slot() },
            );
            ops.append(&mut configure);
            let mut arm: Vec<Op> = request.arm(channel);
            ops.append(&mut arm);
            guard.arm(epx);
            let mut start: Vec<Op> = channel.start_epx_transaction();
            ops.append(&mut start);
            self.guard = guard;
            self.phase = Phase::Running;
        } else if !channel.can_run_transaction(epx) {
            self.phase = Phase::Queued;
        }
        assert(ops@ =~= Self::settle_ops(*old(channel), *old(epx), *request, buffer));
        (idle, ops)
    }

    /// The guard as `result` leaves it: still armed unless the controller released EPX.
    pub open spec fn guard_after(self, result: Result<TransactionStatus, PipeError>) -> EpxTransactionGuard {
        EpxTransactionGuard {
            transaction_active: self.guard.transaction_active && !Channel::sie_released(result),
            ..self.guard
        }
    }

    /// Look at the running transaction, given SIE_STATUS. Once it has ended, EPX is let go, and
    /// the result says what follows.
    pub fn poll_transaction(
        &mut self,
        channel: &Channel,
        epx: &mut EpxState,
        chip: Chip,
        sie_status: u32,
    ) -> (r: (Option<TransactionNext>, Vec<Op>))
        requires
            old(self).inv(*channel, *old(epx)),
            old(self).phase == Phase::Running,
        ensures
            final(self).inv(*channel, *final(epx)),
            match channel.outcome_of(*old(epx), sie_status) {
                None => {
                    &&& r.0 is None
                    &&& r.1@ == Seq::<Op>::empty()
                    &&& *final(self) == *old(self)
                    &&& channel.outcome_consumed(*old(epx), *final(epx))
                },
                Some(result) => {
                    let guard = old(self).guard_after(result);
                    &&& r.0 == Some(channel.next_of(result))
                    &&& *final(self) == (EpxTransaction { phase: Phase::Idle, guard })
                    &&& guard.releases(*old(epx)) ==> {
                        &&& guard.is_release(*old(epx), *final(epx), chip)
                        &&& r.1@ == channel.outcome_ops(*old(epx), sie_status)
                            + guard.release_ops(*old(epx), chip)
                    }
                    &&& !guard.releases(*old(epx)) ==> {
                        &&& final(epx).arbiter.armed == (old(epx).arbiter.armed
                            && !Channel::sie_released(result))
                        &&& channel.outcome_consumed(
                            EpxState {
                                arbiter: EpxArbiter {
                                    armed: final(epx).arbiter.armed,
                                    ..old(epx).arbiter
                                },
                                ..*old(epx)
                            },
                            *final(epx),
                        )
                        &&& r.1@ == channel.outcome_ops(*old(epx), sie_status)
                    }
                },
            },
    {
        let (outcome, mut ops) = channel.wait_epx_transaction(epx, sie_status);
        match outcome {
            None => (None, ops),
            Some(result) => {
                let next: TransactionNext = channel.after_transaction(
                    &mut self.guard,
                    epx,
                    result,
                );
                let mut release: Vec<Op> = self.guard.release(epx, chip);
                self.phase = Phase::Idle;
                ops.append(&mut release);
                proof {
                    let slot = channel.epx_slot() as int;
                    assert(set16(old(epx).arbiter.completed).remove(slot).remove(slot) =~= set16(
                        old(epx).arbiter.completed,
                    ).remove(slot));
                    assert(set16(old(epx).arbiter.yielded).remove(slot).remove(slot) =~= set16(
                        old(epx).arbiter.yielded,
                    ).remove(slot));
                    if !self.guard.releases(*old(epx)) {
                        assert(ops@ =~= channel.outcome_ops(*old(epx), sie_status));
                    }
                }
                (Some(next), ops)
            },
        }
    }

    /// How long the transaction may take, in microseconds, counted from when it was first asked
    /// for. Without a budget it is waited for without a deadline.
    pub fn budget_us(&self, channel: &Channel) -> (us: Option<u64>)
        ensures
            us == channel.control_timeout_us,
    {
        channel.control_timeout_us
    }

    /// The deadline passed: stop the transaction. [`EpxTransaction::finish_timed_out`] follows,
    /// with the register words sampled after these steps.
    pub fn stop(&self, channel: &Channel) -> (ops: Vec<Op>)
        requires
            channel.control_timeout_us is Some,
        ensures
            ops@ == stop_ops(),
    {
        channel.stop_epx_transaction()
    }

    /// Conclude a transaction that was stopped at its deadline, and let EPX go. `armed_ctrl` is
    /// SIE_CTRL as it was before the stop, which tells whether a SETUP transaction was selected.
    pub fn finish_timed_out(
        &mut self,
        channel: &Channel,
        epx: &mut EpxState,
        chip: Chip,
        armed_ctrl: u32,
        sie_status: u32,
        buffer: u32,
        sie_ctrl: u32,
    ) -> (r: (TransactionNext, Vec<Op>))
        requires
            old(self).inv(*channel, *old(epx)),
            old(self).phase == Phase::Running,
            channel.control_timeout_us is Some,
        ensures
            final(self).inv(*channel, *final(epx)),
            ({
                let setup = flag(armed_ctrl, SIE_SEND_SETUP);
                let done = Channel::completed_in_time(setup, sie_status, buffer, sie_ctrl);
                let settle = Channel::timed_out_ops(
                    *old(epx),
                    setup,
                    sie_status,
                    buffer,
                    sie_ctrl,
                );
                let guard = EpxTransactionGuard { transaction_active: false, ..old(self).guard };
                let releases = guard.releases(*old(epx)) || !setup && !done;
                &&& r.0 == channel.next_of(
                    Ok(Channel::status_after_deadline(setup, sie_status, buffer, sie_ctrl)),
                )
                &&& r.0 == TransactionNext::Return(
                    if done {
                        Ok::<(), PipeError>(())
                    } else {
                        Err::<(), PipeError>(PipeError::Timeout)
                    },
                )
                &&& *final(self) == (EpxTransaction { phase: Phase::Idle, guard })
                &&& releases ==> {
                    &&& guard.is_release(*old(epx), *final(epx), chip)
                    &&& r.1@ == settle + guard.release_ops(*old(epx), chip)
                }
                &&& !releases ==> {
                    &&& set16(final(epx).arbiter.completed) == if setup {
                        set16(old(epx).arbiter.completed)
                    } else {
                        set16(old(epx).arbiter.completed).remove(channel.epx_slot() as int)
                    }
                    &&& *final(epx) == (EpxState {
                        arbiter: EpxArbiter {
                            armed: false,
                            completed: final(epx).arbiter.completed,
                            ..old(epx).arbiter
                        },
                        ..*old(epx)
                    })
                    &&& r.1@ == settle
                }
            }),
    {
        let (status, mut ops) = channel.stop_timed_out_transaction(
            epx,
            has_flag(armed_ctrl, SIE_SEND_SETUP),
            sie_status,
            buffer,
            sie_ctrl,
        );
        let ghost settle = ops@;
        let next: TransactionNext = channel.after_transaction(&mut self.guard, epx, Ok(status));
        let mut release: Vec<Op> = self.guard.release(epx, chip);
        self.phase = Phase::Idle;
        ops.append(&mut release);
        proof {
            let slot = channel.epx_slot() as int;
            assert(set16(old(epx).arbiter.completed).remove(slot).remove(slot) =~= set16(
                old(epx).arbiter.completed,
            ).remove(slot));
            assert(set16(old(epx).arbiter.yielded).insert(slot).remove(slot) =~= set16(
                old(epx).arbiter.yielded,
            ).remove(slot));
            assert(settle + Seq::<Op>::empty() =~= settle);
        }
        (next, ops)
    }

    /// Give up, at whatever point: leave the queue, or stop the transaction and let EPX go.
    pub fn cancel(&mut self, channel: &Channel, epx: &mut EpxState, chip: Chip) -> (ops: Vec<Op>)
        requires
            old(self).inv(*channel, *old(epx)),
        ensures
            final(self).inv(*channel, *final(epx)),
            *final(self) == (EpxTransaction { phase: Phase::Idle, ..*old(self) }),
            !set16(final(epx).arbiter.waiting).contains(channel.epx_slot() as int),
            final(epx).current_channel != channel.index,
            match old(self).phase {
                Phase::Idle => ops@ == Seq::<Op>::empty() && *final(epx) == *old(epx),
                Phase::Running => if old(self).guard.releases(*old(epx)) {
                    &&& old(self).guard.is_release(*old(epx), *final(epx), chip)
                    &&& ops@ == old(self).guard.release_ops(*old(epx), chip)
                } else {
                    ops@ == Seq::<Op>::empty() && *final(epx) == *old(epx)
                },
                _ => {
                    &&& ops@ == Seq::<Op>::empty()
                    &&& set16(final(epx).arbiter.waiting) == set16(
                        old(epx).arbiter.waiting,
                    ).remove(channel.epx_slot() as int)
                    &&& *final(epx) == (EpxState {
                        arbiter: EpxArbiter {
                            waiting: final(epx).arbiter.waiting,
                            ..old(epx).arbiter
                        },
                        ..*old(epx)
                    })
                },
            },
    {
        let ops: Vec<Op> = match self.phase {
            Phase::Idle => Vec::new(),
            Phase::Running => self.guard.release(epx, chip),
            _ => {
                let ticket: WaitTicket = WaitTicket { slot: channel.epx_slot() };
                ticket.release(epx);
                Vec::new()
            },
        };
        self.phase = Phase::Idle;
        ops
    }
}

} // verus!
