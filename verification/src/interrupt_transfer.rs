//! Transfers on dedicated interrupt endpoints.
//!
//! A caller drives them: it looks at the buffer control word whenever it is woken, and may cancel
//! at any time by dropping the guard.

use vstd::prelude::*;
use crate::bits::set16;
use crate::channel::{Channel, InterruptTransferGuard};
use crate::interrupt_pipes::InterruptPipeState;
use crate::regs::{
    buffer_length, flag, has_flag, spec_buffer_length, Op, BUF_AVAILABLE, BUF_FULL,
};
use crate::transfer::{PacketWriter, WritePhase};
use crate::types::PipeError;

verus! {

/// What a read on a dedicated endpoint does next.
#[derive(Clone, Copy, PartialEq, Eq, Structural, Debug)]
pub enum InterruptReadNext {
    /// A packet arrived while nobody was reading.
    Collect,
    /// The endpoint is armed.
    Wait,
}

impl Channel {
    /// Begin a transfer on a dedicated endpoint whose buffer is idle: restore its configuration,
    /// apply a toggle that a cancelled transfer left, and guard it.
    pub fn begin_interrupt_transfer(&mut self, pipes: &mut InterruptPipeState) -> (r: (
        InterruptTransferGuard,
        Vec<Op>,
    ))
        requires
            old(self).wf(),
            old(self).is_interrupt(),
        ensures
            *final(self) == old(self).settled(*old(pipes)),
            set16(final(pipes).toggle_owed) == set16(old(pipes).toggle_owed).remove(
                old(self).index as int,
            ),
            *final(pipes) == (InterruptPipeState {
                toggle_owed: final(pipes).toggle_owed,
                ..*old(pipes)
            }),
            r.0 == (InterruptTransferGuard {
                index: old(self).index,
                is_out: old(self).dir.is_out(),
                active: true,
            }),
            r.1@ == old(self).configure_interrupt_ops(),
    {
        let ops: Vec<Op> = self.configure_interrupt();
        self.settle_interrupt_toggle(pipes);
        let mut guard: InterruptTransferGuard = self.interrupt_transfer_guard();
        guard.arm();
        (guard, ops)
    }

    /// The steps that arm the endpoint for a read, if its buffer is idle and empty.
    pub open spec fn arm_if_idle_ops(self, buffer: u32) -> Seq<Op> {
        if flag(buffer, BUF_FULL) || flag(buffer, BUF_AVAILABLE) {
            Seq::empty()
        } else {
            self.reload_ops()
        }
    }

    /// The steps that hand a received packet to the caller and arm the endpoint for the next one.
    pub open spec fn collect_ops(self, buffer: u32) -> Seq<Op> {
        seq![Op::CopyIn { addr: self.buf.addr, at: 0, len: spec_buffer_length(buffer) }]
            + self.toggled().reload_ops()
    }

    /// Continue a read, given the buffer control word. A packet that is already there is taken
    /// as it stands, because re-arming would discard it. An armed buffer belongs to the
    /// controller. Only an idle buffer is armed.
    pub fn interrupt_in_read(&self, pipes: &mut InterruptPipeState, buffer: u32) -> (r: (
        InterruptReadNext,
        Vec<Op>,
    ))
        requires
            self.wf(),
            self.is_interrupt(),
        ensures
            ({
                let reload = !flag(buffer, BUF_FULL) && !flag(buffer, BUF_AVAILABLE);
                &&& r.0 == if flag(buffer, BUF_FULL) {
                    InterruptReadNext::Collect
                } else {
                    InterruptReadNext::Wait
                }
                &&& r.1@ == self.arm_if_idle_ops(buffer)
                &&& set16(final(pipes).armed_in) == if reload {
                    set16(old(pipes).armed_in).insert(self.index as int)
                } else {
                    set16(old(pipes).armed_in)
                }
                &&& *final(pipes) == (InterruptPipeState {
                    armed_in: final(pipes).armed_in,
                    ..*old(pipes)
                })
            }),
    {
        if has_flag(buffer, BUF_FULL) {
            (InterruptReadNext::Collect, Vec::new())
        } else if has_flag(buffer, BUF_AVAILABLE) {
            (InterruptReadNext::Wait, Vec::new())
        } else {
            (InterruptReadNext::Wait, self.interrupt_reload(pipes))
        }
    }

    /// Collect the packet of a read, given the buffer control word: hand it to the caller,
    /// advance the toggle and arm the endpoint for the next one. A packet that does not fit in
    /// `capacity` bytes is left to the guard.
    pub fn collect_interrupt_packet(
        &mut self,
        pipes: &mut InterruptPipeState,
        guard: &mut InterruptTransferGuard,
        buffer: u32,
        capacity: usize,
    ) -> (r: (Result<usize, PipeError>, Vec<Op>))
        requires
            old(self).wf(),
            old(self).is_interrupt(),
        ensures
            ({
                let rx_len = spec_buffer_length(buffer);
                if rx_len > capacity {
                    &&& r.0 == Err::<usize, PipeError>(PipeError::BufferOverflow)
                    &&& r.1@ == Seq::<Op>::empty()
                    &&& *final(self) == *old(self)
                    &&& *final(pipes) == *old(pipes)
                    &&& *final(guard) == *old(guard)
                } else {
                    &&& r.0 == Ok::<usize, PipeError>(rx_len)
                    &&& r.1@ == old(self).collect_ops(buffer)
                    &&& *final(self) == old(self).toggled()
                    &&& set16(final(pipes).armed_in) == set16(old(pipes).armed_in).insert(
                        old(self).index as int,
                    )
                    &&& *final(pipes) == (InterruptPipeState {
                        armed_in: final(pipes).armed_in,
                        ..*old(pipes)
                    })
                    &&& *final(guard) == (InterruptTransferGuard { active: false, ..*old(guard) })
                }
            }),
    {
        let rx_len: usize = buffer_length(buffer);
        if rx_len > capacity {
            return (Err(PipeError::BufferOverflow), Vec::new());
        }
        let mut ops: Vec<Op> = vec![Op::CopyIn { addr: self.buf.addr, at: 0, len: rx_len }];
        self.advance_pid();
        let mut reload: Vec<Op> = self.interrupt_reload(pipes);
        ops.append(&mut reload);
        guard.disarm();
        (Ok(rx_len), ops)
    }
}

/// What follows one look at a transfer.
#[derive(Clone, Copy, PartialEq, Eq, Debug)]
pub enum InterruptStep {
    /// The controller owns the buffer: look again when woken.
    Wait,
    /// Look again at once, at a fresh buffer control word.
    Continue,
    /// Tell the caller: bytes moved, or the error.
    Done(Result<usize, PipeError>),
}

/// Where a transfer on a dedicated endpoint stands.
#[derive(Clone, Copy, PartialEq, Eq, Structural, Debug)]
pub enum InterruptPhase {
    /// Waiting for the buffer to be idle.
    Opening,
    /// A read that has just taken the endpoint.
    Opened,
    /// Waiting for a packet to move.
    Moving,
    /// A read whose packet is there.
    Arrived,
    Over,
}

/// Whether `next` is `pipes` after the buffer was found idle and a transfer was begun on it.
pub open spec fn is_opened(
    channel: Channel,
    pipes: InterruptPipeState,
    next: InterruptPipeState,
) -> bool {
    let index = channel.index as int;
    &&& set16(next.timed_out) == set16(pipes.timed_out).remove(index)
    &&& set16(next.armed_in) == set16(pipes.armed_in).remove(index)
    &&& set16(next.toggle_owed) == set16(pipes.toggle_owed).remove(index)
    &&& next.allocated == pipes.allocated
}

/// One packet read from a dedicated endpoint.
#[derive(Clone, Copy, PartialEq, Eq, Structural, Debug)]
pub struct InterruptRead {
    pub phase: InterruptPhase,
    /// To be dropped when the read is over or cancelled.
    pub guard: InterruptTransferGuard,
    /// Length of the caller's buffer.
    pub capacity: usize,
}

impl InterruptRead {
    /// The read is on the channel's endpoint, and the guard watches it from the moment the
    /// endpoint is taken until the packet was handed over.
    pub open spec fn inv(self, channel: Channel) -> bool {
        &&& channel.wf()
        &&& channel.is_interrupt()
        &&& self.guard.index == channel.index
        &&& self.guard.is_out == channel.dir.is_out()
        &&& self.phase == InterruptPhase::Opening ==> !self.guard.active
        &&& self.phase == InterruptPhase::Opened || self.phase == InterruptPhase::Moving
            || self.phase == InterruptPhase::Arrived ==> self.guard.active
    }

    /// A read into a buffer of `capacity` bytes.
    pub fn new(channel: &Channel, capacity: usize) -> (t: InterruptRead)
        requires
            channel.wf(),
            channel.is_interrupt(),
        ensures
            t.inv(*channel),
            t.phase == InterruptPhase::Opening,
            t.capacity == capacity,
    {
        InterruptRead {
            phase: InterruptPhase::Opening,
            guard: channel.interrupt_transfer_guard(),
            capacity,
        }
    }

    /// The read after one look.
    pub open spec fn next(
        self,
        channel: Channel,
        pipes: InterruptPipeState,
        buffer: u32,
    ) -> InterruptRead {
        match self.phase {
            InterruptPhase::Opening => match channel.released(pipes, buffer) {
                Some(Ok(())) => InterruptRead {
                    phase: InterruptPhase::Opened,
                    guard: InterruptTransferGuard { active: true, ..self.guard },
                    ..self
                },
                Some(Err(_)) => InterruptRead { phase: InterruptPhase::Over, ..self },
                None => self,
            },
            InterruptPhase::Opened => InterruptRead {
                phase: if flag(buffer, BUF_FULL) {
                    InterruptPhase::Arrived
                } else {
                    InterruptPhase::Moving
                },
                ..self
            },
            InterruptPhase::Moving => match channel.released(pipes, buffer) {
                Some(Ok(())) => InterruptRead { phase: InterruptPhase::Arrived, ..self },
                Some(Err(_)) => InterruptRead { phase: InterruptPhase::Over, ..self },
                None => self,
            },
            _ => InterruptRead {
                phase: InterruptPhase::Over,
                guard: InterruptTransferGuard {
                    active: self.guard.active && spec_buffer_length(buffer) > self.capacity,
                    ..self.guard
                },
                ..self
            },
        }
    }

    /// The pipe after one look.
    pub open spec fn pipe_next(
        self,
        channel: Channel,
        pipes: InterruptPipeState,
        buffer: u32,
    ) -> Channel {
        match self.phase {
            InterruptPhase::Opening => if channel.released(pipes, buffer) == Some(
                Ok::<(), PipeError>(()),
            ) {
                channel.settled(pipes)
            } else {
                channel
            },
            InterruptPhase::Arrived => if spec_buffer_length(buffer) > self.capacity {
                channel
            } else {
                channel.toggled()
            },
            _ => channel,
        }
    }

    /// What follows one look.
    pub open spec fn step_next(
        self,
        channel: Channel,
        pipes: InterruptPipeState,
        buffer: u32,
    ) -> InterruptStep {
        match self.phase {
            InterruptPhase::Opened => InterruptStep::Continue,
            InterruptPhase::Arrived => InterruptStep::Done(
                if spec_buffer_length(buffer) > self.capacity {
                    Err(PipeError::BufferOverflow)
                } else {
                    Ok(spec_buffer_length(buffer))
                },
            ),
            _ => match channel.released(pipes, buffer) {
                Some(Ok(())) => InterruptStep::Continue,
                Some(Err(e)) => InterruptStep::Done(Err(e)),
                None => InterruptStep::Wait,
            },
        }
    }

    /// One look at the read, given the buffer control word.
    pub fn step(&mut self, channel: &mut Channel, pipes: &mut InterruptPipeState, buffer: u32) -> (r:
        (InterruptStep, Vec<Op>))
        requires
            old(self).inv(*old(channel)),
            old(self).phase != InterruptPhase::Over,
        ensures
            final(self).inv(*final(channel)),
            final(self).capacity == old(self).capacity,
            *final(self) == old(self).next(*old(channel), *old(pipes), buffer),
            *final(channel) == old(self).pipe_next(*old(channel), *old(pipes), buffer),
            r.0 == old(self).step_next(*old(channel), *old(pipes), buffer),
            match old(self).phase {
                InterruptPhase::Opening => match old(channel).released(*old(pipes), buffer) {
                    Some(Ok(())) => {
                        &&& r.0 == InterruptStep::Continue
                        &&& r.1@ == old(channel).poll_interrupt_ops(false) + old(
                            channel,
                        ).configure_interrupt_ops()
                        &&& final(self).phase == InterruptPhase::Opened
                        &&& *final(channel) == old(channel).settled(*old(pipes))
                        &&& is_opened(*old(channel), *old(pipes), *final(pipes))
                    },
                    _ => old(self).not_released(
                        *old(channel),
                        *old(pipes),
                        buffer,
                        *final(self),
                        *final(channel),
                        *final(pipes),
                        r,
                    ),
                },
                InterruptPhase::Opened => {
                    let full = flag(buffer, BUF_FULL);
                    let idle = !full && !flag(buffer, BUF_AVAILABLE);
                    &&& r.0 == InterruptStep::Continue
                    &&& r.1@ == old(channel).arm_if_idle_ops(buffer)
                    &&& final(self).phase == if full {
                        InterruptPhase::Arrived
                    } else {
                        InterruptPhase::Moving
                    }
                    &&& *final(channel) == *old(channel)
                    &&& set16(final(pipes).armed_in) == if idle {
                        set16(old(pipes).armed_in).insert(old(channel).index as int)
                    } else {
                        set16(old(pipes).armed_in)
                    }
                    &&& *final(pipes) == (InterruptPipeState {
                        armed_in: final(pipes).armed_in,
                        ..*old(pipes)
                    })
                },
                InterruptPhase::Moving => match old(channel).released(*old(pipes), buffer) {
                    Some(Ok(())) => {
                        &&& r.0 == InterruptStep::Continue
                        &&& r.1@ == old(channel).poll_interrupt_ops(false)
                        &&& final(self).phase == InterruptPhase::Arrived
                        &&& *final(channel) == *old(channel)
                        &&& old(channel).is_poll(*old(pipes), *final(pipes), buffer)
                    },
                    _ => old(self).not_released(
                        *old(channel),
                        *old(pipes),
                        buffer,
                        *final(self),
                        *final(channel),
                        *final(pipes),
                        r,
                    ),
                },
                _ => {
                    let rx_len = spec_buffer_length(buffer);
                    &&& final(self).phase == InterruptPhase::Over
                    &&& if rx_len > old(self).capacity {
                        &&& r.0 == InterruptStep::Done(
                            Err::<usize, PipeError>(PipeError::BufferOverflow),
                        )
                        &&& r.1@ == Seq::<Op>::empty()
                        &&& final(self).guard.active
                        &&& *final(channel) == *old(channel)
                        &&& *final(pipes) == *old(pipes)
                    } else {
                        &&& r.0 == InterruptStep::Done(Ok::<usize, PipeError>(rx_len))
                        &&& r.1@ == old(channel).collect_ops(buffer)
                        &&& !final(self).guard.active
                        &&& *final(channel) == old(channel).toggled()
                        &&& set16(final(pipes).armed_in) == set16(old(pipes).armed_in).insert(
                            old(channel).index as int,
                        )
                        &&& *final(pipes) == (InterruptPipeState {
                            armed_in: final(pipes).armed_in,
                            ..*old(pipes)
                        })
                    }
                },
            },
    {
        match self.phase {
            InterruptPhase::Opening => {
                let (released, mut ops) = channel.poll_interrupt_buffer(pipes, buffer);
                match released {
                    None => (InterruptStep::Wait, ops),
                    Some(Err(e)) => {
                        self.phase = InterruptPhase::Over;
                        (InterruptStep::Done(Err(e)), ops)
                    },
                    Some(Ok(())) => {
                        let (guard, mut configure) = channel.begin_interrupt_transfer(pipes);
                        ops.append(&mut configure);
                        self.guard = guard;
                        self.phase = InterruptPhase::Opened;
                        (InterruptStep::Continue, ops)
                    },
                }
            },
            InterruptPhase::Opened => {
                let (next, ops) = channel.interrupt_in_read(pipes, buffer);
                self.phase = match next {
                    InterruptReadNext::Collect => InterruptPhase::Arrived,
                    InterruptReadNext::Wait => InterruptPhase::Moving,
                };
                (InterruptStep::Continue, ops)
            },
            InterruptPhase::Moving => {
                let (released, ops) = channel.poll_interrupt_buffer(pipes, buffer);
                match released {
                    None => (InterruptStep::Wait, ops),
                    Some(Err(e)) => {
                        self.phase = InterruptPhase::Over;
                        (InterruptStep::Done(Err(e)), ops)
                    },
                    Some(Ok(())) => {
                        self.phase = InterruptPhase::Arrived;
                        (InterruptStep::Continue, ops)
                    },
                }
            },
            _ => {
                let (result, ops) = channel.collect_interrupt_packet(
                    pipes,
                    &mut self.guard,
                    buffer,
                    self.capacity,
                );
                self.phase = InterruptPhase::Over;
                (InterruptStep::Done(result), ops)
            },
        }
    }

    /// A look that found the buffer not released: the read waits on, or a charged timeout ends
    /// it.
    pub open spec fn not_released(
        self,
        channel: Channel,
        pipes: InterruptPipeState,
        buffer: u32,
        next: InterruptRead,
        next_channel: Channel,
        next_pipes: InterruptPipeState,
        r: (InterruptStep, Vec<Op>),
    ) -> bool {
        let timed_out = set16(pipes.timed_out).contains(channel.index as int);
        &&& r.0 == if timed_out {
            InterruptStep::Done(Err::<usize, PipeError>(PipeError::Timeout))
        } else {
            InterruptStep::Wait
        }
        &&& r.1@ == channel.poll_interrupt_ops(timed_out)
        &&& next == (InterruptRead {
            phase: if timed_out {
                InterruptPhase::Over
            } else {
                self.phase
            },
            ..self
        })
        &&& next_channel == channel
        &&& channel.is_poll(pipes, next_pipes, buffer)
    }
}

/// A write to a dedicated endpoint, one packet per poll.
#[derive(Clone, Copy, PartialEq, Eq, Structural, Debug)]
pub struct InterruptWrite {
    pub phase: InterruptPhase,
    /// To be dropped when the write is over or cancelled.
    pub guard: InterruptTransferGuard,
    pub writer: PacketWriter,
}

impl InterruptWrite {
    /// The write is on the channel's endpoint, and the guard watches it from the moment the
    /// endpoint is taken until the last packet was sent.
    pub open spec fn inv(self, channel: Channel) -> bool {
        &&& channel.wf()
        &&& channel.is_interrupt()
        &&& channel.dir.is_out()
        &&& channel.max_packet_size > 0
        &&& self.guard.index == channel.index
        &&& self.guard.is_out
        &&& self.writer.wf()
        &&& match self.phase {
            InterruptPhase::Opening => !self.guard.active && self.writer.phase == WritePhase::Data
                && self.writer.count == 0,
            InterruptPhase::Moving => self.guard.active && self.writer.phase != WritePhase::Done,
            InterruptPhase::Over => true,
            _ => false,
        }
    }

    /// A write of `total` bytes.
    pub fn new(channel: &Channel, total: usize, ensure_transaction_end: bool) -> (t: InterruptWrite)
        requires
            channel.wf(),
            channel.is_interrupt(),
            channel.dir.is_out(),
            channel.max_packet_size > 0,
        ensures
            t.inv(*channel),
            t.phase == InterruptPhase::Opening,
            t.writer.total == total,
            t.writer.ensure_transaction_end == ensure_transaction_end,
    {
        InterruptWrite {
            phase: InterruptPhase::Opening,
            guard: channel.interrupt_transfer_guard(),
            writer: PacketWriter::new(total, ensure_transaction_end),
        }
    }

    /// The write after one look.
    pub open spec fn next(
        self,
        channel: Channel,
        pipes: InterruptPipeState,
        buffer: u32,
    ) -> InterruptWrite {
        match (channel.released(pipes, buffer), self.phase) {
            (None, _) => self,
            (Some(Err(_)), _) => InterruptWrite { phase: InterruptPhase::Over, ..self },
            (Some(Ok(())), InterruptPhase::Opening) => InterruptWrite {
                phase: InterruptPhase::Moving,
                guard: InterruptTransferGuard { active: true, ..self.guard },
                ..self
            },
            (Some(Ok(())), _) => {
                let writer = self.writer.after_packet(channel.max_packet_size as int);
                let done = writer.phase == WritePhase::Done;
                InterruptWrite {
                    phase: if done {
                        InterruptPhase::Over
                    } else {
                        InterruptPhase::Moving
                    },
                    guard: InterruptTransferGuard { active: !done, ..self.guard },
                    writer,
                }
            },
        }
    }

    /// The pipe after one look.
    pub open spec fn pipe_next(
        self,
        channel: Channel,
        pipes: InterruptPipeState,
        buffer: u32,
    ) -> Channel {
        match (channel.released(pipes, buffer), self.phase) {
            (Some(Ok(())), InterruptPhase::Opening) => channel.settled(pipes),
            (Some(Ok(())), _) => channel.toggled(),
            _ => channel,
        }
    }

    /// What follows one look.
    pub open spec fn step_next(
        self,
        channel: Channel,
        pipes: InterruptPipeState,
        buffer: u32,
    ) -> InterruptStep {
        match channel.released(pipes, buffer) {
            None => InterruptStep::Wait,
            Some(Err(e)) => InterruptStep::Done(Err(e)),
            Some(Ok(())) => if self.next(channel, pipes, buffer).phase == InterruptPhase::Over {
                InterruptStep::Done(Ok(self.writer.total))
            } else {
                InterruptStep::Continue
            },
        }
    }

    /// The steps of one look: acknowledge it, configure the endpoint when it is taken, and send
    /// the packet that is next.
    pub open spec fn ops_next(
        self,
        channel: Channel,
        pipes: InterruptPipeState,
        buffer: u32,
    ) -> Seq<Op> {
        let next = self.next(channel, pipes, buffer);
        channel.poll_interrupt_ops(set16(pipes.timed_out).contains(channel.index as int)) + (
        if self.step_next(channel, pipes, buffer) != InterruptStep::Continue {
            Seq::<Op>::empty()
        } else if self.phase == InterruptPhase::Opening {
            channel.configure_interrupt_ops()
        } else {
            Seq::<Op>::empty()
        }) + (if self.step_next(channel, pipes, buffer) != InterruptStep::Continue {
            Seq::<Op>::empty()
        } else {
            self.pipe_next(channel, pipes, buffer).interrupt_send_ops(
                next.writer.count,
                next.writer.total,
            )
        })
    }

    /// One look at the write, given the buffer control word.
    pub fn step(&mut self, channel: &mut Channel, pipes: &mut InterruptPipeState, buffer: u32) -> (r:
        (InterruptStep, Vec<Op>))
        requires
            old(self).inv(*old(channel)),
            old(self).phase != InterruptPhase::Over,
        ensures
            final(self).inv(*final(channel)),
            *final(self) == old(self).next(*old(channel), *old(pipes), buffer),
            *final(channel) == old(self).pipe_next(*old(channel), *old(pipes), buffer),
            r.0 == old(self).step_next(*old(channel), *old(pipes), buffer),
            r.1@ == old(self).ops_next(*old(channel), *old(pipes), buffer),
            match (old(channel).released(*old(pipes), buffer), old(self).phase) {
                (Some(Ok(())), InterruptPhase::Opening) => {
                    &&& r.0 == InterruptStep::Continue
                    &&& r.1@ == old(channel).poll_interrupt_ops(false) + old(
                        channel,
                    ).configure_interrupt_ops() + final(channel).interrupt_send_ops(
                        0,
                        old(self).writer.total,
                    )
                    &&& final(self).phase == InterruptPhase::Moving
                    &&& final(self).writer == old(self).writer
                    &&& *final(channel) == old(channel).settled(*old(pipes))
                    &&& is_opened(*old(channel), *old(pipes), *final(pipes))
                },
                (Some(Ok(())), _) => {
                    let sent = old(self).writer.after_packet(old(channel).max_packet_size as int);
                    let done = sent.phase == WritePhase::Done;
                    &&& r.0 == if done {
                        InterruptStep::Done(Ok::<usize, PipeError>(sent.total))
                    } else {
                        InterruptStep::Continue
                    }
                    &&& r.1@ == old(channel).poll_interrupt_ops(false) + if done {
                        Seq::<Op>::empty()
                    } else {
                        final(channel).interrupt_send_ops(sent.count, sent.total)
                    }
                    &&& final(self).phase == if done {
                        InterruptPhase::Over
                    } else {
                        InterruptPhase::Moving
                    }
                    &&& final(self).guard.active == !done
                    &&& final(self).writer == sent
                    &&& *final(channel) == old(channel).toggled()
                    &&& old(channel).is_poll(*old(pipes), *final(pipes), buffer)
                },
                (released, _) => {
                    let timed_out = released is Some;
                    &&& r.0 == if timed_out {
                        InterruptStep::Done(Err::<usize, PipeError>(PipeError::Timeout))
                    } else {
                        InterruptStep::Wait
                    }
                    &&& r.1@ == old(channel).poll_interrupt_ops(timed_out)
                    &&& *final(self) == (InterruptWrite {
                        phase: if timed_out {
                            InterruptPhase::Over
                        } else {
                            old(self).phase
                        },
                        ..*old(self)
                    })
                    &&& *final(channel) == *old(channel)
                    &&& old(channel).is_poll(*old(pipes), *final(pipes), buffer)
                },
            },
    {
        let (released, mut ops) = channel.poll_interrupt_buffer(pipes, buffer);
        match released {
            None => (InterruptStep::Wait, ops),
            Some(Err(e)) => {
                self.phase = InterruptPhase::Over;
                (InterruptStep::Done(Err(e)), ops)
            },
            Some(Ok(())) => {
                match self.phase {
                    InterruptPhase::Opening => {
                        let (guard, mut configure) = channel.begin_interrupt_transfer(pipes);
                        ops.append(&mut configure);
                        self.guard = guard;
                        self.phase = InterruptPhase::Moving;
                    },
                    _ => {
                        if self.writer.on_sent(channel) {
                            self.guard.disarm();
                            self.phase = InterruptPhase::Over;
                            return (InterruptStep::Done(Ok(self.writer.total)), ops);
                        }
                    },
                }
                let mut send: Vec<Op> = self.writer.send_interrupt(channel);
                ops.append(&mut send);
                (InterruptStep::Continue, ops)
            },
        }
    }
}

} // verus!
