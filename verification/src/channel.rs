//! A pipe to one endpoint of a device, and transfers on dedicated interrupt endpoints.

use vstd::prelude::*;
use crate::bits::set16;
use crate::epx::{packet_moved, spec_packet_moved, EpxState};
use crate::interrupt_pipes::{wakes_ep_in, InterruptPipeState};
use crate::layout::{EPX_MAX_PIPES, EP_COUNT, EP_MEMORY_SIZE};
use crate::regs::{
    addr_word_x, buff_status_bits, buffer_word, flag, has_flag, int_ep_bit, interrupt_ep_word,
    spec_addr_word_x, spec_buff_status_bits, spec_buffer_word, spec_int_ep_bit,
    spec_interrupt_ep_word, Op, Reg, BUF_AVAILABLE, BUF_FULL, SIE_SOF_SYNC, STATUS_RX_TIMEOUT,
};
use crate::types::{
    default_timeout, EndpointInfo, EndpointType, PipeDirection, PipeError, TimeoutConfig,
};

verus! {

/// Register writes need two controller clock cycles to transfer; this many system clock cycles
/// cover that at the supported 150 MHz maximum.
pub const USB_CLOCK_DELAY_CYCLES: u32 = 12;

/// A buffer in dual-port RAM.
#[derive(Clone, Copy, PartialEq, Eq, Structural, Debug)]
pub struct EndpointBuffer {
    pub addr: u16,
    pub len: u16,
}

/// A pipe.
#[derive(Clone, Copy, PartialEq, Eq, Structural, Debug)]
pub struct Channel {
    /// Endpoint index for an interrupt pipe, `EP_COUNT` plus the EPX slot for any other.
    pub index: usize,
    pub ep_type: EndpointType,
    pub dir: PipeDirection,
    pub buf: EndpointBuffer,
    pub dev_addr: u8,
    pub max_packet_size: u16,
    /// Endpoint number; the direction is configured separately.
    pub ep_addr: u8,
    /// Interrupt endpoint poll interval.
    pub interval: u8,
    /// DATA0-DATA1 state.
    pub pid: bool,
    /// Send PRE packet.
    pub pre: bool,
    pub timeout: TimeoutConfig,
    /// Per-transaction control response budget, or `None` outside a control transfer.
    pub control_timeout_us: Option<u64>,
}

/// The steps that hand a buffer to the controller only after the rest of its control fields
/// have crossed into the USB clock domain.
pub open spec fn hand_over_ops(reg: Reg, value: u32) -> Seq<Op> {
    if flag(value, BUF_AVAILABLE) {
        seq![
            Op::Write(reg, value & !BUF_AVAILABLE),
            Op::Delay(USB_CLOCK_DELAY_CYCLES),
            Op::Write(reg, value | BUF_AVAILABLE),
        ]
    } else {
        seq![Op::Write(reg, value & !BUF_AVAILABLE)]
    }
}

/// The steps that let the controller poll an interrupt endpoint, once its control fields have
/// crossed into the USB clock domain.
pub open spec fn activate_ops(index: usize) -> Seq<Op> {
    seq![
        Op::Delay(USB_CLOCK_DELAY_CYCLES),
        Op::Modify(Reg::IntEpCtrl, 0, spec_int_ep_bit(index)),
    ]
}

impl Channel {
    /// The index names a polled endpoint or an EPX slot, as the type asks, and a packet fits in
    /// the buffer, which lies in RAM.
    pub open spec fn wf(self) -> bool {
        &&& self.buf.addr + self.buf.len <= EP_MEMORY_SIZE
        &&& self.max_packet_size <= self.buf.len
        &&& self.ep_addr < 16
        &&& if self.is_interrupt() {
            0 < self.index < EP_COUNT
        } else {
            EP_COUNT <= self.index < EP_COUNT + EPX_MAX_PIPES
        }
    }

    /// Whether the pipe has an endpoint of its own.
    pub open spec fn spec_is_interrupt(&self) -> bool {
        self.ep_type == EndpointType::Interrupt
    }

    /// Whether the pipe has an endpoint of its own.
    #[verifier::when_used_as_spec(spec_is_interrupt)]
    pub fn is_interrupt(&self) -> (r: bool)
        ensures
            r == self.is_interrupt(),
    {
        self.ep_type == EndpointType::Interrupt
    }

    /// A pipe on the given index and buffer, at DATA0.
    pub fn new(
        index: usize,
        buf_addr: u16,
        buf_len: u16,
        ep_info: &EndpointInfo,
        dir: PipeDirection,
        dev_addr: u8,
        pre: bool,
    ) -> (c: Channel)
        requires
            buf_addr + buf_len <= EP_MEMORY_SIZE,
            ep_info.max_packet_size <= buf_len,
            if ep_info.ep_type == EndpointType::Interrupt {
                0 < index < EP_COUNT
            } else {
                EP_COUNT <= index < EP_COUNT + EPX_MAX_PIPES
            },
        ensures
            c.wf(),
            c.index == index,
            c.ep_type == ep_info.ep_type,
            c.dir == dir,
            c.buf == (EndpointBuffer { addr: buf_addr, len: buf_len }),
            c.dev_addr == dev_addr,
            c.max_packet_size == ep_info.max_packet_size,
            c.ep_addr == ep_info.addr % 16,
            c.interval == ep_info.interval_ms,
            !c.pid,
            c.pre == pre,
            c.timeout.data_timeout_us == 500_000,
            c.timeout.no_data_timeout_us == 500_000,
            c.control_timeout_us is None,
    {
        let addr: u8 = ep_info.addr;
        let ep_addr: u8 = addr & 0x0f;
        assert(ep_addr == addr % 16) by (bit_vector)
            requires
                ep_addr == addr & 0x0f,
        ;
        Channel {
            index,
            ep_type: ep_info.ep_type,
            dir,
            buf: EndpointBuffer { addr: buf_addr, len: buf_len },
            dev_addr,
            max_packet_size: ep_info.max_packet_size,
            ep_addr,
            interval: ep_info.interval_ms,
            pid: false,
            pre,
            timeout: default_timeout(),
            control_timeout_us: None,
        }
    }

    /// The pipe with the response budget of a control transfer running.
    pub open spec fn with_budget(self, has_data: bool) -> Channel {
        let us = if has_data {
            self.timeout.data_timeout_us
        } else {
            self.timeout.no_data_timeout_us
        };
        Channel {
            control_timeout_us: Some(
                if us <= u64::MAX {
                    us as u64
                } else {
                    u64::MAX
                },
            ),
            ..self
        }
    }

    /// Start the response budget of a control transfer, by whether it has a data stage.
    pub fn start_control_timeout(&mut self, has_data: bool)
        ensures
            *final(self) == old(self).with_budget(has_data),
    {
        let us: u128 = if has_data {
            self.timeout.data_timeout_us
        } else {
            self.timeout.no_data_timeout_us
        };
        self.control_timeout_us =
        Some(
            if us <= u64::MAX as u128 {
                us as u64
            } else {
                u64::MAX
            },
        );
    }

    /// Configure the timeouts of this pipe.
    pub fn set_timeout(&mut self, timeout: TimeoutConfig)
        ensures
            *final(self) == (Channel { timeout, ..*old(self) }),
    {
        self.timeout = timeout;
    }

    /// The pipe with its data toggle advanced. Isochronous packets all carry DATA0.
    pub open spec fn toggled(self) -> Channel {
        Channel { pid: self.pid != (self.ep_type != EndpointType::Isochronous), ..self }
    }

    /// Advance the data toggle.
    pub fn advance_pid(&mut self)
        ensures
            *final(self) == old(self).toggled(),
    {
        if self.ep_type != EndpointType::Isochronous {
            self.pid = !self.pid;
        }
    }

    /// Whether `next` is `pipes` with a toggle forgotten that the pipe was owed.
    pub open spec fn toggle_forgotten(
        self,
        pipes: InterruptPipeState,
        next: InterruptPipeState,
    ) -> bool {
        &&& set16(next.toggle_owed) == if self.is_interrupt() {
            set16(pipes.toggle_owed).remove(self.index as int)
        } else {
            set16(pipes.toggle_owed)
        }
        &&& next == (InterruptPipeState { toggle_owed: next.toggle_owed, ..pipes })
    }

    /// Reset the host-side data toggle on this pipe to DATA0.
    pub fn reset_data_toggle(&mut self, pipes: &mut InterruptPipeState)
        requires
            old(self).wf(),
        ensures
            *final(self) == (Channel { pid: false, ..*old(self) }),
            old(self).toggle_forgotten(*old(pipes), *final(pipes)),
    {
        self.pid = false;
        if self.is_interrupt() {
            pipes.clear_toggle_owed(self.index);
        }
    }

    /// The pipe's buffer control word. EPX pipes share the one of endpoint zero.
    pub open spec fn spec_buffer_control(&self) -> Reg {
        if self.is_interrupt() {
            Reg::EpInBufferControl(self.index)
        } else {
            Reg::EpInBufferControl(0)
        }
    }

    /// The pipe's buffer control word.
    #[verifier::when_used_as_spec(spec_buffer_control)]
    pub fn buffer_control(&self) -> (reg: Reg)
        ensures
            reg == self.buffer_control(),
    {
        if self.is_interrupt() {
            Reg::EpInBufferControl(self.index)
        } else {
            Reg::EpInBufferControl(0)
        }
    }

    /// The pipe's endpoint control word.
    pub open spec fn spec_ep_control(&self) -> Reg {
        if self.is_interrupt() {
            Reg::EpInControl((self.index - 1) as usize)
        } else {
            Reg::EpxControl
        }
    }

    /// The pipe's endpoint control word.
    #[verifier::when_used_as_spec(spec_ep_control)]
    pub fn ep_control(&self) -> (reg: Reg)
        requires
            self.wf(),
        ensures
            reg == self.ep_control(),
    {
        if self.is_interrupt() {
            Reg::EpInControl(self.index - 1)
        } else {
            Reg::EpxControl
        }
    }

    /// The address word of the pipe's own endpoint.
    pub fn addr_endp_host(&self) -> (reg: Reg)
        requires
            self.wf(),
            self.is_interrupt(),
        ensures
            reg == Reg::AddrEndpX((self.index - 1) as usize),
    {
        Reg::AddrEndpX(self.index - 1)
    }

    /// Give the buffer to the USB controller only after the rest of its control fields have
    /// crossed into the USB clock domain.
    pub fn write_buffer_control(&self, value: u32) -> (ops: Vec<Op>)
        ensures
            ops@ == hand_over_ops(self.buffer_control(), value),
    {
        let reg: Reg = self.buffer_control();
        let mut ops: Vec<Op> = vec![Op::Write(reg, value & !BUF_AVAILABLE)];
        if has_flag(value, BUF_AVAILABLE) {
            ops.push(Op::Delay(USB_CLOCK_DELAY_CYCLES));
            ops.push(Op::Write(reg, value | BUF_AVAILABLE));
        }
        ops
    }

    /// The endpoint's polling interval, at least a millisecond.
    pub open spec fn spec_poll_interval_ms(&self) -> u64 {
        if self.interval == 0 {
            1
        } else {
            self.interval as u64
        }
    }

    /// How long to wait between looks at the global receive timeout: the endpoint's polling
    /// interval, at least a millisecond.
    #[verifier::when_used_as_spec(spec_poll_interval_ms)]
    pub fn poll_interval_ms(&self) -> (ms: u64)
        ensures
            ms == self.poll_interval_ms(),
    {
        if self.interval == 0 {
            1
        } else {
            self.interval as u64
        }
    }

    /// How often to look at the global receive timeout, if at all.
    pub open spec fn spec_rx_timeout_poll_ms(&self) -> Option<u64> {
        if self.dir.is_out() {
            None
        } else {
            Some(self.poll_interval_ms())
        }
    }

    /// How often to look at the global receive timeout while waiting for this pipe's buffer, in
    /// milliseconds. A pipe that carries OUT is only waited for.
    #[verifier::when_used_as_spec(spec_rx_timeout_poll_ms)]
    pub fn rx_timeout_poll_ms(&self) -> (r: Option<u64>)
        ensures
            r == self.rx_timeout_poll_ms(),
            r is None <==> self.dir.is_out(),
    {
        if self.dir.is_out() {
            None
        } else {
            Some(self.poll_interval_ms())
        }
    }

    /// Attribute a latched receive timeout, which is not delivered as an interrupt. Only while
    /// the shared endpoint is idle does it belong to the polled endpoints.
    pub fn check_rx_timeout(
        epx: &EpxState,
        pipes: &mut InterruptPipeState,
        sie_status: u32,
    ) -> (ops: Vec<Op>)
        ensures
            ({
                let hit = epx.is_idle() && flag(sie_status, STATUS_RX_TIMEOUT);
                &&& !hit ==> ops@ == Seq::<Op>::empty() && *final(pipes) == *old(pipes)
                &&& hit ==> {
                    &&& ops@ == seq![Op::Clear(Reg::SieStatus, STATUS_RX_TIMEOUT)] + wakes_ep_in(
                        set16(old(pipes).armed_in),
                        EP_COUNT as int,
                    )
                    &&& set16(final(pipes).timed_out) == set16(old(pipes).timed_out).union(
                        set16(old(pipes).armed_in),
                    )
                    &&& set16(final(pipes).armed_in) == Set::<int>::empty()
                    &&& *final(pipes) == (InterruptPipeState {
                        timed_out: final(pipes).timed_out,
                        armed_in: final(pipes).armed_in,
                        ..*old(pipes)
                    })
                }
            }),
    {
        if epx.is_idle() && has_flag(sie_status, STATUS_RX_TIMEOUT) {
            let mut ops: Vec<Op> = vec![Op::Clear(Reg::SieStatus, STATUS_RX_TIMEOUT)];
            let mut wakes: Vec<Op> = pipes.record_timeout();
            ops.append(&mut wakes);
            ops
        } else {
            Vec::new()
        }
    }

    /// The steps of one look at a dedicated endpoint's buffer.
    pub open spec fn poll_interrupt_ops(self, timed_out: bool) -> Seq<Op> {
        if timed_out {
            seq![
                Op::Modify(Reg::IntEpCtrl, spec_int_ep_bit(self.index), 0),
                Op::Modify(self.buffer_control(), BUF_AVAILABLE | BUF_FULL, 0),
                Op::Clear(Reg::BuffStatus, spec_buff_status_bits(self.index)),
            ]
        } else {
            seq![Op::Clear(Reg::BuffStatus, spec_buff_status_bits(self.index))]
        }
    }

    /// What a look at a dedicated endpoint's buffer tells: a timeout that was charged to it, or
    /// that the controller has released it. `None` while the controller still owns it.
    pub open spec fn released(self, pipes: InterruptPipeState, buffer: u32) -> Option<
        Result<(), PipeError>,
    > {
        if set16(pipes.timed_out).contains(self.index as int) {
            Some(Err(PipeError::Timeout))
        } else if flag(buffer, BUF_AVAILABLE) {
            None
        } else {
            Some(Ok(()))
        }
    }

    /// Whether `next` is `pipes` after that look: the timeout is consumed, and a released buffer
    /// is no longer armed.
    pub open spec fn is_poll(
        self,
        pipes: InterruptPipeState,
        next: InterruptPipeState,
        buffer: u32,
    ) -> bool {
        &&& set16(next.timed_out) == set16(pipes.timed_out).remove(self.index as int)
        &&& set16(next.armed_in) == if self.released(pipes, buffer) == Some(
            Ok::<(), PipeError>(()),
        ) {
            set16(pipes.armed_in).remove(self.index as int)
        } else {
            set16(pipes.armed_in)
        }
        &&& next == (InterruptPipeState {
            timed_out: next.timed_out,
            armed_in: next.armed_in,
            ..pipes
        })
    }

    /// Look whether the controller has released a dedicated interrupt endpoint's buffer, given
    /// its buffer control word. `None` while the controller still owns it.
    pub fn poll_interrupt_buffer(&self, pipes: &mut InterruptPipeState, buffer: u32) -> (r: (
        Option<Result<(), PipeError>>,
        Vec<Op>,
    ))
        requires
            self.wf(),
            self.is_interrupt(),
        ensures
            r.0 == self.released(*old(pipes), buffer),
            r.1@ == self.poll_interrupt_ops(
                set16(old(pipes).timed_out).contains(self.index as int),
            ),
            self.is_poll(*old(pipes), *final(pipes), buffer),
    {
        if pipes.take_timeout(self.index) {
            let ops: Vec<Op> = vec![
                Op::Modify(Reg::IntEpCtrl, int_ep_bit(self.index), 0),
                Op::Modify(self.buffer_control(), BUF_AVAILABLE | BUF_FULL, 0),
                Op::Clear(Reg::BuffStatus, buff_status_bits(self.index)),
            ];
            return (Some(Err(PipeError::Timeout)), ops);
        }
        let ops: Vec<Op> = vec![Op::Clear(Reg::BuffStatus, buff_status_bits(self.index))];
        if has_flag(buffer, BUF_AVAILABLE) {
            (None, ops)
        } else {
            pipes.mark_completed(self.index);
            (Some(Ok(())), ops)
        }
    }

    /// The steps that set up a dedicated endpoint.
    pub open spec fn configure_interrupt_ops(self) -> Seq<Op> {
        seq![
            Op::Write(
                self.ep_control(),
                spec_interrupt_ep_word(self.buf.addr, self.interval),
            ),
            Op::Modify(Reg::SieCtrl, 0, SIE_SOF_SYNC),
            Op::Write(
                Reg::AddrEndpX((self.index - 1) as usize),
                spec_addr_word_x(self.dev_addr, self.ep_addr, self.dir.is_out(), self.pre),
            ),
        ]
    }

    /// Restore the dedicated endpoint configuration before each transfer.
    pub fn configure_interrupt(&self) -> (ops: Vec<Op>)
        requires
            self.wf(),
            self.is_interrupt(),
        ensures
            ops@ == self.configure_interrupt_ops(),
    {
        vec![
            Op::Write(self.ep_control(), interrupt_ep_word(self.buf.addr, self.interval)),
            Op::Modify(Reg::SieCtrl, 0, SIE_SOF_SYNC),
            Op::Write(
                self.addr_endp_host(),
                addr_word_x(self.dev_addr, self.ep_addr, self.dir.is_out(), self.pre),
            ),
        ]
    }

    /// A guard over a transfer on the pipe's own endpoint, not yet armed.
    pub fn interrupt_transfer_guard(&self) -> (g: InterruptTransferGuard)
        requires
            self.wf(),
            self.is_interrupt(),
        ensures
            g == (InterruptTransferGuard {
                index: self.index,
                is_out: self.dir.is_out(),
                active: false,
            }),
    {
        InterruptTransferGuard { index: self.index, is_out: self.dir.is_out(), active: false }
    }

    /// The pipe with a toggle applied that a cancelled transfer left.
    pub open spec fn settled(self, pipes: InterruptPipeState) -> Channel {
        if set16(pipes.toggle_owed).contains(self.index as int) {
            self.toggled()
        } else {
            self
        }
    }

    /// Apply a toggle consumed by a packet that completed during cancellation.
    pub fn settle_interrupt_toggle(&mut self, pipes: &mut InterruptPipeState)
        requires
            old(self).wf(),
            old(self).is_interrupt(),
        ensures
            *final(self) == old(self).settled(*old(pipes)),
            set16(final(pipes).toggle_owed) == set16(old(pipes).toggle_owed).remove(
                old(self).index as int,
            ),
            *final(pipes) == (InterruptPipeState {
                toggle_owed: final(pipes).toggle_owed,
                ..*old(pipes)
            }),
    {
        if pipes.take_toggle_owed(self.index) {
            self.advance_pid();
        }
    }

    /// The steps that arm the endpoint to receive.
    pub open spec fn reload_ops(self) -> Seq<Op> {
        hand_over_ops(
            self.buffer_control(),
            spec_buffer_word(true, self.pid, false, self.max_packet_size),
        ) + activate_ops(self.index)
    }

    /// Arm a dedicated endpoint to receive a packet.
    pub fn interrupt_reload(&self, pipes: &mut InterruptPipeState) -> (ops: Vec<Op>)
        requires
            self.wf(),
            self.is_interrupt(),
        ensures
            ops@ == self.reload_ops(),
            set16(final(pipes).armed_in) == set16(old(pipes).armed_in).insert(self.index as int),
            *final(pipes) == (InterruptPipeState {
                armed_in: final(pipes).armed_in,
                ..*old(pipes)
            }),
    {
        let word: u32 = buffer_word(true, self.pid, false, self.max_packet_size);
        let mut ops: Vec<Op> = self.write_buffer_control(word);
        ops.push(Op::Delay(USB_CLOCK_DELAY_CYCLES));
        pipes.mark_armed_in(self.index);
        ops.push(Op::Modify(Reg::IntEpCtrl, 0, int_ep_bit(self.index)));
        assert(ops@ =~= self.reload_ops());
        ops
    }

    /// How much of `remaining` bytes the next packet carries.
    pub open spec fn packet_len(self, remaining: int) -> int {
        if remaining <= self.max_packet_size {
            remaining
        } else {
            self.max_packet_size as int
        }
    }

    /// The steps that send the first packet of `data[from..total]` on the pipe's own endpoint.
    pub open spec fn interrupt_send_ops(self, from: usize, total: usize) -> Seq<Op> {
        let chunk = self.packet_len(total - from);
        seq![Op::CopyOut { addr: self.buf.addr, from, len: chunk as usize }] + hand_over_ops(
            self.buffer_control(),
            spec_buffer_word(from + chunk == total, self.pid, true, chunk as u16),
        ) + activate_ops(self.index)
    }

    /// Load an interrupt OUT buffer with the next packet of `data[from..total]` and arm it for
    /// the next poll. Returns how much the packet carries.
    pub fn interrupt_send(&self, from: usize, total: usize) -> (r: (usize, Vec<Op>))
        requires
            self.wf(),
            self.is_interrupt(),
            self.dir.is_out(),
            from <= total,
        ensures
            r.0 == self.packet_len(total - from),
            r.1@ == self.interrupt_send_ops(from, total),
    {
        let chunk: usize = if total - from <= self.max_packet_size as usize {
            total - from
        } else {
            self.max_packet_size as usize
        };
        let mut ops: Vec<Op> = vec![Op::CopyOut { addr: self.buf.addr, from, len: chunk }];
        let word: u32 = buffer_word(chunk == total - from, self.pid, true, chunk as u16);
        let mut hand_over: Vec<Op> = self.write_buffer_control(word);
        ops.append(&mut hand_over);
        ops.push(Op::Delay(USB_CLOCK_DELAY_CYCLES));
        ops.push(Op::Modify(Reg::IntEpCtrl, 0, int_ep_bit(self.index)));
        assert(ops@ =~= self.interrupt_send_ops(from, total));
        (chunk, ops)
    }
}

/// Stops a dedicated interrupt endpoint if its transfer is cancelled.
#[derive(Clone, Copy, PartialEq, Eq, Structural, Debug)]
pub struct InterruptTransferGuard {
    pub index: usize,
    pub is_out: bool,
    pub active: bool,
}

impl InterruptTransferGuard {
    /// The guarded endpoint is a polled one.
    pub open spec fn wf(self) -> bool {
        0 < self.index < EP_COUNT
    }

    /// Watch a transfer.
    pub fn arm(&mut self)
        ensures
            *final(self) == (InterruptTransferGuard { active: true, ..*old(self) }),
    {
        self.active = true;
    }

    /// The transfer ended well.
    pub fn disarm(&mut self)
        ensures
            *final(self) == (InterruptTransferGuard { active: false, ..*old(self) }),
    {
        self.active = false;
    }

    /// The steps of the first half of dropping the guard.
    pub open spec fn stop_polling_ops(self) -> Seq<Op> {
        if self.active {
            seq![Op::Modify(Reg::IntEpCtrl, spec_int_ep_bit(self.index), 0)]
        } else {
            Seq::empty()
        }
    }

    /// The steps of the second half of dropping the guard.
    pub open spec fn take_back_ops(self) -> Seq<Op> {
        if self.active {
            seq![
                Op::Modify(Reg::EpInBufferControl(self.index), BUF_AVAILABLE | BUF_FULL, 0),
                Op::Clear(Reg::BuffStatus, spec_buff_status_bits(self.index)),
            ]
        } else {
            Seq::empty()
        }
    }

    /// Whether `next` is `pipes` after the guard was dropped with this buffer control word.
    pub open spec fn is_settled(
        self,
        pipes: InterruptPipeState,
        next: InterruptPipeState,
        buffer: u32,
    ) -> bool {
        &&& !self.active ==> next == pipes
        &&& self.active ==> {
            &&& set16(next.armed_in) == set16(pipes.armed_in).remove(self.index as int)
            &&& set16(next.toggle_owed) == if spec_packet_moved(buffer, self.is_out) {
                set16(pipes.toggle_owed).insert(self.index as int)
            } else {
                set16(pipes.toggle_owed)
            }
            &&& next == (InterruptPipeState {
                armed_in: next.armed_in,
                toggle_owed: next.toggle_owed,
                ..pipes
            })
        }
    }

    /// First half of dropping the guard: stop polling the endpoint of a cancelled transfer.
    pub fn stop_polling(&self) -> (ops: Vec<Op>)
        requires
            self.wf(),
        ensures
            ops@ == self.stop_polling_ops(),
    {
        if self.active {
            vec![Op::Modify(Reg::IntEpCtrl, int_ep_bit(self.index), 0)]
        } else {
            Vec::new()
        }
    }

    /// Second half of dropping the guard, given the buffer control word after polling stopped:
    /// owe the toggle of a packet that still moved, and take the buffer back.
    pub fn settle(&self, pipes: &mut InterruptPipeState, buffer: u32) -> (ops: Vec<Op>)
        requires
            self.wf(),
        ensures
            ops@ == self.take_back_ops(),
            self.is_settled(*old(pipes), *final(pipes), buffer),
    {
        if !self.active {
            return Vec::new();
        }
        let moved: bool = packet_moved(buffer, self.is_out);
        pipes.mark_completed(self.index);
        if moved {
            pipes.mark_toggle_owed(self.index);
        }
        vec![
            Op::Modify(Reg::EpInBufferControl(self.index), BUF_AVAILABLE | BUF_FULL, 0),
            Op::Clear(Reg::BuffStatus, buff_status_bits(self.index)),
        ]
    }
}

} // verus!
