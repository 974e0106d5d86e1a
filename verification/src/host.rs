//! The host controller: shared state, root port and pipe allocation.

use vstd::prelude::*;
use crate::bits::{range, set16, set64};
use crate::channel::Channel;
use crate::epx::{block_addr, blocks_of, can_hold, is_first_fit, outcome_discarded, EpxState};
use crate::interrupt_pipes::InterruptPipeState;
use crate::layout::{DPRAM_DATA_OFFSET, EPX_BLOCK_SIZE, EPX_BUFFER_OFFSET, EP_COUNT};
use crate::regs::{
    buff_status_bits, int_ep_bit, spec_buff_status_bits, spec_int_ep_bit, Op, Reg, Waker,
    INT_BUFF_STATUS, INT_ERROR_BIT_STUFF, INT_ERROR_CRC, INT_ERROR_DATA_SEQ, INT_HOST_CONN_DIS,
    INT_HOST_RESUME, MAIN_CONTROLLER_EN, MAIN_HOST_NDEVICE, MAIN_PHY_ISO, MUX_SOFTCON, MUX_TO_PHY,
    PWR_VBUS_DETECT, PWR_VBUS_DETECT_OVERRIDE_EN, SIE_KEEP_ALIVE_EN, SIE_PULLDOWN_EN, SIE_RESET_BUS,
    SIE_SOF_EN, STATUS_SPEED,
};
use crate::types::{
    split_to_pre, Chip, DeviceEvent, EndpointInfo, EndpointType, HostError, PipeDirection, Speed,
    SplitInfo,
};

verus! {

/// Root port reset drive time (USB 2.0 §7.1.7.5, TDRSTR).
pub const ROOT_RESET_MS: u64 = 50;

/// Reset recovery time (USB 2.0 §7.1.7.5, TRSTRCY). A device need not answer any request until
/// this has elapsed after reset is deasserted.
pub const RESET_RECOVERY_MS: u64 = 10;

/// State shared between the driver, its pipes and its interrupt handler.
#[derive(Clone, Copy, PartialEq, Eq, Structural, Debug)]
pub struct HostState {
    pub epx: EpxState,
    pub interrupt_pipes: InterruptPipeState,
}

impl HostState {
    pub open spec fn wf(self) -> bool {
        self.epx.wf()
    }

    /// No pipe is allocated, and nothing is held, queued or recorded.
    pub open spec fn is_reset(self) -> bool {
        self.epx.is_reset() && self.interrupt_pipes.is_reset()
    }

    /// Create a new, reset host state.
    pub fn new() -> (s: Self)
        ensures
            s.wf(),
            s.is_reset(),
    {
        HostState { epx: EpxState::new(), interrupt_pipes: InterruptPipeState::new() }
    }

    /// Forget every pipe.
    pub fn reset(&mut self)
        ensures
            final(self).wf(),
            final(self).is_reset(),
    {
        self.epx.reset();
        self.interrupt_pipes.reset();
    }
}

/// The controller's bit in the reset registers.
pub open spec fn spec_reset_bit(chip: Chip) -> u32 {
    match chip {
        Chip::Rp2040 => 0x0100_0000,
        Chip::Rp235x => 0x1000_0000,
    }
}

/// The controller's bit in the reset registers.
pub fn reset_bit(chip: Chip) -> (bit: u32)
    ensures
        bit == spec_reset_bit(chip),
{
    match chip {
        Chip::Rp2040 => 0x0100_0000,
        Chip::Rp235x => 0x1000_0000,
    }
}

/// The steps that bring the controller up in host mode.
pub open spec fn start_ops(chip: Chip) -> Seq<Op> {
    seq![
        // Reset the peripheral: zeroing its registers would clobber those that do not reset to
        // zero.
        Op::Modify(Reg::Resets, 0, spec_reset_bit(chip)),
        Op::Modify(Reg::Resets, spec_reset_bit(chip), 0),
        Op::WaitSet(Reg::ResetDone, spec_reset_bit(chip)),
        // RAM is outside the peripheral reset.
        Op::ZeroDpram((DPRAM_DATA_OFFSET / 4) as usize),
        Op::Modify(Reg::UsbMuxing, 0, MUX_TO_PHY | MUX_SOFTCON),
        Op::Modify(Reg::UsbPwr, 0, PWR_VBUS_DETECT | PWR_VBUS_DETECT_OVERRIDE_EN),
        // RP235x resets with the PHY isolated.
        Op::Modify(
            Reg::MainCtrl,
            if chip == Chip::Rp235x {
                MAIN_PHY_ISO
            } else {
                0
            },
            MAIN_CONTROLLER_EN | MAIN_HOST_NDEVICE,
        ),
        Op::Modify(Reg::SieCtrl, 0, SIE_SOF_EN | SIE_KEEP_ALIVE_EN | SIE_PULLDOWN_EN),
        Op::Write(
            Reg::Inte,
            INT_BUFF_STATUS | INT_HOST_RESUME | INT_ERROR_DATA_SEQ | INT_ERROR_CRC
                | INT_ERROR_BIT_STUFF,
        ),
        Op::UnpendIrq,
        Op::EnableIrq,
        Op::Wake(Waker::Bus),
    ]
}

/// A root port reset: drive it, wait, release it, and let the device recover.
#[derive(Clone, Copy, PartialEq, Eq, Structural, Debug)]
pub struct BusReset {
    pub assert_reset: Op,
    pub drive_ms: u64,
    pub release_reset: Op,
    pub recovery_ms: u64,
}

/// The steps and times of a root port reset.
pub open spec fn root_reset() -> BusReset {
    BusReset {
        assert_reset: Op::Modify(Reg::SieCtrl, 0, SIE_RESET_BUS),
        drive_ms: ROOT_RESET_MS,
        release_reset: Op::Modify(Reg::SieCtrl, SIE_RESET_BUS, 0),
        recovery_ms: RESET_RECOVERY_MS,
    }
}

/// A change on the root port, and the reset to drive before it is reported.
#[derive(Clone, Copy, PartialEq, Eq, Structural, Debug)]
pub struct PortChange {
    pub event: DeviceEvent,
    pub reset: Option<BusReset>,
}

/// The event that a look at the root port reports, given whether a device was connected and the
/// speed field of SIE_STATUS.
pub open spec fn event_for(was: bool, speed: u32) -> Option<DeviceEvent> {
    if was && speed != 1 && speed != 2 {
        Some(DeviceEvent::Disconnected)
    } else if !was && speed == 1 {
        Some(DeviceEvent::Connected(Speed::Low))
    } else if !was && speed == 2 {
        Some(DeviceEvent::Connected(Speed::Full))
    } else {
        None
    }
}

/// The speed field of SIE_STATUS.
pub open spec fn speed_field(sie_status: u32) -> u32 {
    (sie_status & STATUS_SPEED) >> 8
}

/// USB host driver handle.
#[derive(Clone, Copy, PartialEq, Eq, Structural, Debug)]
pub struct Driver {
    pub connected: bool,
}

impl Driver {
    /// Create a new USB driver: bring the controller up and reset the shared state.
    pub fn new(state: &mut HostState, chip: Chip) -> (r: (Driver, Vec<Op>))
        ensures
            final(state).wf(),
            final(state).is_reset(),
            r.0 == (Driver { connected: false }),
            r.1@ == start_ops(chip),
    {
        let mut ops: Vec<Op> = Vec::new();
        let bit: u32 = reset_bit(chip);
        ops.push(Op::Modify(Reg::Resets, 0, bit));
        ops.push(Op::Modify(Reg::Resets, bit, 0));
        ops.push(Op::WaitSet(Reg::ResetDone, bit));
        ops.push(Op::ZeroDpram((DPRAM_DATA_OFFSET / 4) as usize));
        ops.push(Op::Modify(Reg::UsbMuxing, 0, MUX_TO_PHY | MUX_SOFTCON));
        ops.push(Op::Modify(Reg::UsbPwr, 0, PWR_VBUS_DETECT | PWR_VBUS_DETECT_OVERRIDE_EN));
        let isolation: u32 = match chip {
            Chip::Rp235x => MAIN_PHY_ISO,
            Chip::Rp2040 => 0,
        };
        ops.push(Op::Modify(Reg::MainCtrl, isolation, MAIN_CONTROLLER_EN | MAIN_HOST_NDEVICE));
        ops.push(Op::Modify(Reg::SieCtrl, 0, SIE_SOF_EN | SIE_KEEP_ALIVE_EN | SIE_PULLDOWN_EN));
        ops.push(
            Op::Write(
                Reg::Inte,
                INT_BUFF_STATUS | INT_HOST_RESUME | INT_ERROR_DATA_SEQ | INT_ERROR_CRC
                    | INT_ERROR_BIT_STUFF,
            ),
        );
        ops.push(Op::UnpendIrq);
        ops.push(Op::EnableIrq);
        ops.push(Op::Wake(Waker::Bus));
        state.reset();
        assert(ops@ =~= start_ops(chip));
        (Driver { connected: false }, ops)
    }

    /// Return an allocator handle.
    pub fn allocator(&self) -> (a: Allocator)
        ensures
            a == (Allocator {  }),
    {
        Allocator {  }
    }

    /// Prepare to wait for an attach or detach: forget the latched one and let the interrupt
    /// through.
    pub fn watch_port(&self) -> (ops: Vec<Op>)
        ensures
            ops@ == seq![
                Op::Clear(Reg::SieStatus, STATUS_SPEED),
                Op::Modify(Reg::Inte, 0, INT_HOST_CONN_DIS),
            ],
    {
        vec![
            Op::Clear(Reg::SieStatus, STATUS_SPEED),
            Op::Modify(Reg::Inte, 0, INT_HOST_CONN_DIS),
        ]
    }

    /// Look at the root port, given SIE_STATUS. `None` while nothing has changed; otherwise the
    /// change is noted. An attach is reset before it is reported, so that the device leaves
    /// Powered for Default (USB 2.0 §9.1.2).
    pub fn wait_for_device_event(&mut self, sie_status: u32) -> (change: Option<PortChange>)
        ensures
            match event_for(old(self).connected, speed_field(sie_status)) {
                None => change is None && *final(self) == *old(self),
                Some(event) => {
                    &&& change == Some(
                        PortChange {
                            event,
                            reset: if event is Connected {
                                Some(root_reset())
                            } else {
                                None
                            },
                        },
                    )
                    &&& *final(self) == (Driver { connected: event is Connected })
                    &&& final(self).connected != old(self).connected
                },
            },
    {
        let speed: u32 = (sie_status & STATUS_SPEED) >> 8;
        let now: bool = speed == 1 || speed == 2;
        if self.connected && !now {
            self.connected = false;
            Some(PortChange { event: DeviceEvent::Disconnected, reset: None })
        } else if !self.connected && now {
            self.connected = true;
            let event: DeviceEvent = if speed == 1 {
                DeviceEvent::Connected(Speed::Low)
            } else {
                DeviceEvent::Connected(Speed::Full)
            };
            Some(PortChange { event, reset: Some(self.bus_reset()) })
        } else {
            None
        }
    }

    /// Force a bus reset on the root port.
    pub fn bus_reset(&self) -> (r: BusReset)
        ensures
            r == root_reset(),
    {
        BusReset {
            assert_reset: Op::Modify(Reg::SieCtrl, 0, SIE_RESET_BUS),
            drive_ms: ROOT_RESET_MS,
            release_reset: Op::Modify(Reg::SieCtrl, SIE_RESET_BUS, 0),
            recovery_ms: RESET_RECOVERY_MS,
        }
    }
}

/// Pipe allocator handle for [`Driver`].
#[derive(Clone, Copy, PartialEq, Eq, Structural, Debug)]
pub struct Allocator {}

/// Buffer address of the interrupt pipe on an endpoint. Fixed layout: endpoint 1 up maps to
/// block 0 up.
pub open spec fn interrupt_buffer_addr(index: int) -> int {
    DPRAM_DATA_OFFSET + (index - 1) * EPX_BLOCK_SIZE
}

/// Whether an interrupt pipe can have packets of this size.
pub open spec fn interrupt_packet_size_ok(max_packet_size: u16) -> bool {
    0 < max_packet_size <= EPX_BLOCK_SIZE
}

/// What every new pipe knows of its endpoint.
pub open spec fn describes(
    channel: Channel,
    endpoint: EndpointInfo,
    dir: PipeDirection,
    dev_addr: u8,
    split: Option<SplitInfo>,
) -> bool {
    &&& channel.ep_type == endpoint.ep_type
    &&& channel.dir == dir
    &&& channel.dev_addr == dev_addr
    &&& channel.max_packet_size == endpoint.max_packet_size
    &&& channel.ep_addr == endpoint.addr % 16
    &&& channel.interval == endpoint.interval_ms
    &&& !channel.pid
    &&& channel.pre == (split is Some && split->0.device_speed == Speed::Low)
    &&& channel.timeout.data_timeout_us == 500_000
    &&& channel.timeout.no_data_timeout_us == 500_000
    &&& channel.control_timeout_us is None
}

impl HostState {
    /// Whether a pipe for the endpoint is refused, and why.
    pub open spec fn refusal(self, endpoint: EndpointInfo) -> Option<HostError> {
        if endpoint.ep_type == EndpointType::Interrupt {
            if !interrupt_packet_size_ok(endpoint.max_packet_size) {
                Some(HostError::InvalidDescriptor)
            } else if self.interrupt_pipes.is_full() {
                Some(HostError::OutOfPipes)
            } else {
                None
            }
        } else if self.epx.is_full() {
            Some(HostError::OutOfPipes)
        } else if !can_hold(set64(self.epx.used_blocks), endpoint.max_packet_size as int) {
            Some(HostError::InsufficientMemory)
        } else {
            None
        }
    }

    /// Whether `next` is the state in which `channel` was given the lowest free endpoint and its
    /// block.
    pub open spec fn gives_endpoint(self, next: HostState, channel: Channel) -> bool {
        &&& self.interrupt_pipes.is_next(channel.index as int)
        &&& channel.buf.addr == interrupt_buffer_addr(channel.index as int)
        &&& channel.buf.len == EPX_BLOCK_SIZE
        &&& set16(next.interrupt_pipes.allocated) == set16(self.interrupt_pipes.allocated).insert(
            channel.index as int,
        )
        &&& next == (HostState {
            interrupt_pipes: InterruptPipeState {
                allocated: next.interrupt_pipes.allocated,
                ..self.interrupt_pipes
            },
            ..self
        })
    }

    /// Whether `next` is the state in which `channel` was given the lowest free EPX slot and the
    /// blocks from `start` up, the first fit.
    pub open spec fn gives_slot(self, next: HostState, channel: Channel, start: int) -> bool {
        let blocks = blocks_of(channel.max_packet_size as int);
        &&& self.epx.is_next_slot(channel.index - EP_COUNT)
        &&& is_first_fit(set64(self.epx.used_blocks), start, blocks)
        &&& channel.buf.addr == block_addr(start)
        &&& channel.buf.len == blocks * EPX_BLOCK_SIZE
        &&& set64(next.epx.used_blocks) == set64(self.epx.used_blocks).union(
            range(start, start + blocks),
        )
        &&& set16(next.epx.allocated_slots) == set16(self.epx.allocated_slots).insert(
            channel.index - EP_COUNT,
        )
        &&& next == (HostState {
            epx: EpxState {
                used_blocks: next.epx.used_blocks,
                allocated_slots: next.epx.allocated_slots,
                ..self.epx
            },
            ..self
        })
    }
}

impl Allocator {
    /// Allocate a pipe for communication with a device endpoint.
    pub fn alloc_pipe(
        &self,
        state: &mut HostState,
        dev_addr: u8,
        endpoint: &EndpointInfo,
        dir: PipeDirection,
        split: Option<SplitInfo>,
    ) -> (r: Result<Channel, HostError>)
        requires
            old(state).wf(),
        ensures
            final(state).wf(),
            match old(state).refusal(*endpoint) {
                Some(error) => r == Err::<Channel, HostError>(error) && *final(state) == *old(
                    state,
                ),
                None => r is Ok,
            },
            r matches Ok(channel) ==> {
                &&& channel.wf()
                &&& channel.max_packet_size > 0
                &&& describes(channel, *endpoint, dir, dev_addr, split)
                &&& if channel.is_interrupt() {
                    old(state).gives_endpoint(*final(state), channel)
                } else {
                    exists|start: int| #[trigger]
                        old(state).gives_slot(*final(state), channel, start)
                }
            },
    {
        let pre: bool = split_to_pre(split);
        if endpoint.ep_type == EndpointType::Interrupt {
            if endpoint.max_packet_size == 0 || endpoint.max_packet_size as usize
                > EPX_BLOCK_SIZE {
                return Err(HostError::InvalidDescriptor);
            }
            match state.interrupt_pipes.allocate() {
                Err(e) => Err(e),
                Ok(index) => {
                    let addr: u16 = DPRAM_DATA_OFFSET + (index as u16 - 1) * EPX_BLOCK_SIZE as u16;
                    Ok(
                        Channel::new(
                            index,
                            addr,
                            EPX_BLOCK_SIZE as u16,
                            endpoint,
                            dir,
                            dev_addr,
                            pre,
                        ),
                    )
                },
            }
        } else {
            match state.epx.allocate(endpoint.max_packet_size) {
                Err(e) => Err(e),
                Ok((index, addr, len)) => {
                    let ghost blocks = blocks_of(endpoint.max_packet_size as int);
                    let ghost start = choose|start: int|
                        is_first_fit(set64(old(state).epx.used_blocks), start, blocks) && addr
                            == block_addr(start) && set64(state.epx.used_blocks) == set64(
                            old(state).epx.used_blocks,
                        ).union(range(start, start + blocks));
                    let channel: Channel = Channel::new(
                        index,
                        addr,
                        len,
                        endpoint,
                        dir,
                        dev_addr,
                        pre,
                    );
                    assert(old(state).gives_slot(*state, channel, start));
                    Ok(channel)
                },
            }
        }
    }
}

impl Channel {
    /// The steps that take a pipe's endpoint out of service.
    pub open spec fn retire_ops(self) -> Seq<Op> {
        if self.is_interrupt() {
            seq![
                Op::Modify(Reg::IntEpCtrl, spec_int_ep_bit(self.index), 0),
                Op::Write(self.ep_control(), 0),
                Op::Write(self.buffer_control(), 0),
                Op::Clear(Reg::BuffStatus, spec_buff_status_bits(self.index)),
            ]
        } else {
            Seq::empty()
        }
    }

    /// The buffer lies in the area that EPX pipes get theirs from.
    pub open spec fn owns_epx_blocks(self) -> bool {
        self.buf.addr >= EPX_BUFFER_OFFSET
    }

    /// Whether `next` is the state after the pipe was dropped.
    pub open spec fn is_drop(self, state: HostState, next: HostState) -> bool {
        if self.is_interrupt() {
            let index = self.index as int;
            let old_pipes = state.interrupt_pipes;
            let new_pipes = next.interrupt_pipes;
            &&& set16(new_pipes.allocated) == set16(old_pipes.allocated).remove(index)
            &&& set16(new_pipes.toggle_owed) == set16(old_pipes.toggle_owed).remove(index)
            &&& set16(new_pipes.armed_in) == set16(old_pipes.armed_in).remove(index)
            &&& set16(new_pipes.timed_out) == set16(old_pipes.timed_out).remove(index)
            &&& next.epx == state.epx
        } else {
            let start = (self.buf.addr - EPX_BUFFER_OFFSET) / EPX_BLOCK_SIZE as int;
            let slot = self.epx_slot() as int;
            &&& set64(next.epx.used_blocks) == set64(state.epx.used_blocks).difference(
                range(start, start + blocks_of(self.buf.len as int)),
            )
            &&& set16(next.epx.allocated_slots) == set16(state.epx.allocated_slots).remove(slot)
            &&& next.epx.current_channel == state.epx.current_channel
            &&& outcome_discarded(state.epx.arbiter, next.epx.arbiter, slot)
            &&& next.interrupt_pipes == state.interrupt_pipes
        }
    }

    /// Drop a pipe: take its endpoint out of service and give back what it was allocated.
    pub fn retire(self, state: &mut HostState) -> (ops: Vec<Op>)
        requires
            self.wf(),
            old(state).wf(),
            !self.is_interrupt() ==> self.owns_epx_blocks(),
        ensures
            final(state).wf(),
            ops@ == self.retire_ops(),
            self.is_drop(*old(state), *final(state)),
    {
        if self.index < EP_COUNT {
            let ops: Vec<Op> = vec![
                Op::Modify(Reg::IntEpCtrl, int_ep_bit(self.index), 0),
                Op::Write(self.ep_control(), 0),
                Op::Write(self.buffer_control(), 0),
                Op::Clear(Reg::BuffStatus, buff_status_bits(self.index)),
            ];
            state.interrupt_pipes.free(self.index);
            ops
        } else {
            state.epx.free(self.epx_slot(), self.buf.addr, self.buf.len);
            Vec::new()
        }
    }
}

} // verus!
