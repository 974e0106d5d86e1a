//! What lists of steps do to registers.

use rp_usb_host::channel::Channel;
use rp_usb_host::epx::{arm_epx_yield, EpxState, NAK_POLL_NORMAL};
use rp_usb_host::host::{Allocator, HostState};
use rp_usb_host::regs::{
    buff_status_bits, buffer_word, has_flag, int_ep_bit, modify_word, Op, Reg, Waker, BUF_AVAILABLE,
    EP_ENABLE,
};
use rp_usb_host::transaction::WaitTicket;
use rp_usb_host::types::{Chip, EndpointInfo, EndpointType, PipeDirection};

/// Registers that hold what was stored last.
#[derive(Clone, PartialEq, Debug)]
struct Registers(Vec<(Reg, u32)>);

impl Registers {
    fn get(&self, reg: Reg) -> u32 {
        self.0.iter().find(|entry| entry.0 == reg).map_or(0, |entry| entry.1)
    }

    fn set(&mut self, reg: Reg, word: u32) {
        match self.0.iter_mut().find(|entry| entry.0 == reg) {
            Some(entry) => entry.1 = word,
            None => self.0.push((reg, word)),
        }
    }

    fn run(&mut self, ops: &[Op]) {
        for op in ops {
            match *op {
                Op::Write(reg, word) => self.set(reg, word),
                Op::Modify(reg, clear, set) => self.set(reg, modify_word(self.get(reg), clear, set)),
                Op::Clear(reg, mask) => self.set(reg, self.get(reg) & !mask),
                _ => {}
            }
        }
    }
}

fn pipes(ep_type: EndpointType) -> (HostState, Vec<Channel>) {
    let mut state = HostState::new();
    let endpoint = EndpointInfo { addr: 1, ep_type, max_packet_size: 64, interval_ms: 0 };
    let channels = (0..2)
        .map(|_| {
            Allocator {}
                .alloc_pipe(&mut state, 1, &endpoint, PipeDirection::Out, None)
                .unwrap()
        })
        .collect();
    (state, channels)
}

#[test]
fn disarming_takes_the_request_back() {
    for (chip, nak) in [(Chip::Rp2040, NAK_POLL_NORMAL), (Chip::Rp235x, 0x0010_0010)] {
        let mut regs = Registers(vec![(Reg::NakPoll, nak), (Reg::Inte, 0x330)]);
        let before = regs.clone();
        regs.run(&arm_epx_yield(chip));
        assert_ne!(regs, before);
        regs.run(&EpxState::new().disarm_epx_yield(chip));
        assert_eq!(regs, before);
    }
}

#[test]
fn buffer_arrives_as_asked_for() {
    let (_, c) = pipes(EndpointType::Bulk);
    let mut regs = Registers(vec![]);
    let word = buffer_word(true, true, true, 33);
    let ops = c[0].write_buffer_control(word);
    regs.run(&ops[..2]);
    assert_eq!(regs.get(Reg::EpInBufferControl(0)), word & !BUF_AVAILABLE);
    regs.run(&ops[2..]);
    assert_eq!(regs.get(Reg::EpInBufferControl(0)), word);
}

#[test]
fn released_endpoint_is_disabled() {
    let (mut state, c) = pipes(EndpointType::Bulk);
    let mut regs = Registers(vec![]);
    let ticket = WaitTicket::new(&mut state.epx, 0);
    let (mut guard, ops) = c[0].acquire_epx(&mut state.epx, ticket);
    regs.run(&ops);
    regs.run(&c[0].set_data_in(8, false));
    guard.arm(&mut state.epx);
    assert!(has_flag(regs.get(Reg::EpxControl), EP_ENABLE));
    assert!(has_flag(regs.get(Reg::EpInBufferControl(0)), BUF_AVAILABLE));
    let ops = guard.release(&mut state.epx, Chip::Rp235x);
    regs.run(&ops);
    assert!(!has_flag(regs.get(Reg::EpxControl), EP_ENABLE));
    assert!(!has_flag(regs.get(Reg::EpInBufferControl(0)), BUF_AVAILABLE));
    for slot in 0..2 {
        assert!(ops.contains(&Op::Wake(Waker::Epx(slot))));
    }
}

#[test]
fn stopped_holder_loses_its_buffer() {
    let (mut state, c) = pipes(EndpointType::Bulk);
    let mut regs = Registers(vec![]);
    regs.run(&c[0].set_data_in(8, false));
    let buffer = regs.get(Reg::EpInBufferControl(0));
    let (yielded, ops) = state.epx.yield_epx(c[0].index, buffer, 0);
    assert!(yielded);
    regs.run(&ops);
    assert!(!has_flag(regs.get(Reg::EpInBufferControl(0)), BUF_AVAILABLE));
}

#[test]
fn interrupt_pipes_do_not_touch_each_other() {
    let (mut state, c) = pipes(EndpointType::Interrupt);
    let mut regs = Registers(vec![(Reg::BuffStatus, u32::MAX)]);
    regs.run(&c[1].configure_interrupt());
    regs.run(&c[1].interrupt_reload(&mut state.interrupt_pipes));
    let own = |regs: &Registers| {
        (
            regs.get(c[1].ep_control()),
            regs.get(c[1].buffer_control()),
            regs.get(c[1].addr_endp_host()),
            regs.get(Reg::IntEpCtrl) & int_ep_bit(c[1].index),
            regs.get(Reg::BuffStatus) & buff_status_bits(c[1].index),
        )
    };
    let before = own(&regs);
    regs.run(&c[0].configure_interrupt());
    regs.run(&c[0].interrupt_reload(&mut state.interrupt_pipes));
    regs.run(&c[0].interrupt_send(0, 100).1);
    regs.run(&c[0].poll_interrupt_buffer(&mut state.interrupt_pipes, 0).1);
    regs.run(&c[0].retire(&mut state));
    assert_eq!(own(&regs), before);
}
