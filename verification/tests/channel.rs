use rp_usb_host::channel::{Channel, EndpointBuffer, InterruptTransferGuard};
use rp_usb_host::host::{Allocator, HostState};
use rp_usb_host::interrupt_pipes::InterruptPipeState;
use rp_usb_host::regs::{
    addr_word_x, buffer_word, interrupt_ep_word, Op, Reg, BUF_AVAILABLE, BUF_FULL, SIE_SOF_SYNC,
};
use rp_usb_host::types::{EndpointInfo, EndpointType, PipeDirection, PipeError, TimeoutConfig};

fn endpoint(ep_type: EndpointType, max_packet_size: u16) -> EndpointInfo {
    EndpointInfo { addr: 0x83, ep_type, max_packet_size, interval_ms: 10 }
}

fn pipe(ep_type: EndpointType, dir: PipeDirection) -> (HostState, Channel) {
    let mut state = HostState::new();
    let channel = Allocator {}
        .alloc_pipe(&mut state, 5, &endpoint(ep_type, 8), dir, None)
        .unwrap();
    (state, channel)
}

#[test]
fn new_pipe_starts_at_data0() {
    let c = Channel::new(3, 0x200, 64, &endpoint(EndpointType::Interrupt, 8), PipeDirection::In, 9, true);
    assert_eq!(c.index, 3);
    assert_eq!(c.buf, EndpointBuffer { addr: 0x200, len: 64 });
    assert_eq!(c.ep_addr, 3);
    assert_eq!(c.dev_addr, 9);
    assert_eq!(c.max_packet_size, 8);
    assert_eq!(c.interval, 10);
    assert!(!c.pid);
    assert!(c.pre);
    assert_eq!(c.control_timeout_us, None);
    assert_eq!(c.timeout, TimeoutConfig { data_timeout_us: 500_000, no_data_timeout_us: 500_000 });
}

#[test]
fn isochronous_packets_stay_at_data0() {
    for ep_type in [EndpointType::Control, EndpointType::Bulk, EndpointType::Interrupt] {
        let (_, mut c) = pipe(ep_type, PipeDirection::In);
        c.advance_pid();
        assert!(c.pid);
        c.advance_pid();
        assert!(!c.pid);
    }
    let (_, mut c) = pipe(EndpointType::Isochronous, PipeDirection::In);
    c.advance_pid();
    assert!(!c.pid);
}

#[test]
fn control_budget_follows_the_data_stage() {
    let (_, mut c) = pipe(EndpointType::Control, PipeDirection::InOut);
    c.set_timeout(TimeoutConfig { data_timeout_us: 7, no_data_timeout_us: 9 });
    c.start_control_timeout(true);
    assert_eq!(c.control_timeout_us, Some(7));
    c.start_control_timeout(false);
    assert_eq!(c.control_timeout_us, Some(9));
    c.set_timeout(TimeoutConfig {
        data_timeout_us: u64::MAX as u128 + 1,
        no_data_timeout_us: u64::MAX as u128,
    });
    c.start_control_timeout(true);
    assert_eq!(c.control_timeout_us, Some(u64::MAX));
    c.start_control_timeout(false);
    assert_eq!(c.control_timeout_us, Some(u64::MAX));
}

#[test]
fn toggle_reset_forgets_an_owed_toggle() {
    let (mut state, mut c) = pipe(EndpointType::Interrupt, PipeDirection::In);
    c.advance_pid();
    state.interrupt_pipes.mark_toggle_owed(c.index);
    state.interrupt_pipes.mark_toggle_owed(c.index + 1);
    c.reset_data_toggle(&mut state.interrupt_pipes);
    assert!(!c.pid);
    assert_eq!(state.interrupt_pipes.toggle_owed, 1 << (c.index + 1));

    let (mut state, mut c) = pipe(EndpointType::Bulk, PipeDirection::In);
    c.advance_pid();
    state.interrupt_pipes.mark_toggle_owed(1);
    c.reset_data_toggle(&mut state.interrupt_pipes);
    assert!(!c.pid);
    assert_eq!(state.interrupt_pipes.toggle_owed, 2);
}

#[test]
fn registers_of_a_pipe() {
    let (_, c) = pipe(EndpointType::Interrupt, PipeDirection::In);
    assert_eq!(c.buffer_control(), Reg::EpInBufferControl(1));
    assert_eq!(c.ep_control(), Reg::EpInControl(0));
    assert_eq!(c.addr_endp_host(), Reg::AddrEndpX(0));
    let (_, c) = pipe(EndpointType::Bulk, PipeDirection::In);
    assert_eq!(c.buffer_control(), Reg::EpInBufferControl(0));
    assert_eq!(c.ep_control(), Reg::EpxControl);
}

#[test]
fn buffer_is_handed_over_in_two_writes() {
    let (_, c) = pipe(EndpointType::Bulk, PipeDirection::In);
    let reg = Reg::EpInBufferControl(0);
    let word = buffer_word(true, true, false, 8);
    assert_eq!(
        c.write_buffer_control(word),
        vec![Op::Write(reg, word & !BUF_AVAILABLE), Op::Delay(12), Op::Write(reg, word)]
    );
    assert_eq!(
        c.write_buffer_control(word & !BUF_AVAILABLE),
        vec![Op::Write(reg, word & !BUF_AVAILABLE)]
    );
}

#[test]
fn polling_interval_is_at_least_a_millisecond() {
    let (_, mut c) = pipe(EndpointType::Interrupt, PipeDirection::In);
    assert_eq!(c.poll_interval_ms(), 10);
    c.interval = 0;
    assert_eq!(c.poll_interval_ms(), 1);
    assert_eq!(c.rx_timeout_poll_ms(), Some(1));
    c.interval = 7;
    assert_eq!(c.rx_timeout_poll_ms(), Some(7));
    for dir in [PipeDirection::Out, PipeDirection::InOut] {
        c.dir = dir;
        assert_eq!(c.rx_timeout_poll_ms(), None);
    }
}

#[test]
fn dedicated_endpoint_is_configured() {
    let (_, mut c) = pipe(EndpointType::Interrupt, PipeDirection::Out);
    c.pre = true;
    assert_eq!(
        c.configure_interrupt(),
        vec![
            Op::Write(Reg::EpInControl(0), interrupt_ep_word(0x180, 10)),
            Op::Modify(Reg::SieCtrl, 0, SIE_SOF_SYNC),
            Op::Write(Reg::AddrEndpX(0), addr_word_x(5, 3, true, true)),
        ]
    );
}

#[test]
fn looks_at_a_dedicated_buffer() {
    let (mut state, c) = pipe(EndpointType::Interrupt, PipeDirection::In);
    let pipes = &mut state.interrupt_pipes;
    let clear = Op::Clear(Reg::BuffStatus, 0b1100);
    pipes.mark_armed_in(1);

    assert_eq!(c.poll_interrupt_buffer(pipes, BUF_AVAILABLE), (None, vec![clear]));
    assert_eq!(pipes.armed_in, 2);

    assert_eq!(c.poll_interrupt_buffer(pipes, BUF_FULL | 3), (Some(Ok(())), vec![clear]));
    assert_eq!(pipes.armed_in, 0);

    pipes.mark_armed_in(1);
    let _ = pipes.record_timeout();
    assert_eq!(
        c.poll_interrupt_buffer(pipes, BUF_AVAILABLE),
        (
            Some(Err(PipeError::Timeout)),
            vec![
                Op::Modify(Reg::IntEpCtrl, 0b10, 0),
                Op::Modify(Reg::EpInBufferControl(1), BUF_AVAILABLE | BUF_FULL, 0),
                clear,
            ]
        )
    );
    assert_eq!(pipes.timed_out, 0);
}

#[test]
fn dedicated_endpoint_is_armed_to_receive() {
    let (mut state, mut c) = pipe(EndpointType::Interrupt, PipeDirection::In);
    c.pid = true;
    let word = buffer_word(true, true, false, 8);
    assert_eq!(
        c.interrupt_reload(&mut state.interrupt_pipes),
        vec![
            Op::Write(Reg::EpInBufferControl(1), word & !BUF_AVAILABLE),
            Op::Delay(12),
            Op::Write(Reg::EpInBufferControl(1), word),
            Op::Delay(12),
            Op::Modify(Reg::IntEpCtrl, 0, 0b10),
        ]
    );
    assert_eq!(state.interrupt_pipes.armed_in, 2);
}

#[test]
fn dedicated_endpoint_sends_a_packet() {
    let (_, c) = pipe(EndpointType::Interrupt, PipeDirection::Out);
    let ops = |from, len, last| {
        let word = buffer_word(last, false, true, len);
        vec![
            Op::CopyOut { addr: 0x180, from, len: len as usize },
            Op::Write(Reg::EpInBufferControl(1), word & !BUF_AVAILABLE),
            Op::Delay(12),
            Op::Write(Reg::EpInBufferControl(1), word),
            Op::Delay(12),
            Op::Modify(Reg::IntEpCtrl, 0, 0b10),
        ]
    };
    assert_eq!(c.interrupt_send(0, 20), (8, ops(0, 8, false)));
    assert_eq!(c.interrupt_send(8, 16), (8, ops(8, 8, true)));
    assert_eq!(c.interrupt_send(16, 20), (4, ops(16, 4, true)));
    assert_eq!(c.interrupt_send(20, 20), (0, ops(20, 0, true)));
}

#[test]
fn cancelled_transfer_owes_a_toggle_if_its_packet_moved() {
    for (is_out, buffer, moved) in [
        (false, BUF_FULL, true),
        (false, 0, false),
        (false, BUF_AVAILABLE, false),
        (true, 0, true),
        (true, BUF_FULL, false),
        (true, BUF_AVAILABLE | BUF_FULL, false),
    ] {
        let mut pipes = InterruptPipeState::new();
        pipes.mark_armed_in(2);
        let guard = InterruptTransferGuard { index: 2, is_out, active: true };
        assert_eq!(guard.stop_polling(), vec![Op::Modify(Reg::IntEpCtrl, 0b100, 0)]);
        assert_eq!(
            guard.settle(&mut pipes, buffer),
            vec![
                Op::Modify(Reg::EpInBufferControl(2), BUF_AVAILABLE | BUF_FULL, 0),
                Op::Clear(Reg::BuffStatus, 0b11_0000),
            ]
        );
        assert_eq!(pipes.armed_in, 0);
        assert_eq!(pipes.toggle_owed, if moved { 4 } else { 0 });
    }
}

#[test]
fn finished_transfer_is_left_alone() {
    let (mut state, c) = pipe(EndpointType::Interrupt, PipeDirection::In);
    state.interrupt_pipes.mark_armed_in(1);
    let mut guard = c.interrupt_transfer_guard();
    guard.arm();
    guard.disarm();
    let before = state.interrupt_pipes;
    assert_eq!(guard.stop_polling(), vec![]);
    assert_eq!(guard.settle(&mut state.interrupt_pipes, BUF_FULL), vec![]);
    assert_eq!(state.interrupt_pipes, before);
}

#[test]
fn owed_toggle_is_applied_once() {
    let (mut state, mut c) = pipe(EndpointType::Interrupt, PipeDirection::In);
    state.interrupt_pipes.mark_toggle_owed(1);
    c.settle_interrupt_toggle(&mut state.interrupt_pipes);
    assert!(c.pid);
    c.settle_interrupt_toggle(&mut state.interrupt_pipes);
    assert!(c.pid);
}
