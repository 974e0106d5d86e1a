use rp_usb_host::channel::Channel;
use rp_usb_host::epx::EpxState;
use rp_usb_host::interrupt_pipes::InterruptPipeState;
use rp_usb_host::regs::{Op, Reg, Waker, STATUS_RX_TIMEOUT};
use rp_usb_host::types::HostError;

#[test]
fn endpoints_are_handed_out_from_one_up() {
    let mut p = InterruptPipeState::new();
    for expected in 1..16 {
        assert_eq!(p.allocate(), Ok(expected));
    }
    assert_eq!(p.allocate(), Err(HostError::OutOfPipes));
    assert_eq!(p.allocated, 0xfffe);
    p.free(9);
    p.free(4);
    assert_eq!(p.allocate(), Ok(4));
    assert_eq!(p.allocate(), Ok(9));
    assert_eq!(p.allocate(), Err(HostError::OutOfPipes));
}

#[test]
fn freeing_drops_everything_recorded() {
    let mut p = InterruptPipeState::new();
    for index in [1, 2] {
        assert_eq!(p.allocate(), Ok(index));
        p.mark_toggle_owed(index);
        p.mark_armed_in(index);
    }
    let _ = p.record_timeout();
    p.mark_armed_in(1);
    p.mark_armed_in(2);
    p.free(1);
    assert_eq!(
        p,
        InterruptPipeState { allocated: 4, toggle_owed: 4, armed_in: 4, timed_out: 4 }
    );
}

#[test]
fn reset_forgets_everything() {
    let mut p = InterruptPipeState { allocated: 6, toggle_owed: 2, armed_in: 4, timed_out: 2 };
    p.reset();
    assert_eq!(p, InterruptPipeState::new());
}

#[test]
fn timeout_is_charged_to_armed_endpoints_only() {
    let mut p = InterruptPipeState::new();
    p.mark_armed_in(3);
    p.mark_armed_in(15);
    p.mark_armed_in(8);
    p.mark_completed(8);
    let ops = p.record_timeout();
    assert_eq!(ops, vec![Op::Wake(Waker::EpIn(3)), Op::Wake(Waker::EpIn(15))]);
    assert_eq!(p.armed_in, 0);
    assert!(p.take_timeout(3));
    assert!(!p.take_timeout(3));
    assert!(!p.take_timeout(8));
    assert!(p.take_timeout(15));
}

#[test]
fn earlier_timeouts_are_kept() {
    let mut p = InterruptPipeState::new();
    p.mark_armed_in(1);
    let _ = p.record_timeout();
    p.mark_armed_in(2);
    let ops = p.record_timeout();
    assert_eq!(ops, vec![Op::Wake(Waker::EpIn(2))]);
    assert_eq!(p.timed_out, 0b110);
}

#[test]
fn owed_toggles() {
    let mut p = InterruptPipeState::new();
    p.mark_toggle_owed(5);
    p.mark_toggle_owed(6);
    p.clear_toggle_owed(6);
    assert!(p.take_toggle_owed(5));
    assert!(!p.take_toggle_owed(5));
    assert!(!p.take_toggle_owed(6));
}

#[test]
fn latched_timeout_counts_only_while_epx_is_idle() {
    let mut p = InterruptPipeState::new();
    p.mark_armed_in(2);
    let mut epx = EpxState::new();

    assert_eq!(Channel::check_rx_timeout(&epx, &mut p, !STATUS_RX_TIMEOUT), vec![]);
    epx.current_channel = 16;
    assert_eq!(Channel::check_rx_timeout(&epx, &mut p, STATUS_RX_TIMEOUT), vec![]);
    epx.current_channel = 0;
    epx.arbiter.armed = true;
    assert_eq!(Channel::check_rx_timeout(&epx, &mut p, STATUS_RX_TIMEOUT), vec![]);
    assert_eq!(p.armed_in, 4);

    epx.arbiter.armed = false;
    assert_eq!(
        Channel::check_rx_timeout(&epx, &mut p, STATUS_RX_TIMEOUT),
        vec![
            Op::Clear(Reg::SieStatus, STATUS_RX_TIMEOUT),
            Op::Wake(Waker::EpIn(2)),
        ]
    );
    assert_eq!(p.armed_in, 0);
    assert!(p.take_timeout(2));
}
