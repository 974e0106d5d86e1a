use rp_usb_host::channel::Channel;
use rp_usb_host::epx::EpxState;
use rp_usb_host::host::{Allocator, HostState};
use rp_usb_host::irq::{cause, InterruptHandler, IrqCause, IrqNext, SofOutcome};
use rp_usb_host::regs::{
    Op, Reg, Waker, BUF_AVAILABLE, BUF_FULL, INT_BUFF_STATUS, INT_EPX_STOPPED_ON_NAK,
    INT_ERROR_BIT_STUFF, INT_ERROR_CRC, INT_ERROR_DATA_SEQ, INT_ERROR_RX_OVERFLOW,
    INT_ERROR_RX_TIMEOUT, INT_HOST_CONN_DIS, INT_HOST_RESUME, INT_HOST_SOF, INT_STALL,
    INT_TRANS_COMPLETE, NAK_EPX_STOPPED_ON_NAK, SIE_STOP_TRANS, STATUS_BIT_STUFF_ERROR,
    STATUS_CRC_ERROR, STATUS_DATA_SEQ_ERROR, STATUS_RESUME,
};
use rp_usb_host::types::{Chip, EndpointInfo, EndpointType, PipeDirection, PipeError};

const BUS: Op = Op::Wake(Waker::Bus);

/// Two bulk pipes, the first of which holds EPX mid-transaction.
fn busy() -> (HostState, Vec<Channel>) {
    let mut state = HostState::new();
    let endpoint = EndpointInfo {
        addr: 1,
        ep_type: EndpointType::Bulk,
        max_packet_size: 64,
        interval_ms: 0,
    };
    let c: Vec<Channel> = (0..2)
        .map(|_| {
            Allocator {}
                .alloc_pipe(&mut state, 1, &endpoint, PipeDirection::In, None)
                .unwrap()
        })
        .collect();
    state.epx.current_channel = c[0].index;
    state.epx.arbiter.armed = true;
    (state, c)
}

fn handle(state: &mut HostState, chip: Chip, ints: u32) -> (IrqNext, Vec<Op>) {
    InterruptHandler::on_interrupt(state, chip, ints, ints)
}

#[test]
fn causes_in_order_of_handling() {
    let order = [
        (INT_HOST_CONN_DIS, IrqCause::HostConnDis),
        (INT_HOST_RESUME, IrqCause::HostResume),
        (INT_STALL, IrqCause::Stall),
        (INT_ERROR_RX_OVERFLOW, IrqCause::RxOverflow),
        (INT_TRANS_COMPLETE, IrqCause::TransComplete),
        (INT_ERROR_RX_TIMEOUT, IrqCause::RxTimeout),
        (INT_BUFF_STATUS, IrqCause::BuffStatus),
        (INT_ERROR_CRC, IrqCause::CrcError),
        (INT_ERROR_BIT_STUFF, IrqCause::BitStuffError),
        (INT_ERROR_DATA_SEQ, IrqCause::DataSeqError),
        (INT_HOST_SOF, IrqCause::HostSof),
    ];
    let mut later = 0;
    for (mask, expected) in order.into_iter().rev() {
        later |= mask;
        assert_eq!(cause(mask), expected);
        assert_eq!(cause(later), expected);
    }
    assert_eq!(cause(0), IrqCause::Unknown);
}

#[test]
fn causes_that_only_wake() {
    let inte = |mask| Op::Clear(Reg::Inte, mask);
    let holder = Op::Wake(Waker::Epx(0));
    for (ints, expected) in [
        (INT_HOST_CONN_DIS, vec![inte(INT_HOST_CONN_DIS), BUS]),
        (INT_HOST_RESUME, vec![Op::Clear(Reg::SieStatus, STATUS_RESUME), BUS]),
        (INT_STALL, vec![inte(INT_STALL), holder, BUS]),
        (INT_ERROR_RX_OVERFLOW, vec![inte(INT_ERROR_RX_OVERFLOW), holder, BUS]),
        (INT_ERROR_RX_TIMEOUT, vec![inte(INT_ERROR_RX_TIMEOUT), holder, BUS]),
        (0, vec![BUS]),
    ] {
        let (mut state, _) = busy();
        let before = state;
        assert_eq!(handle(&mut state, Chip::Rp2040, ints), (IrqNext::Done, expected));
        assert_eq!(state, before);
    }
}

#[test]
fn completion_counts_as_progress() {
    let (mut state, _) = busy();
    state.epx.arbiter.switch_requested = true;
    assert_eq!(
        handle(&mut state, Chip::Rp2040, INT_TRANS_COMPLETE),
        (
            IrqNext::Done,
            vec![Op::Clear(Reg::Inte, INT_TRANS_COMPLETE), Op::Wake(Waker::Epx(0)), BUS]
        )
    );
    assert!(!state.epx.arbiter.switch_requested);
}

#[test]
fn framing_errors_are_charged_to_the_holder() {
    for (ints, status, error) in [
        (INT_ERROR_CRC, STATUS_CRC_ERROR, PipeError::BadResponse),
        (INT_ERROR_BIT_STUFF, STATUS_BIT_STUFF_ERROR, PipeError::BadResponse),
        (INT_ERROR_DATA_SEQ, STATUS_DATA_SEQ_ERROR, PipeError::DataToggleError),
    ] {
        let (mut state, c) = busy();
        assert_eq!(
            handle(&mut state, Chip::Rp235x, ints),
            (
                IrqNext::Done,
                vec![Op::Clear(Reg::SieStatus, status), Op::Wake(Waker::Epx(0)), BUS]
            )
        );
        assert_eq!(c[1].wait_epx_transaction(&mut state.epx, 0).0, None);
        assert_eq!(c[0].wait_epx_transaction(&mut state.epx, 0).0, Some(Err(error)));

        let (mut state, _) = busy();
        state.epx.arbiter.armed = false;
        let before = state;
        assert_eq!(
            handle(&mut state, Chip::Rp235x, ints),
            (IrqNext::Done, vec![Op::Clear(Reg::SieStatus, status), BUS])
        );
        assert_eq!(state, before);
    }
}

#[test]
fn stop_on_nak() {
    let (mut state, c) = busy();
    let before = state;
    let mut expected = vec![Op::Modify(Reg::NakPoll, 0, NAK_EPX_STOPPED_ON_NAK)];
    expected.extend(EpxState::new().disarm_epx_yield(Chip::Rp235x));
    let ints = INT_EPX_STOPPED_ON_NAK | INT_HOST_CONN_DIS;
    assert_eq!(
        handle(&mut state, Chip::Rp235x, ints),
        (IrqNext::SampleEpx(c[0].index), expected)
    );
    assert_eq!(state, before);
    // It is the second reading that counts.
    assert_eq!(
        InterruptHandler::on_interrupt(&mut state, Chip::Rp235x, ints, 0).0,
        IrqNext::Done
    );
    // RP2040 has no such interrupt.
    assert_eq!(
        handle(&mut state, Chip::Rp2040, INT_EPX_STOPPED_ON_NAK),
        (IrqNext::Done, vec![BUS])
    );
}

#[test]
fn stopped_epx_is_handed_on() {
    let (mut state, c) = busy();
    assert_eq!(
        InterruptHandler::on_epx_stopped(&mut state, c[0].index, BUF_AVAILABLE, 0),
        (
            true,
            vec![
                Op::Modify(Reg::EpInBufferControl(0), BUF_AVAILABLE, 0),
                Op::Wake(Waker::Epx(0)),
                Op::Wake(Waker::Epx(1)),
                BUS,
            ]
        )
    );
    assert_eq!(state.epx.current_channel, 0);

    let (mut state, c) = busy();
    assert_eq!(
        InterruptHandler::on_epx_stopped(&mut state, c[0].index, BUF_FULL, 0),
        (false, vec![Op::Wake(Waker::Epx(0)), BUS])
    );
    assert_eq!(state.epx.current_channel, c[0].index);
}

#[test]
fn frames_stop_a_contended_holder() {
    let (mut state, c) = busy();
    state.epx.arbiter.set_waiting(1, true);
    let read = Op::Read(Reg::SofRd);
    assert_eq!(
        handle(&mut state, Chip::Rp2040, INT_HOST_SOF),
        (IrqNext::Done, vec![read, BUS])
    );
    assert!(state.epx.arbiter.switch_requested);
    assert_eq!(
        handle(&mut state, Chip::Rp2040, INT_HOST_SOF),
        (
            IrqNext::SampleEpx(c[0].index),
            vec![
                read,
                Op::Modify(Reg::SieCtrl, 0, SIE_STOP_TRANS),
                Op::WaitClear(Reg::SieCtrl, SIE_STOP_TRANS),
            ]
        )
    );
    assert!(!state.epx.arbiter.switch_requested);
}

#[test]
fn progress_between_frames_restarts_the_count() {
    let (mut state, _) = busy();
    state.epx.arbiter.set_waiting(1, true);
    let _ = handle(&mut state, Chip::Rp2040, INT_HOST_SOF);
    let _ = handle(&mut state, Chip::Rp2040, INT_TRANS_COMPLETE);
    assert_eq!(handle(&mut state, Chip::Rp2040, INT_HOST_SOF).0, IrqNext::Done);
    assert!(state.epx.arbiter.switch_requested);
}

#[test]
fn frames_without_contention() {
    let (mut state, _) = busy();
    state.epx.arbiter.switch_requested = true;
    let mut idle = vec![Op::Read(Reg::SofRd)];
    idle.extend(EpxState::new().disarm_epx_yield(Chip::Rp2040));
    assert_eq!(
        InterruptHandler::on_host_sof(&mut state.epx, Chip::Rp2040),
        (SofOutcome::Idle, idle)
    );
    assert!(!state.epx.arbiter.switch_requested);

    state.epx.arbiter.set_waiting(1, true);
    state.epx.arbiter.switch_requested = true;
    state.epx.current_channel = 0;
    assert_eq!(
        InterruptHandler::on_host_sof(&mut state.epx, Chip::Rp2040),
        (SofOutcome::Free, vec![Op::Read(Reg::SofRd)])
    );
    assert!(!state.epx.arbiter.switch_requested);

    let before = state.epx;
    assert_eq!(
        InterruptHandler::on_host_sof(&mut state.epx, Chip::Rp235x),
        (SofOutcome::Ignored, vec![Op::Clear(Reg::Inte, INT_HOST_SOF)])
    );
    assert_eq!(state.epx, before);
}

#[test]
fn buffer_status_is_routed() {
    let (mut state, _) = busy();
    assert_eq!(
        handle(&mut state, Chip::Rp235x, INT_BUFF_STATUS),
        (IrqNext::ReadBuffStatus, vec![])
    );
    for index in [1, 2, 15] {
        state.interrupt_pipes.mark_armed_in(index);
    }
    let status = 0b10 | (0b01 << 2) | (0b10 << 30);
    assert_eq!(
        InterruptHandler::on_buff_status(&mut state, status),
        vec![
            Op::Clear(Reg::BuffStatus, 0b10),
            Op::Wake(Waker::Epx(0)),
            Op::Clear(Reg::BuffStatus, 0b11 << 2),
            Op::Wake(Waker::EpIn(1)),
            Op::Clear(Reg::BuffStatus, 0b11 << 30),
            Op::Wake(Waker::EpIn(15)),
            BUS,
        ]
    );
    assert_eq!(state.interrupt_pipes.armed_in, 1 << 2);
    assert_eq!(InterruptHandler::on_buff_status(&mut state, 0), vec![BUS]);
}
