use rp_usb_host::arbiter::EpxError;
use rp_usb_host::channel::Channel;
use rp_usb_host::epx::{arm_epx_yield, EpxState};
use rp_usb_host::host::{Allocator, HostState};
use rp_usb_host::regs::{
    addr_word, buffer_word, Op, Reg, Waker, BUF_AVAILABLE, BUF_FULL, EP_BUFFER_ADDRESS, EP_ENABLE,
    EP_INTERRUPT_PER_BUFF, EP_TYPE, INT_ERROR_BIT_STUFF, INT_ERROR_CRC, INT_ERROR_DATA_SEQ,
    INT_ERROR_RX_OVERFLOW, INT_ERROR_RX_TIMEOUT, INT_STALL, INT_TRANS_COMPLETE, SIE_PREAMBLE_EN,
    SIE_RECEIVE_DATA, SIE_SEND_DATA, SIE_SEND_SETUP, SIE_START_TRANS, SIE_STOP_TRANS,
    STATUS_OUTCOMES, STATUS_RX_OVERFLOW, STATUS_STALL_REC, STATUS_TRANS_COMPLETE,
};
use rp_usb_host::transaction::{
    EpxTransactionGuard, TransactionNext, TransactionStatus, WaitTicket,
};
use rp_usb_host::types::{Chip, EndpointInfo, EndpointType, PipeDirection, PipeError};

fn pipes(types: &[EndpointType]) -> (EpxState, Vec<Channel>) {
    let mut state = HostState::new();
    let channels = types
        .iter()
        .map(|&ep_type| {
            let endpoint = EndpointInfo { addr: 2, ep_type, max_packet_size: 64, interval_ms: 0 };
            Allocator {}
                .alloc_pipe(&mut state, 7, &endpoint, PipeDirection::InOut, None)
                .unwrap()
        })
        .collect();
    (state.epx, channels)
}

fn bulk() -> (EpxState, Channel) {
    let (epx, channels) = pipes(&[EndpointType::Bulk]);
    (epx, channels[0])
}

#[test]
fn tickets_join_and_leave_the_queue() {
    let mut epx = EpxState::new();
    let ticket = WaitTicket::new(&mut epx, 4);
    assert_eq!(epx.arbiter.waiting, 1 << 4);
    ticket.release(&mut epx);
    assert_eq!(epx.arbiter.waiting, 0);
}

#[test]
fn who_may_run() {
    let (mut epx, c) = pipes(&[EndpointType::Bulk, EndpointType::Bulk, EndpointType::Bulk]);
    // Free, nobody queued.
    assert!(c[0].can_run_transaction(&epx) && c[2].can_run_transaction(&epx));
    // Free, and the queue is served from behind slot 0.
    let _ = WaitTicket::new(&mut epx, 0);
    let _ = WaitTicket::new(&mut epx, 1);
    assert!(!c[0].can_run_transaction(&epx));
    assert!(c[1].can_run_transaction(&epx));
    assert!(!c[2].can_run_transaction(&epx));
    // Held.
    epx.current_channel = c[2].index;
    assert!(!c[1].can_run_transaction(&epx));
    assert!(c[2].can_run_transaction(&epx));
}

#[test]
fn contention_asks_for_a_yield() {
    let (mut epx, c) = pipes(&[EndpointType::Bulk, EndpointType::Bulk]);
    epx.current_channel = c[0].index;
    for chip in [Chip::Rp2040, Chip::Rp235x] {
        assert_eq!(c[1].poll_acquire(&mut epx, chip), (false, arm_epx_yield(chip)));
    }
    assert_eq!(c[0].poll_acquire(&mut epx, Chip::Rp2040), (true, vec![]));
    let disarm = epx.disarm_epx_yield(Chip::Rp235x);
    assert_eq!(c[0].poll_acquire(&mut epx, Chip::Rp235x), (true, disarm));
}

#[test]
fn looks_at_the_epx_buffer() {
    let (mut epx, c) = pipes(&[EndpointType::Bulk, EndpointType::Bulk]);
    let clear = Op::Clear(Reg::BuffStatus, 0b11);
    assert_eq!(c[0].poll_epx_buffer(&epx, 0), (true, vec![clear]));
    assert_eq!(c[0].poll_epx_buffer(&epx, BUF_AVAILABLE), (false, vec![clear]));
    epx.current_channel = c[1].index;
    assert_eq!(c[0].poll_epx_buffer(&epx, 0), (false, vec![]));
    assert_eq!(c[0].poll_epx_buffer(&epx, BUF_AVAILABLE), (false, vec![]));
    assert_eq!(c[1].poll_epx_buffer(&epx, 0), (true, vec![clear]));
}

#[test]
fn epx_is_configured_for_a_pipe() {
    for (ep_type, bits) in [
        (EndpointType::Control, 0u32),
        (EndpointType::Isochronous, 1 << 26),
        (EndpointType::Bulk, 2 << 26),
    ] {
        let (mut epx, channels) = pipes(&[ep_type]);
        let mut c = channels[0];
        c.pre = ep_type == EndpointType::Control;
        let ops = c.configure_epx_for_pipe(&mut epx);
        assert_eq!(
            ops,
            vec![
                Op::Write(Reg::AddrEndp, addr_word(7, 2)),
                Op::Modify(
                    Reg::EpxControl,
                    EP_BUFFER_ADDRESS | EP_TYPE,
                    EP_ENABLE | EP_INTERRUPT_PER_BUFF | 0x540 | bits
                ),
                Op::Modify(Reg::SieCtrl, SIE_PREAMBLE_EN, if c.pre { SIE_PREAMBLE_EN } else { 0 }),
            ]
        );
        assert_eq!(epx.current_channel, c.index);
    }
}

#[test]
fn acquiring_leaves_the_queue() {
    let (mut epx, c) = bulk();
    let ticket = WaitTicket::new(&mut epx, c.epx_slot());
    let (guard, _) = c.acquire_epx(&mut epx, ticket);
    assert_eq!(guard, EpxTransactionGuard { index: 16, transaction_active: false });
    assert_eq!(epx.arbiter.waiting, 0);
    assert_eq!(epx.current_channel, 16);
}

#[test]
fn transaction_is_started_after_a_delay() {
    let (_, c) = bulk();
    assert_eq!(
        c.start_epx_transaction(),
        vec![
            Op::Modify(
                Reg::Inte,
                INT_ERROR_RX_TIMEOUT,
                INT_TRANS_COMPLETE
                    | INT_STALL
                    | INT_ERROR_RX_OVERFLOW
                    | INT_ERROR_CRC
                    | INT_ERROR_BIT_STUFF
                    | INT_ERROR_DATA_SEQ
            ),
            Op::Delay(12),
            Op::Modify(Reg::SieCtrl, 0, SIE_START_TRANS),
        ]
    );
}

#[test]
fn recorded_outcomes_come_first_and_one_at_a_time() {
    let (mut epx, c) = bulk();
    epx.arbiter.mark_yielded(0);
    epx.arbiter.mark_completed(0);
    epx.arbiter.mark_error(0, EpxError::DataToggle);
    let status = STATUS_TRANS_COMPLETE;
    let mut look = || c.wait_epx_transaction(&mut epx, status);
    assert_eq!(look(), (Some(Err(PipeError::DataToggleError)), vec![]));
    assert_eq!(look(), (Some(Ok(TransactionStatus::Complete)), vec![]));
    assert_eq!(look(), (Some(Ok(TransactionStatus::NakYield)), vec![]));
    assert_eq!(
        look(),
        (
            Some(Ok(TransactionStatus::Complete)),
            vec![Op::Clear(Reg::SieStatus, STATUS_TRANS_COMPLETE)]
        )
    );
}

#[test]
fn latched_outcomes_in_order() {
    let (mut epx, c) = bulk();
    let all = STATUS_TRANS_COMPLETE | STATUS_STALL_REC | STATUS_RX_OVERFLOW;
    let clear = |mask| vec![Op::Clear(Reg::SieStatus, mask)];
    let mut look = |status| c.wait_epx_transaction(&mut epx, status);
    assert_eq!(look(0), (None, vec![]));
    assert_eq!(
        look(all),
        (Some(Ok(TransactionStatus::Complete)), clear(STATUS_TRANS_COMPLETE))
    );
    assert_eq!(
        look(STATUS_STALL_REC | STATUS_RX_OVERFLOW),
        (Some(Err(PipeError::Stall)), clear(STATUS_STALL_REC))
    );
    assert_eq!(
        look(STATUS_RX_OVERFLOW),
        (Some(Err(PipeError::BufferOverflow)), clear(STATUS_RX_OVERFLOW))
    );
}

#[test]
fn outcomes_of_other_pipes_are_not_ours() {
    let (mut epx, c) = pipes(&[EndpointType::Bulk, EndpointType::Bulk]);
    epx.arbiter.mark_error(1, EpxError::BadResponse);
    assert_eq!(c[0].wait_epx_transaction(&mut epx, 0), (None, vec![]));
    assert_eq!(
        c[1].wait_epx_transaction(&mut epx, 0),
        (Some(Err(PipeError::BadResponse)), vec![])
    );
}

#[test]
fn deadline_of_a_setup() {
    let (mut epx, channels) = pipes(&[EndpointType::Control]);
    let c = channels[0];
    epx.current_channel = c.index;
    let before = epx;
    assert_eq!(
        c.stop_timed_out_transaction(&mut epx, true, STATUS_TRANS_COMPLETE, 0, 0),
        (
            TransactionStatus::Complete,
            vec![Op::Clear(Reg::SieStatus, STATUS_TRANS_COMPLETE)]
        )
    );
    assert_eq!(
        c.stop_timed_out_transaction(&mut epx, true, 0, BUF_FULL, 0),
        (
            TransactionStatus::Timeout,
            vec![
                Op::Clear(Reg::SieStatus, STATUS_OUTCOMES),
                Op::Clear(Reg::BuffStatus, 0b11),
            ]
        )
    );
    assert_eq!(epx, before);
}

#[test]
fn deadline_of_a_data_packet() {
    let (mut epx, channels) = pipes(&[EndpointType::Control]);
    let c = channels[0];
    epx.current_channel = c.index;
    let before = epx;
    // The packet landed as the transaction was stopped.
    assert_eq!(
        c.stop_timed_out_transaction(&mut epx, false, 0, BUF_FULL, SIE_RECEIVE_DATA),
        (TransactionStatus::Complete, vec![Op::Wake(Waker::Epx(0))])
    );
    assert_eq!(epx, before);
    // It did not.
    assert_eq!(
        c.stop_timed_out_transaction(&mut epx, false, STATUS_TRANS_COMPLETE, BUF_FULL, SIE_SEND_DATA),
        (
            TransactionStatus::Timeout,
            vec![
                Op::Modify(Reg::EpInBufferControl(0), BUF_AVAILABLE, 0),
                Op::Wake(Waker::Epx(0)),
                Op::Clear(Reg::SieStatus, STATUS_OUTCOMES),
                Op::Clear(Reg::BuffStatus, 0b11),
            ]
        )
    );
    assert_eq!(epx.current_channel, 0);
    assert!(c.take_nak_yield(&mut epx));
    assert!(!c.take_nak_yield(&mut epx));
}

#[test]
fn setup_packet_is_armed() {
    let (_, mut channels) = pipes(&[EndpointType::Control]);
    assert!(!channels[0].pid);
    assert_eq!(
        channels[0].set_setup_packet(&[0x80, 0x06, 0x00, 0x01, 0x09, 0x04, 0x12, 0x34]),
        vec![
            Op::Write(Reg::SetupPacketLow, 0x0100_0680),
            Op::Write(Reg::SetupPacketHigh, 0x3412_0409),
            Op::Modify(Reg::SieCtrl, SIE_SEND_DATA | SIE_RECEIVE_DATA, SIE_SEND_SETUP),
        ]
    );
    assert!(channels[0].pid);
}

#[test]
fn data_in_is_armed() {
    let (_, c) = pipes(&[EndpointType::Bulk, EndpointType::Isochronous]);
    let ops = |pid| {
        let word = buffer_word(true, pid, false, 40);
        vec![
            Op::Write(Reg::EpInBufferControl(0), word & !BUF_AVAILABLE),
            Op::Delay(12),
            Op::Write(Reg::EpInBufferControl(0), word),
            Op::Modify(Reg::SieCtrl, SIE_SEND_DATA | SIE_SEND_SETUP, SIE_RECEIVE_DATA),
        ]
    };
    assert_eq!(c[0].set_data_in(40, true), ops(true));
    assert_eq!(c[0].set_data_in(40, false), ops(false));
    assert_eq!(c[1].set_data_in(40, true), ops(false));
}

#[test]
fn data_out_is_armed() {
    let (_, c) = pipes(&[EndpointType::Bulk, EndpointType::Isochronous]);
    let ops = |addr, from, len: u16, pid| {
        let word = buffer_word(true, pid, true, len);
        vec![
            Op::CopyOut { addr, from, len: len as usize },
            Op::Write(Reg::EpInBufferControl(0), word & !BUF_AVAILABLE),
            Op::Delay(12),
            Op::Write(Reg::EpInBufferControl(0), word),
            Op::Modify(Reg::SieCtrl, SIE_SEND_SETUP | SIE_RECEIVE_DATA, SIE_SEND_DATA),
        ]
    };
    assert_eq!(c[0].set_data_out(0, 100, true), (64, ops(0x540, 0, 64, true)));
    assert_eq!(c[0].set_data_out(64, 100, false), (36, ops(0x540, 64, 36, false)));
    assert_eq!(c[0].set_data_out(0, 0, true), (0, ops(0x540, 0, 0, true)));
    assert_eq!(c[1].set_data_out(0, 5, true), (5, ops(0x580, 0, 5, false)));
}

#[test]
fn what_follows_a_transaction() {
    let (epx, c) = pipes(&[EndpointType::Bulk, EndpointType::Isochronous]);
    let after = |channel: &Channel, result| {
        let mut epx = epx;
        let mut guard = EpxTransactionGuard::new(channel);
        guard.arm(&mut epx);
        let next = channel.after_transaction(&mut guard, &mut epx, result);
        assert_eq!(guard.transaction_active, epx.arbiter.armed);
        (next, guard.transaction_active)
    };
    for channel in &c {
        assert_eq!(
            after(channel, Ok(TransactionStatus::Complete)),
            (TransactionNext::Return(Ok(())), false)
        );
        assert_eq!(
            after(channel, Ok(TransactionStatus::Timeout)),
            (TransactionNext::Return(Err(PipeError::Timeout)), false)
        );
        assert_eq!(
            after(channel, Err(PipeError::Stall)),
            (TransactionNext::Return(Err(PipeError::Stall)), true)
        );
    }
    assert_eq!(after(&c[0], Ok(TransactionStatus::NakYield)), (TransactionNext::Retry, true));
    assert_eq!(
        after(&c[1], Ok(TransactionStatus::NakYield)),
        (TransactionNext::Return(Err(PipeError::Canceled)), true)
    );
}

#[test]
fn releasing_stops_what_still_runs() {
    let (mut epx, c) = pipes(&[EndpointType::Bulk, EndpointType::Bulk]);
    let ticket = WaitTicket::new(&mut epx, 1);
    let (mut guard, _) = c[1].acquire_epx(&mut epx, ticket);
    guard.arm(&mut epx);
    epx.arbiter.mark_error(1, EpxError::BadResponse);
    epx.arbiter.switch_requested = true;
    let ops = guard.release(&mut epx, Chip::Rp2040);
    let mut expected = vec![
        Op::Modify(Reg::SieCtrl, 0, SIE_STOP_TRANS),
        Op::WaitClear(Reg::SieCtrl, SIE_STOP_TRANS),
        Op::Clear(Reg::SieStatus, STATUS_OUTCOMES),
        Op::Clear(Reg::BuffStatus, 0b11),
    ];
    expected.extend(EpxState::new().disarm_epx_yield(Chip::Rp2040));
    expected.extend([
        Op::Wake(Waker::Epx(0)),
        Op::Wake(Waker::Epx(1)),
        Op::Modify(Reg::EpxControl, EP_INTERRUPT_PER_BUFF | EP_ENABLE, 0),
        Op::Modify(Reg::EpInBufferControl(0), BUF_AVAILABLE, 0),
    ]);
    assert_eq!(ops, expected);
    assert!(epx.is_idle());
    assert_eq!(epx.arbiter.last, 1);
    assert_eq!(epx.arbiter.error, 0);
    assert!(!epx.arbiter.switch_requested);
}

#[test]
fn releasing_after_completion_stops_nothing() {
    let (mut epx, c) = bulk();
    let ticket = WaitTicket::new(&mut epx, 0);
    let (mut guard, _) = c.acquire_epx(&mut epx, ticket);
    guard.arm(&mut epx);
    guard.disarm(&mut epx);
    let ops = guard.release(&mut epx, Chip::Rp235x);
    assert!(!ops.contains(&Op::Modify(Reg::SieCtrl, 0, SIE_STOP_TRANS)));
    assert!(epx.is_idle());
}

#[test]
fn releasing_leaves_another_holder_alone() {
    let (mut epx, c) = pipes(&[EndpointType::Bulk, EndpointType::Bulk]);
    let mut guard = EpxTransactionGuard::new(&c[0]);
    guard.arm(&mut epx);
    epx.current_channel = c[1].index;
    let before = epx;
    assert_eq!(guard.release(&mut epx, Chip::Rp2040), vec![]);
    assert_eq!(epx, before);
}

#[test]
fn stopping_waits_until_stopped() {
    let (_, c) = bulk();
    assert_eq!(
        c.stop_epx_transaction(),
        vec![
            Op::Modify(Reg::SieCtrl, 0, SIE_STOP_TRANS),
            Op::WaitClear(Reg::SieCtrl, SIE_STOP_TRANS),
        ]
    );
}
