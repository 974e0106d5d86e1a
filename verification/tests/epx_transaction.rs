use rp_usb_host::channel::Channel;
use rp_usb_host::epx::{arm_epx_yield, EpxState};
use rp_usb_host::epx_transaction::{EpxTransaction, Phase, Request};
use rp_usb_host::host::{Allocator, HostState};
use rp_usb_host::irq::InterruptHandler;
use rp_usb_host::regs::{
    Op, Reg, Waker, BUF_AVAILABLE, BUF_FULL, INT_EPX_STOPPED_ON_NAK, SIE_RECEIVE_DATA,
    SIE_SEND_SETUP, SIE_START_TRANS, SIE_STOP_TRANS, STATUS_STALL_REC, STATUS_TRANS_COMPLETE,
};
use rp_usb_host::transaction::TransactionNext;
use rp_usb_host::types::{Chip, EndpointInfo, EndpointType, PipeDirection, PipeError};

const CHIP: Chip = Chip::Rp235x;
const IN: Request = Request::DataIn { len: 64, pid: false };
const START: Op = Op::Modify(Reg::SieCtrl, 0, SIE_START_TRANS);
const STOP: Op = Op::Modify(Reg::SieCtrl, 0, SIE_STOP_TRANS);

fn pipes(types: &[EndpointType]) -> (HostState, Vec<Channel>) {
    let mut state = HostState::new();
    let channels = types
        .iter()
        .map(|&ep_type| {
            let endpoint = EndpointInfo { addr: 1, ep_type, max_packet_size: 64, interval_ms: 0 };
            Allocator {}
                .alloc_pipe(&mut state, 1, &endpoint, PipeDirection::InOut, None)
                .unwrap()
        })
        .collect();
    (state, channels)
}

fn running(channel: &mut Channel, epx: &mut EpxState, request: &Request) -> EpxTransaction {
    let mut t = EpxTransaction::new(channel);
    t.enqueue(channel, epx);
    assert!(t.poll_queue(channel, epx, CHIP).0);
    let (started, ops) = t.poll_buffer(channel, epx, request, 0);
    assert!(started);
    assert_eq!(ops[0], Op::Clear(Reg::BuffStatus, 0b11));
    assert_eq!(ops[ops.len() - 1], START);
    assert_eq!(t.phase, Phase::Running);
    t
}

#[test]
fn requests_are_armed() {
    let (_, c) = pipes(&[EndpointType::Control]);
    let setup = [0x80, 6, 0, 1, 0, 0, 18, 0];
    let armed = |request: Request| {
        let mut channel = c[0];
        let ops = request.arm(&mut channel);
        (ops, channel.pid)
    };
    assert_eq!(armed(Request::Setup(setup)), (c[0].clone().set_setup_packet(&setup), true));
    assert_eq!(armed(IN), (c[0].set_data_in(64, false), false));
    assert_eq!(
        armed(Request::DataOut { from: 3, total: 9, pid: true }),
        (c[0].set_data_out(3, 9, true).1, false)
    );
}

#[test]
fn uncontended_transaction_completes() {
    let (mut state, mut c) = pipes(&[EndpointType::Bulk]);
    let epx = &mut state.epx;
    let before = *epx;
    let mut t = running(&mut c[0], epx, &IN);
    assert_eq!(epx.current_channel, c[0].index);
    assert!(epx.arbiter.armed);

    assert_eq!(t.poll_transaction(&c[0], epx, CHIP, 0), (None, vec![]));
    let (next, ops) = t.poll_transaction(&c[0], epx, CHIP, STATUS_TRANS_COMPLETE);
    assert_eq!(next, Some(TransactionNext::Return(Ok(()))));
    assert_eq!(ops[0], Op::Clear(Reg::SieStatus, STATUS_TRANS_COMPLETE));
    assert!(!ops.contains(&STOP));
    assert_eq!(t.phase, Phase::Idle);
    assert_eq!(*epx, before);
}

#[test]
fn buffer_still_busy_keeps_the_pipe_queued() {
    let (mut state, mut c) = pipes(&[EndpointType::Bulk]);
    let epx = &mut state.epx;
    let mut t = EpxTransaction::new(&c[0]);
    t.enqueue(&c[0], epx);
    let _ = t.poll_queue(&c[0], epx, CHIP);
    let (started, ops) = t.poll_buffer(&mut c[0], epx, &IN, BUF_AVAILABLE);
    assert!(!started);
    assert_eq!(ops, vec![Op::Clear(Reg::BuffStatus, 0b11)]);
    assert_eq!(t.phase, Phase::Settling);
    assert_eq!(epx.arbiter.waiting, 1);
}

#[test]
fn stall_stops_the_transaction() {
    let (mut state, mut c) = pipes(&[EndpointType::Bulk]);
    let epx = &mut state.epx;
    let mut t = running(&mut c[0], epx, &IN);
    let (next, ops) = t.poll_transaction(&c[0], epx, CHIP, STATUS_STALL_REC);
    assert_eq!(next, Some(TransactionNext::Return(Err(PipeError::Stall))));
    assert!(ops.contains(&STOP));
    assert!(epx.is_idle());
}

#[test]
fn two_pipes_take_turns() {
    let (mut state, mut c) = pipes(&[EndpointType::Bulk, EndpointType::Bulk]);
    let mut first = running(&mut c[0], &mut state.epx, &IN);

    // The second pipe queues and asks for a yield.
    let mut second = EpxTransaction::new(&c[1]);
    second.enqueue(&c[1], &mut state.epx);
    assert_eq!(
        second.poll_queue(&c[1], &mut state.epx, CHIP),
        (false, arm_epx_yield(CHIP))
    );

    // The controller stops the first at a NAK.
    let ints = INT_EPX_STOPPED_ON_NAK;
    let (_, _) = InterruptHandler::on_interrupt(&mut state, CHIP, ints, ints);
    let (yielded, ops) =
        InterruptHandler::on_epx_stopped(&mut state, c[0].index, BUF_AVAILABLE, SIE_RECEIVE_DATA);
    assert!(yielded);
    assert!(ops.contains(&Op::Wake(Waker::Epx(1))));
    assert_eq!(state.epx.current_channel, 0);

    // The first learns of it, and tries again behind the second.
    let (next, _) = first.poll_transaction(&c[0], &mut state.epx, CHIP, 0);
    assert_eq!(next, Some(TransactionNext::Retry));
    first.enqueue(&c[0], &mut state.epx);
    assert!(!first.poll_queue(&c[0], &mut state.epx, CHIP).0);
    assert!(second.poll_queue(&c[1], &mut state.epx, CHIP).0);
    assert!(second.poll_buffer(&mut c[1], &mut state.epx, &IN, 0).0);
    assert_eq!(state.epx.current_channel, c[1].index);

    // The second completes, and the first has its turn.
    let (next, _) = second.poll_transaction(&c[1], &mut state.epx, CHIP, STATUS_TRANS_COMPLETE);
    assert_eq!(next, Some(TransactionNext::Return(Ok(()))));
    assert!(first.poll_queue(&c[0], &mut state.epx, CHIP).0);
}

#[test]
fn isochronous_transaction_is_not_replayed() {
    let (mut state, mut c) = pipes(&[EndpointType::Isochronous]);
    let mut t = running(&mut c[0], &mut state.epx, &IN);
    let _ = InterruptHandler::on_epx_stopped(&mut state, c[0].index, 0, 0);
    let (next, _) = t.poll_transaction(&c[0], &mut state.epx, CHIP, 0);
    assert_eq!(next, Some(TransactionNext::Return(Err(PipeError::Canceled))));
}

#[test]
fn packet_that_landed_during_a_stop_is_kept() {
    let (mut state, mut c) = pipes(&[EndpointType::Bulk]);
    let mut t = running(&mut c[0], &mut state.epx, &IN);
    let (yielded, _) = InterruptHandler::on_epx_stopped(&mut state, c[0].index, BUF_FULL, 0);
    assert!(!yielded);
    assert_eq!(state.epx.current_channel, c[0].index);
    let (next, _) = t.poll_transaction(&c[0], &mut state.epx, CHIP, 0);
    assert_eq!(next, Some(TransactionNext::Return(Ok(()))));
}

#[test]
fn deadline_passes() {
    let (mut state, mut c) = pipes(&[EndpointType::Control]);
    let epx = &mut state.epx;
    let before = *epx;
    assert_eq!(EpxTransaction::new(&c[0]).budget_us(&c[0]), None);
    c[0].start_control_timeout(true);
    let mut t = running(&mut c[0], epx, &IN);
    assert_eq!(t.budget_us(&c[0]), Some(500_000));
    assert_eq!(t.stop(&c[0]), vec![STOP, Op::WaitClear(Reg::SieCtrl, SIE_STOP_TRANS)]);
    let (next, ops) = t.finish_timed_out(&c[0], epx, CHIP, SIE_RECEIVE_DATA, 0, BUF_AVAILABLE, 0);
    assert_eq!(next, TransactionNext::Return(Err(PipeError::Timeout)));
    assert!(!ops.contains(&STOP));
    assert_eq!(*epx, before);
    assert_eq!(t.phase, Phase::Idle);
}

#[test]
fn deadline_meets_a_completed_setup() {
    let (mut state, mut c) = pipes(&[EndpointType::Control]);
    let epx = &mut state.epx;
    c[0].start_control_timeout(false);
    let mut t = running(&mut c[0], epx, &Request::Setup([0; 8]));
    assert!(c[0].pid);
    let (next, _) = t.finish_timed_out(&c[0], epx, CHIP, SIE_SEND_SETUP, STATUS_TRANS_COMPLETE, 0, 0);
    assert_eq!(next, TransactionNext::Return(Ok(())));
    assert!(epx.is_idle());
}

#[test]
fn cancelling_at_every_point() {
    let (mut state, mut c) = pipes(&[EndpointType::Bulk]);
    let epx = &mut state.epx;
    let before = *epx;

    let mut t = EpxTransaction::new(&c[0]);
    assert_eq!(t.cancel(&c[0], epx, CHIP), vec![]);
    assert_eq!(*epx, before);

    t.enqueue(&c[0], epx);
    assert_eq!(t.cancel(&c[0], epx, CHIP), vec![]);
    assert_eq!(*epx, before);

    t.enqueue(&c[0], epx);
    let _ = t.poll_queue(&c[0], epx, CHIP);
    assert_eq!(t.cancel(&c[0], epx, CHIP), vec![]);
    assert_eq!(*epx, before);

    let mut t = running(&mut c[0], epx, &IN);
    let ops = t.cancel(&c[0], epx, CHIP);
    assert_eq!(ops[0], STOP);
    assert_eq!(*epx, before);
    assert_eq!(t.phase, Phase::Idle);
}

#[test]
fn cancelled_waiter_does_not_stall_the_rotation() {
    let (mut state, mut c) = pipes(&[EndpointType::Bulk; 3]);
    let epx = &mut state.epx;
    let mut waiters: Vec<EpxTransaction> = c.iter().map(EpxTransaction::new).collect();
    for (t, channel) in waiters.iter_mut().zip(&c) {
        t.enqueue(channel, epx);
    }
    assert!(waiters[1].poll_queue(&c[1], epx, CHIP).0);
    let _ = waiters[1].cancel(&c[1], epx, CHIP);
    assert!(waiters[2].poll_queue(&c[2], epx, CHIP).0);
}

#[test]
fn pipe_that_loses_its_turn_queues_again() {
    let (mut state, mut c) = pipes(&[EndpointType::Bulk; 6]);
    let epx = &mut state.epx;
    let mut far = EpxTransaction::new(&c[5]);
    far.enqueue(&c[5], epx);
    assert!(far.poll_queue(&c[5], epx, CHIP).0);

    // A pipe nearer in the rotation joins while the first waits for the buffer.
    let mut near = EpxTransaction::new(&c[3]);
    near.enqueue(&c[3], epx);
    assert!(near.poll_queue(&c[3], epx, CHIP).0);
    assert!(near.poll_buffer(&mut c[3], epx, &IN, 0).0);
    assert_eq!(epx.current_channel, c[3].index);

    let before = *epx;
    assert_eq!(far.poll_buffer(&mut c[5], epx, &IN, 0), (false, vec![]));
    assert_eq!(*epx, before);
    assert_eq!(far.phase, Phase::Queued);
    assert_eq!(far.poll_queue(&c[5], epx, CHIP), (false, arm_epx_yield(CHIP)));

    // Once EPX is let go, it has its turn.
    let _ = near.poll_transaction(&c[3], epx, CHIP, STATUS_TRANS_COMPLETE);
    assert!(far.poll_queue(&c[5], epx, CHIP).0);
    assert!(far.poll_buffer(&mut c[5], epx, &IN, 0).0);
    assert_eq!(epx.current_channel, c[5].index);
}

#[test]
fn turn_is_lost_while_epx_is_free() {
    let (mut state, mut c) = pipes(&[EndpointType::Bulk; 6]);
    let epx = &mut state.epx;
    let mut far = EpxTransaction::new(&c[5]);
    far.enqueue(&c[5], epx);
    assert!(far.poll_queue(&c[5], epx, CHIP).0);
    let mut near = EpxTransaction::new(&c[3]);
    near.enqueue(&c[3], epx);
    assert!(!far.poll_buffer(&mut c[5], epx, &IN, 0).0);
    assert_eq!(epx.current_channel, 0);
    assert_eq!(far.phase, Phase::Queued);
}
