use rp_usb_host::channel::Channel;
use rp_usb_host::host::{Allocator, HostState};
use rp_usb_host::interrupt_transfer::{
    InterruptPhase, InterruptRead, InterruptReadNext, InterruptStep, InterruptWrite,
};
use rp_usb_host::regs::{Op, Reg, BUF_AVAILABLE, BUF_FULL};
use rp_usb_host::types::{EndpointInfo, EndpointType, PipeDirection, PipeError};

fn pipe(dir: PipeDirection) -> (HostState, Channel) {
    let mut state = HostState::new();
    let endpoint = EndpointInfo {
        addr: 1,
        ep_type: EndpointType::Interrupt,
        max_packet_size: 8,
        interval_ms: 1,
    };
    let channel = Allocator {}.alloc_pipe(&mut state, 1, &endpoint, dir, None).unwrap();
    (state, channel)
}

#[test]
fn interrupt_read_from_idle() {
    let (mut state, mut c) = pipe(PipeDirection::In);
    let pipes = &mut state.interrupt_pipes;
    let (mut guard, ops) = c.begin_interrupt_transfer(pipes);
    assert_eq!(ops, c.configure_interrupt());
    assert!(guard.active);

    let (next, ops) = c.interrupt_in_read(pipes, 0);
    assert_eq!(next, InterruptReadNext::Wait);
    assert_eq!(ops[ops.len() - 1], Op::Modify(Reg::IntEpCtrl, 0, 0b10));
    assert_eq!(pipes.armed_in, 2);

    pipes.mark_completed(1);
    let (result, ops) = c.collect_interrupt_packet(pipes, &mut guard, BUF_FULL | 5, 8);
    assert_eq!(result, Ok(5));
    assert_eq!(ops[0], Op::CopyIn { addr: 0x180, at: 0, len: 5 });
    let reload = c.interrupt_reload(pipes);
    assert_eq!(ops[1..], reload[..]);
    assert!(c.pid);
    assert!(!guard.active);
    assert_eq!(pipes.armed_in, 2);
}

#[test]
fn waiting_packet_is_not_discarded() {
    let (mut state, c) = pipe(PipeDirection::In);
    let before = state.interrupt_pipes;
    assert_eq!(
        c.interrupt_in_read(&mut state.interrupt_pipes, BUF_FULL | 3),
        (InterruptReadNext::Collect, vec![])
    );
    assert_eq!(
        c.interrupt_in_read(&mut state.interrupt_pipes, BUF_AVAILABLE | 8),
        (InterruptReadNext::Wait, vec![])
    );
    assert_eq!(state.interrupt_pipes, before);
}

#[test]
fn interrupt_packet_too_large_is_left_to_the_guard() {
    let (mut state, mut c) = pipe(PipeDirection::In);
    let pipes = &mut state.interrupt_pipes;
    let (mut guard, _) = c.begin_interrupt_transfer(pipes);
    assert_eq!(
        c.collect_interrupt_packet(pipes, &mut guard, BUF_FULL | 8, 7),
        (Err(PipeError::BufferOverflow), vec![])
    );
    assert!(guard.active);
    assert!(!c.pid);
    // The device has moved on, so the next transfer starts with the other toggle.
    let _ = guard.settle(pipes, BUF_FULL | 8);
    let _ = c.begin_interrupt_transfer(pipes);
    assert!(c.pid);
    assert_eq!(pipes.toggle_owed, 0);
}

/// Runs a read against buffer control words as they are read, one per look.
fn run_read(
    state: &mut HostState,
    c: &mut Channel,
    capacity: usize,
    words: &[u32],
) -> (InterruptRead, Vec<InterruptStep>, Vec<Op>) {
    let mut read = InterruptRead::new(c, capacity);
    let mut steps = Vec::new();
    let mut all = Vec::new();
    for &word in words {
        let (step, ops) = read.step(c, &mut state.interrupt_pipes, word);
        steps.push(step);
        all.extend(ops);
    }
    (read, steps, all)
}

const LOOK: Op = Op::Clear(Reg::BuffStatus, 0b1100);

#[test]
fn read_arms_an_idle_endpoint_and_waits() {
    let (mut state, mut c) = pipe(PipeDirection::In);
    let reload = c.interrupt_reload(&mut state.interrupt_pipes.clone());
    let words = [0, 0, BUF_AVAILABLE, BUF_FULL | 3, BUF_FULL | 3];
    let (read, steps, ops) = run_read(&mut state, &mut c, 8, &words);
    assert_eq!(
        steps,
        vec![
            InterruptStep::Continue,
            InterruptStep::Continue,
            InterruptStep::Wait,
            InterruptStep::Continue,
            InterruptStep::Done(Ok(3)),
        ]
    );
    let mut expected = vec![LOOK];
    expected.extend(c.configure_interrupt());
    expected.extend(reload);
    expected.extend([LOOK, LOOK, Op::CopyIn { addr: 0x180, at: 0, len: 3 }]);
    expected.extend(c.interrupt_reload(&mut state.interrupt_pipes.clone()));
    assert_eq!(ops, expected);
    assert_eq!(read.phase, InterruptPhase::Over);
    assert!(!read.guard.active);
    assert!(c.pid);
    assert_eq!(state.interrupt_pipes.armed_in, 2);
}

#[test]
fn read_takes_a_packet_that_is_already_there() {
    let (mut state, mut c) = pipe(PipeDirection::In);
    let words = [BUF_FULL | 8, BUF_FULL | 8, BUF_FULL | 8];
    let (_, steps, _) = run_read(&mut state, &mut c, 8, &words);
    assert_eq!(steps[2], InterruptStep::Done(Ok(8)));
}

#[test]
fn read_waits_for_an_armed_buffer_before_it_begins() {
    let (mut state, mut c) = pipe(PipeDirection::In);
    let (read, steps, ops) = run_read(&mut state, &mut c, 8, &[BUF_AVAILABLE]);
    assert_eq!(steps, vec![InterruptStep::Wait]);
    assert_eq!(ops, vec![LOOK]);
    assert_eq!(read.phase, InterruptPhase::Opening);
    assert!(!read.guard.active);
}

#[test]
fn read_times_out() {
    for looks in [vec![], vec![0, 0]] {
        let (mut state, mut c) = pipe(PipeDirection::In);
        let (mut read, _, _) = run_read(&mut state, &mut c, 8, &looks);
        state.interrupt_pipes.mark_armed_in(1);
        let _ = state.interrupt_pipes.record_timeout();
        let (step, _) = read.step(&mut c, &mut state.interrupt_pipes, BUF_AVAILABLE);
        assert_eq!(step, InterruptStep::Done(Err(PipeError::Timeout)));
        // Only a transfer that had begun has something to stop.
        assert_eq!(read.guard.active, !looks.is_empty());
        assert!(!c.pid);
    }
}

#[test]
fn read_overflows() {
    let (mut state, mut c) = pipe(PipeDirection::In);
    let words = [BUF_FULL | 8, BUF_FULL | 8, BUF_FULL | 8];
    let (read, steps, _) = run_read(&mut state, &mut c, 7, &words);
    assert_eq!(steps[2], InterruptStep::Done(Err(PipeError::BufferOverflow)));
    assert!(read.guard.active);
}

#[test]
fn write_sends_one_packet_per_poll() {
    let (mut state, mut c) = pipe(PipeDirection::Out);
    let pipes = &mut state.interrupt_pipes;
    let mut write = InterruptWrite::new(&c, 16, true);

    let mut expected = vec![LOOK];
    expected.extend(c.configure_interrupt());
    expected.extend(c.interrupt_send(0, 16).1);
    assert_eq!(write.step(&mut c, pipes, 0), (InterruptStep::Continue, expected));
    assert_eq!(
        write.step(&mut c, pipes, BUF_AVAILABLE | BUF_FULL),
        (InterruptStep::Wait, vec![LOOK])
    );

    for from in [8, 16] {
        let (step, ops) = write.step(&mut c, pipes, 0);
        assert_eq!(step, InterruptStep::Continue);
        assert_eq!(ops[1..], c.interrupt_send(from, 16).1[..]);
        assert!(write.guard.active);
    }
    assert_eq!(write.step(&mut c, pipes, 0), (InterruptStep::Done(Ok(16)), vec![LOOK]));
    assert!(!write.guard.active);
    assert!(c.pid);
}

#[test]
fn empty_write_sends_one_empty_packet() {
    let (mut state, mut c) = pipe(PipeDirection::Out);
    let pipes = &mut state.interrupt_pipes;
    let mut write = InterruptWrite::new(&c, 0, false);
    assert_eq!(write.step(&mut c, pipes, 0).0, InterruptStep::Continue);
    assert_eq!(write.step(&mut c, pipes, 0).0, InterruptStep::Done(Ok(0)));
}

#[test]
fn write_times_out() {
    let (mut state, mut c) = pipe(PipeDirection::Out);
    let pipes = &mut state.interrupt_pipes;
    let mut write = InterruptWrite::new(&c, 4, false);
    let _ = write.step(&mut c, pipes, 0);
    pipes.timed_out = 2;
    assert_eq!(
        write.step(&mut c, pipes, 0).0,
        InterruptStep::Done(Err(PipeError::Timeout))
    );
    assert!(write.guard.active);
}
