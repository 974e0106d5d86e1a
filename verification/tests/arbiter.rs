use rp_usb_host::arbiter::{EpxArbiter, EpxError};
use rp_usb_host::types::PipeError;

fn queued(last: usize, slots: &[usize]) -> EpxArbiter {
    let mut a = EpxArbiter::new();
    a.last = last;
    for &slot in slots {
        a.set_waiting(slot, true);
    }
    a
}

#[test]
fn nobody_queued_means_no_turn() {
    assert_eq!(EpxArbiter::new().turn(), None);
}

#[test]
fn turn_is_first_queued_after_last() {
    assert_eq!(queued(0, &[0, 3, 9]).turn(), Some(3));
    assert_eq!(queued(3, &[0, 3, 9]).turn(), Some(9));
    assert_eq!(queued(9, &[0, 3, 9]).turn(), Some(0));
    assert_eq!(queued(15, &[15]).turn(), Some(15));
    assert_eq!(queued(15, &[14, 15]).turn(), Some(14));
    assert_eq!(queued(7, &[7]).turn(), Some(7));
}

#[test]
fn turn_matches_a_walk_over_the_rotation() {
    for last in 0..16usize {
        for waiting in (0..=u16::MAX).step_by(37) {
            let mut a = EpxArbiter::new();
            a.last = last;
            a.waiting = waiting;
            let walk = (1..=16usize)
                .map(|step| (last + step) % 16)
                .find(|slot| waiting & (1 << slot) != 0);
            assert_eq!(a.turn(), walk);
        }
    }
}

#[test]
fn releaser_is_served_last() {
    let mut a = queued(4, &[2, 4, 11]);
    let mut order = Vec::new();
    while let Some(slot) = a.turn() {
        order.push(slot);
        a.set_waiting(slot, false);
        a.last = slot;
    }
    assert_eq!(order, vec![11, 2, 4]);
}

#[test]
fn queued_slot_is_served_within_a_round() {
    // Every other slot queues again at once.
    let mut a = queued(0, &(0..16).collect::<Vec<usize>>());
    let mut turns = 0;
    let mut served = Vec::new();
    loop {
        let slot = a.turn().unwrap();
        assert!(!served.contains(&slot));
        served.push(slot);
        a.last = slot;
        if slot == 0 {
            break;
        }
        turns += 1;
    }
    assert_eq!(turns, 15);
}

#[test]
fn leaving_the_queue() {
    let mut a = queued(0, &[5, 6]);
    a.set_waiting(5, false);
    assert_eq!(a.turn(), Some(6));
    assert_eq!(a.waiting, 1 << 6);
}

#[test]
fn yields_and_completions_are_taken_once() {
    let mut a = EpxArbiter::new();
    a.mark_yielded(3);
    a.mark_completed(12);
    assert!(!a.take_yielded(12));
    assert!(a.take_yielded(3));
    assert!(!a.take_yielded(3));
    assert!(!a.take_completed(3));
    assert!(a.take_completed(12));
    assert!(!a.take_completed(12));
}

#[test]
fn errors_are_kept_per_slot() {
    let mut a = EpxArbiter::new();
    a.mark_error(0, EpxError::BadResponse);
    a.mark_error(15, EpxError::DataToggle);
    a.mark_error(7, EpxError::DataToggle);
    a.mark_error(7, EpxError::BadResponse);
    assert_eq!(a.error, 1 | (1 << 28) | (2 << 60));
    assert_eq!(a.take_error(1), None);
    assert_eq!(a.take_error(15), Some(PipeError::DataToggleError));
    assert_eq!(a.take_error(15), None);
    assert_eq!(a.take_error(7), Some(PipeError::BadResponse));
    assert_eq!(a.take_error(0), Some(PipeError::BadResponse));
    assert_eq!(a.error, 0);
}

#[test]
fn discarding_voids_one_slot_only() {
    let mut a = EpxArbiter::new();
    for slot in [2, 5] {
        a.mark_error(slot, EpxError::BadResponse);
        a.mark_completed(slot);
        a.mark_yielded(slot);
        a.set_waiting(slot, true);
    }
    a.discard_outcome(2);
    assert_eq!(a.take_error(2), None);
    assert!(!a.take_completed(2));
    assert!(!a.take_yielded(2));
    assert_eq!(a.waiting, (1 << 2) | (1 << 5));
    assert_eq!(a.take_error(5), Some(PipeError::BadResponse));
    assert!(a.take_completed(5));
    assert!(a.take_yielded(5));
}

#[test]
fn error_codes() {
    assert_eq!(EpxError::from_code(0), None);
    assert_eq!(EpxError::from_code(1), Some(EpxError::BadResponse));
    assert_eq!(EpxError::from_code(2), Some(EpxError::DataToggle));
    assert_eq!(EpxError::from_code(3), None);
    assert_eq!(EpxError::BadResponse.code(), 1);
    assert_eq!(EpxError::DataToggle.code(), 2);
    assert_eq!(PipeError::from(EpxError::BadResponse), PipeError::BadResponse);
    assert_eq!(PipeError::from(EpxError::DataToggle), PipeError::DataToggleError);
}
