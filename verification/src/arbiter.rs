//! Turn-taking on EPX, the shared non-interrupt endpoint.

use vstd::prelude::*;
use vstd::std_specs::convert::FromSpecImpl;
use crate::bits::{contains16, in16, insert16, lemma_zero16, remove16, set16};
use crate::layout::EPX_MAX_PIPES;
use crate::types::PipeError;

verus! {

/// Bits reserved per EPX pipe in [`EpxArbiter::error`].
pub const EPX_ERROR_BITS: usize = 4;

/// Mask of one pipe's error field.
pub const EPX_ERROR_MASK: u64 = 0xf;

/// Terminal errors the interrupt handler can record. The packed code zero means no error, so a
/// cleared field reads as "nothing recorded".
#[derive(Clone, Copy, PartialEq, Eq, Structural, Debug)]
pub enum EpxError {
    BadResponse,
    DataToggle,
}

impl EpxError {
    /// The packed code.
    pub open spec fn spec_code(self) -> u64 {
        match self {
            EpxError::BadResponse => 1,
            EpxError::DataToggle => 2,
        }
    }

    /// The packed code.
    #[verifier::when_used_as_spec(spec_code)]
    pub fn code(self) -> (code: u64)
        ensures
            code == self.code(),
    {
        match self {
            EpxError::BadResponse => 1,
            EpxError::DataToggle => 2,
        }
    }

    /// The error that a packed code stands for.
    pub open spec fn spec_from_code(code: u64) -> Option<Self> {
        if code == 1 {
            Some(EpxError::BadResponse)
        } else if code == 2 {
            Some(EpxError::DataToggle)
        } else {
            None
        }
    }

    /// The error that a packed code stands for.
    #[verifier::when_used_as_spec(spec_from_code)]
    pub fn from_code(code: u64) -> (error: Option<Self>)
        ensures
            error == Self::from_code(code),
    {
        match code {
            1 => Some(EpxError::BadResponse),
            2 => Some(EpxError::DataToggle),
            _ => None,
        }
    }
}

/// What the owner of the transfer is told.
pub open spec fn pipe_error(error: EpxError) -> PipeError {
    match error {
        EpxError::BadResponse => PipeError::BadResponse,
        EpxError::DataToggle => PipeError::DataToggleError,
    }
}

impl From<EpxError> for PipeError {
    fn from(error: EpxError) -> (r: Self) {
        match error {
            EpxError::BadResponse => PipeError::BadResponse,
            EpxError::DataToggle => PipeError::DataToggleError,
        }
    }
}

impl FromSpecImpl<EpxError> for PipeError {
    open spec fn obeys_from_spec() -> bool {
        true
    }

    open spec fn from_spec(error: EpxError) -> Self {
        pipe_error(error)
    }
}

/// Who is queued for EPX, and what the interrupt recorded for a transfer that was stopped.
#[derive(Clone, Copy, PartialEq, Eq, Structural, Debug)]
pub struct EpxArbiter {
    /// Slots whose transaction was stopped at a NAK boundary.
    pub yielded: u16,
    /// Slots queued for EPX.
    pub waiting: u16,
    /// Whether EPX has a transaction armed. Framing errors come from the shared RX engine, so
    /// they are only charged to EPX while it is mid-transaction.
    pub armed: bool,
    /// Slots whose packet landed as the transfer was being stopped. The stop suppresses the
    /// completion interrupt, so the completion is reported here.
    pub completed: u16,
    /// Terminal error per slot, [`EPX_ERROR_BITS`] wide.
    pub error: u64,
    /// Slot that last held EPX. The queue is served starting after it, so a pipe that just
    /// released goes to the back.
    pub last: usize,
    /// RP2040 only: set on the first SOF of a contended EPX transfer, so the second SOF with no
    /// completion in between can stop it.
    pub switch_requested: bool,
}

/// The packed error code of a slot.
pub open spec fn error_field(error: u64, slot: int) -> u64 {
    (error >> ((4 * slot) as u64)) & EPX_ERROR_MASK
}

/// How many steps after `last` the rotation reaches `slot`: one for the slot behind it, and a
/// full round for `last` itself.
pub open spec fn steps_after(last: int, slot: int) -> int {
    if slot > last {
        slot - last
    } else {
        slot + EPX_MAX_PIPES - last
    }
}

/// Whether `slot` is the first queued slot after `last`.
pub open spec fn is_turn(last: int, waiting: Set<int>, slot: int) -> bool {
    &&& waiting.contains(slot)
    &&& forall|other: int| #[trigger]
        waiting.contains(other) ==> steps_after(last, slot) <= steps_after(last, other)
}

proof fn lemma_store_field(error: u64, shift: u64, code: u64, other: u64)
    requires
        shift < 64,
        other < 64,
        shift % 4 == 0,
        other % 4 == 0,
        code < 16,
    ensures
        ({
            let stored = (error & !(0xfu64 << shift)) | (code << shift);
            (stored >> other) & 0xf == if shift == other {
                code
            } else {
                (error >> other) & 0xf
            }
        }),
{
    let stored = (error & !(0xfu64 << shift)) | (code << shift);
    assert(shift == other ==> (stored >> other) & 0xf == code) by (bit_vector)
        requires
            stored == (error & !(0xfu64 << shift)) | (code << shift),
            shift < 64,
            shift % 4 == 0,
            code < 16,
    ;
    assert(shift != other ==> (stored >> other) & 0xf == (error >> other) & 0xf) by (bit_vector)
        requires
            stored == (error & !(0xfu64 << shift)) | (code << shift),
            shift < 64,
            other < 64,
            shift % 4 == 0,
            other % 4 == 0,
            code < 16,
    ;
}

/// Replace one slot's error code.
fn store_error(error: u64, slot: usize, code: u64) -> (r: u64)
    requires
        slot < EPX_MAX_PIPES,
        code < 16,
    ensures
        forall|s: int|
            0 <= s < EPX_MAX_PIPES ==> #[trigger] error_field(r, s) == if s == slot {
                code
            } else {
                error_field(error, s)
            },
{
    let shift: usize = slot * EPX_ERROR_BITS;
    let r: u64 = (error & !(EPX_ERROR_MASK << shift)) | (code << shift);
    proof {
        assert forall|s: int| 0 <= s < EPX_MAX_PIPES implies #[trigger] error_field(r, s) == if s
            == slot {
            code
        } else {
            error_field(error, s)
        } by {
            lemma_store_field(error, shift as u64, code, (4 * s) as u64);
        }
    }
    r
}

impl EpxArbiter {
    /// The holder of the last turn is a slot.
    pub open spec fn wf(self) -> bool {
        self.last < EPX_MAX_PIPES
    }

    /// The error recorded for a slot.
    pub open spec fn error_of(self, slot: int) -> Option<EpxError> {
        EpxError::from_code(error_field(self.error, slot))
    }

    /// Whether the interrupt recorded anything for a slot.
    pub open spec fn has_outcome(self, slot: int) -> bool {
        ||| set16(self.completed).contains(slot)
        ||| set16(self.yielded).contains(slot)
        ||| self.error_of(slot) is Some
    }

    /// Nothing queued, held or recorded.
    pub open spec fn is_reset(self) -> bool {
        &&& set16(self.yielded) == Set::<int>::empty()
        &&& set16(self.waiting) == Set::<int>::empty()
        &&& !self.armed
        &&& set16(self.completed) == Set::<int>::empty()
        &&& forall|slot: int|
            0 <= slot < EPX_MAX_PIPES ==> #[trigger] error_field(self.error, slot) == 0
        &&& self.last == 0
        &&& !self.switch_requested
    }

    /// Arbitration state with nothing queued, held or recorded.
    pub fn new() -> (a: Self)
        ensures
            a.is_reset(),
            a.wf(),
    {
        proof {
            lemma_zero16(0);
            assert(forall|k: u64| #![trigger 0u64 >> k] (0u64 >> k) & 0xf == 0) by (bit_vector);
        }
        EpxArbiter {
            yielded: 0,
            waiting: 0,
            armed: false,
            completed: 0,
            error: 0,
            last: 0,
            switch_requested: false,
        }
    }

    /// Slot whose turn it is to take a free EPX: the first queued pipe after the one that last
    /// held it. `None` when nobody is queued.
    pub fn turn(&self) -> (r: Option<usize>)
        requires
            self.wf(),
        ensures
            r is None <==> set16(self.waiting) == Set::<int>::empty(),
            r matches Some(slot) ==> slot < EPX_MAX_PIPES && is_turn(
                self.last as int,
                set16(self.waiting),
                slot as int,
            ),
    {
        proof {
            lemma_zero16(self.waiting);
        }
        if self.waiting == 0 {
            return None;
        }
        let mut step: usize = 1;
        while step <= EPX_MAX_PIPES
            invariant
                self.wf(),
                1 <= step <= EPX_MAX_PIPES + 1,
                forall|other: int| #[trigger]
                    set16(self.waiting).contains(other) ==> step <= steps_after(
                        self.last as int,
                        other,
                    ),
            decreases EPX_MAX_PIPES + 1 - step,
        {
            let slot: usize = (self.last + step) % EPX_MAX_PIPES;
            assert(steps_after(self.last as int, slot as int) == step);
            if contains16(self.waiting, slot) {
                assert(set16(self.waiting) != Set::<int>::empty());
                return Some(slot);
            }
            assert forall|other: int| #[trigger] set16(self.waiting).contains(other) implies step
                + 1 <= steps_after(self.last as int, other) by {
                assert(in16(self.waiting, other));
                assert(other != slot);
            }
            step = step + 1;
        }
        proof {
            assert(set16(self.waiting) =~= Set::<int>::empty());
        }
        None
    }

    /// Queue a pipe for EPX, or take it out of the queue.
    pub fn set_waiting(&mut self, slot: usize, waiting: bool)
        requires
            slot < EPX_MAX_PIPES,
        ensures
            set16(final(self).waiting) == if waiting {
                set16(old(self).waiting).insert(slot as int)
            } else {
                set16(old(self).waiting).remove(slot as int)
            },
            *final(self) == (EpxArbiter { waiting: final(self).waiting, ..*old(self) }),
    {
        if waiting {
            self.waiting = insert16(self.waiting, slot);
        } else {
            self.waiting = remove16(self.waiting, slot);
        }
    }

    /// Record that a pipe's transaction was stopped short.
    pub fn mark_yielded(&mut self, slot: usize)
        requires
            slot < EPX_MAX_PIPES,
        ensures
            set16(final(self).yielded) == set16(old(self).yielded).insert(slot as int),
            *final(self) == (EpxArbiter { yielded: final(self).yielded, ..*old(self) }),
    {
        self.yielded = insert16(self.yielded, slot);
    }

    /// Clear a pipe's yield bit, returning whether it was set.
    pub fn take_yielded(&mut self, slot: usize) -> (was: bool)
        requires
            slot < EPX_MAX_PIPES,
        ensures
            was == set16(old(self).yielded).contains(slot as int),
            set16(final(self).yielded) == set16(old(self).yielded).remove(slot as int),
            *final(self) == (EpxArbiter { yielded: final(self).yielded, ..*old(self) }),
    {
        let was: bool = contains16(self.yielded, slot);
        self.yielded = remove16(self.yielded, slot);
        was
    }

    /// Record a completion the hardware could not signal because EPX was stopped.
    pub fn mark_completed(&mut self, slot: usize)
        requires
            slot < EPX_MAX_PIPES,
        ensures
            set16(final(self).completed) == set16(old(self).completed).insert(slot as int),
            *final(self) == (EpxArbiter { completed: final(self).completed, ..*old(self) }),
    {
        self.completed = insert16(self.completed, slot);
    }

    /// Clear a pipe's completion bit, returning whether it was set.
    pub fn take_completed(&mut self, slot: usize) -> (was: bool)
        requires
            slot < EPX_MAX_PIPES,
        ensures
            was == set16(old(self).completed).contains(slot as int),
            set16(final(self).completed) == set16(old(self).completed).remove(slot as int),
            *final(self) == (EpxArbiter { completed: final(self).completed, ..*old(self) }),
    {
        let was: bool = contains16(self.completed, slot);
        self.completed = remove16(self.completed, slot);
        was
    }

    /// Record a terminal error for a pipe, in place of an earlier one.
    pub fn mark_error(&mut self, slot: usize, error: EpxError)
        requires
            slot < EPX_MAX_PIPES,
        ensures
            final(self).error_of(slot as int) == Some(error),
            forall|s: int|
                0 <= s < EPX_MAX_PIPES && s != slot ==> #[trigger] error_field(final(self).error, s)
                    == error_field(old(self).error, s),
            *final(self) == (EpxArbiter { error: final(self).error, ..*old(self) }),
    {
        self.error = store_error(self.error, slot, error.code());
        assert(error_field(self.error, slot as int) == error.code());
    }

    /// Take any terminal error recorded for a pipe.
    pub fn take_error(&mut self, slot: usize) -> (r: Option<PipeError>)
        requires
            slot < EPX_MAX_PIPES,
        ensures
            old(self).error_of(slot as int) is None ==> r is None,
            old(self).error_of(slot as int) matches Some(error) ==> r == Some(pipe_error(error)),
            error_field(final(self).error, slot as int) == 0,
            forall|s: int|
                0 <= s < EPX_MAX_PIPES && s != slot ==> #[trigger] error_field(final(self).error, s)
                    == error_field(old(self).error, s),
            *final(self) == (EpxArbiter { error: final(self).error, ..*old(self) }),
    {
        let shift: usize = slot * EPX_ERROR_BITS;
        let code: u64 = (self.error >> shift) & EPX_ERROR_MASK;
        assert(code == error_field(self.error, slot as int));
        self.error = store_error(self.error, slot, 0);
        match EpxError::from_code(code) {
            Some(error) => Some(PipeError::from(error)),
            None => None,
        }
    }

    /// Void any outcome the interrupt recorded for a pipe's finished attempt.
    pub fn discard_outcome(&mut self, slot: usize)
        requires
            slot < EPX_MAX_PIPES,
        ensures
            !final(self).has_outcome(slot as int),
            error_field(final(self).error, slot as int) == 0,
            set16(final(self).completed) == set16(old(self).completed).remove(slot as int),
            set16(final(self).yielded) == set16(old(self).yielded).remove(slot as int),
            forall|s: int|
                0 <= s < EPX_MAX_PIPES && s != slot ==> #[trigger] error_field(final(self).error, s)
                    == error_field(old(self).error, s),
            *final(self) == (EpxArbiter {
                completed: final(self).completed,
                yielded: final(self).yielded,
                error: final(self).error,
                ..*old(self)
            }),
    {
        let _ = self.take_completed(slot);
        let _ = self.take_error(slot);
        let _ = self.take_yielded(slot);
    }
}

/// At most one queued slot has the turn.
pub proof fn turn_is_unique(last: int, waiting: Set<int>, a: int, b: int)
    requires
        0 <= last < EPX_MAX_PIPES,
        forall|s: int| #[trigger] waiting.contains(s) ==> 0 <= s < EPX_MAX_PIPES,
        is_turn(last, waiting, a),
        is_turn(last, waiting, b),
    ensures
        a == b,
{
}

/// While anybody is queued, somebody has the turn.
pub proof fn some_slot_has_the_turn(last: int, waiting: Set<int>)
    requires
        0 <= last < EPX_MAX_PIPES,
        forall|s: int| #[trigger] waiting.contains(s) ==> 0 <= s < EPX_MAX_PIPES,
        waiting != Set::<int>::empty(),
    ensures
        exists|slot: int| is_turn(last, waiting, slot),
{
    lemma_turn_from(last, waiting, 1);
}

proof fn lemma_turn_from(last: int, waiting: Set<int>, step: int)
    requires
        0 <= last < EPX_MAX_PIPES,
        forall|s: int| #[trigger] waiting.contains(s) ==> 0 <= s < EPX_MAX_PIPES,
        waiting != Set::<int>::empty(),
        1 <= step <= EPX_MAX_PIPES + 1,
        forall|s: int| #[trigger] waiting.contains(s) ==> step <= steps_after(last, s),
    ensures
        exists|slot: int| is_turn(last, waiting, slot),
    decreases EPX_MAX_PIPES + 1 - step,
{
    if step > EPX_MAX_PIPES {
        assert(waiting =~= Set::<int>::empty());
    } else {
        let slot = (last + step) % EPX_MAX_PIPES as int;
        if waiting.contains(slot) {
            assert(is_turn(last, waiting, slot));
        } else {
            lemma_turn_from(last, waiting, step + 1);
        }
    }
}

/// A queued slot that is passed over moves up: serving another slot leaves it strictly fewer
/// steps from its turn. So it is served within one round, whatever the other pipes do.
pub proof fn waiting_slot_moves_up(last: int, waiting: Set<int>, served: int, slot: int)
    requires
        0 <= last < EPX_MAX_PIPES,
        forall|s: int| #[trigger] waiting.contains(s) ==> 0 <= s < EPX_MAX_PIPES,
        is_turn(last, waiting, served),
        waiting.contains(slot),
        served != slot,
    ensures
        1 <= steps_after(served, slot) < steps_after(last, slot) <= EPX_MAX_PIPES,
{
}

/// A slot that stays queued is served within one round: at most fifteen turns in a row go to
/// others. `holders[k + 1]` is served after `holders[k]`, out of the queue `queues[k]`, which
/// may change freely from turn to turn.
pub proof fn waiting_slot_is_served(holders: Seq<int>, queues: Seq<Set<int>>, slot: int)
    requires
        holders.len() == queues.len() + 1,
        0 <= holders[0] < EPX_MAX_PIPES,
        forall|k: int, s: int|
            0 <= k < queues.len() && #[trigger] queues[k].contains(s) ==> 0 <= s < EPX_MAX_PIPES,
        forall|k: int|
            0 <= k < queues.len() ==> {
                &&& is_turn(holders[k], #[trigger] queues[k], holders[k + 1])
                &&& queues[k].contains(slot)
                &&& holders[k + 1] != slot
            },
    ensures
        queues.len() < EPX_MAX_PIPES,
{
    if queues.len() > 0 {
        lemma_steps_left(holders, queues, slot, queues.len() as int);
        assert(queues[0].contains(slot));
    }
}

proof fn lemma_steps_left(holders: Seq<int>, queues: Seq<Set<int>>, slot: int, n: int)
    requires
        holders.len() == queues.len() + 1,
        0 <= n <= queues.len(),
        0 <= holders[0] < EPX_MAX_PIPES,
        0 < queues.len(),
        forall|k: int, s: int|
            0 <= k < queues.len() && #[trigger] queues[k].contains(s) ==> 0 <= s < EPX_MAX_PIPES,
        forall|k: int|
            0 <= k < queues.len() ==> {
                &&& is_turn(holders[k], #[trigger] queues[k], holders[k + 1])
                &&& queues[k].contains(slot)
                &&& holders[k + 1] != slot
            },
    ensures
        0 <= holders[n] < EPX_MAX_PIPES,
        1 <= steps_after(holders[n], slot) <= steps_after(holders[0], slot) - n,
    decreases n,
{
    assert(queues[0].contains(slot));
    if n > 0 {
        lemma_steps_left(holders, queues, slot, n - 1);
        assert(is_turn(holders[n - 1], queues[n - 1], holders[n]));
        waiting_slot_moves_up(holders[n - 1], queues[n - 1], holders[n], slot);
        assert(queues[n - 1].contains(holders[n]));
    }
}

/// While a slot stays queued, no other is served twice before it. `holders` and `queues` are as in
/// [`waiting_slot_is_served`].
pub proof fn nobody_is_served_twice_before(
    holders: Seq<int>,
    queues: Seq<Set<int>>,
    slot: int,
    i: int,
    j: int,
)
    requires
        holders.len() == queues.len() + 1,
        0 <= holders[0] < EPX_MAX_PIPES,
        forall|k: int, s: int|
            0 <= k < queues.len() && #[trigger] queues[k].contains(s) ==> 0 <= s < EPX_MAX_PIPES,
        forall|k: int|
            0 <= k < queues.len() ==> {
                &&& is_turn(holders[k], #[trigger] queues[k], holders[k + 1])
                &&& queues[k].contains(slot)
                &&& holders[k + 1] != slot
            },
        0 <= i < j < holders.len(),
    ensures
        holders[i] != holders[j],
{
    lemma_steps_left(holders, queues, slot, i);
    let later = holders.skip(i);
    let their_queues = queues.skip(i);
    assert forall|k: int| 0 <= k < their_queues.len() implies {
        &&& is_turn(later[k], #[trigger] their_queues[k], later[k + 1])
        &&& their_queues[k].contains(slot)
        &&& later[k + 1] != slot
    } by {
        assert(their_queues[k] == queues[i + k]);
    }
    assert forall|k: int, s: int|
        0 <= k < their_queues.len() && #[trigger] their_queues[k].contains(s) implies 0 <= s
        < EPX_MAX_PIPES by {
        assert(queues[i + k].contains(s));
    }
    lemma_steps_left(later, their_queues, slot, j - i);
}

/// The pipe that just held EPX is served last of all that are queued.
pub proof fn releaser_goes_to_the_back(last: int, waiting: Set<int>, served: int)
    requires
        0 <= last < EPX_MAX_PIPES,
        forall|s: int| #[trigger] waiting.contains(s) ==> 0 <= s < EPX_MAX_PIPES,
        is_turn(last, waiting, served),
        served == last,
    ensures
        waiting == set![last],
{
    assert forall|s: int| waiting.contains(s) implies s == last by {
        assert(steps_after(last, last) <= steps_after(last, s));
    }
    assert(waiting =~= set![last]);
}

} // verus!
