//! The speed ladder: the frame delays a viewer can choose from, walked up
//! and down one step at a time, round and round.

use vstd::prelude::*;
use crate::app::INITIAL_DELAY_MS;

verus! {

/// Where the cursor of the standard ladder starts.
pub const STANDARD_START: usize = 9;

/// The delays of the standard ladder, in milliseconds.
pub open spec fn standard_delays() -> Seq<u64> {
    seq![0u64, 1, 2, 4, 8, 10, 15, 20, 25, 30, 40, 50, 80, 100, 1000]
}

/// Why a ladder could not be made.
#[derive(Clone, Copy, Debug, PartialEq, Eq, Structural)]
pub enum LadderError {
    /// The ladder would have no delay to offer.
    Empty,
    /// The starting position is not one of the ladder's.
    StartOutOfRange,
}

/// The position one step up from `cursor` on a ladder of `len` delays; the
/// step up from the last position leads to the first.
pub open spec fn step_up(len: int, cursor: int) -> int {
    if cursor + 1 == len {
        0
    } else {
        cursor + 1
    }
}

/// The position one step down from `cursor` on a ladder of `len` delays;
/// the step down from the first position leads to the last.
pub open spec fn step_down(len: int, cursor: int) -> int {
    if cursor == 0 {
        len - 1
    } else {
        cursor - 1
    }
}

/// The position reached from `cursor` by `n` steps up.
pub open spec fn climb(len: int, cursor: int, n: nat) -> int
    decreases n,
{
    if n == 0 {
        cursor
    } else {
        step_up(len, climb(len, cursor, (n - 1) as nat))
    }
}

/// The position reached from `cursor` by `n` steps down.
pub open spec fn descend(len: int, cursor: int, n: nat) -> int
    decreases n,
{
    if n == 0 {
        cursor
    } else {
        step_down(len, descend(len, cursor, (n - 1) as nat))
    }
}

/// A step up is a step forward on a circle of `len` positions, and a step
/// down a step back.
pub proof fn lemma_steps_are_modular(len: int, cursor: int)
    requires
        0 <= cursor < len,
    ensures
        step_up(len, cursor) == (cursor + 1) % len,
        step_down(len, cursor) == (cursor + len - 1) % len,
        0 <= step_up(len, cursor) < len,
        0 <= step_down(len, cursor) < len,
{
    if cursor + 1 == len {
        assert((cursor + 1) % len == 0) by (nonlinear_arith)
            requires
                cursor + 1 == len,
                len > 0,
        ;
    } else {
        assert((cursor + 1) % len == cursor + 1) by (nonlinear_arith)
            requires
                0 <= cursor + 1 < len,
        ;
    }
    if cursor == 0 {
        assert((cursor + len - 1) % len == len - 1) by (nonlinear_arith)
            requires
                cursor == 0,
                len > 0,
        ;
    } else {
        assert((cursor + len - 1) % len == cursor - 1) by (nonlinear_arith)
            requires
                0 < cursor < len,
        ;
    }
}

/// A step down undoes a step up, and a step up a step down.
pub proof fn lemma_up_and_down_cancel(len: int, cursor: int)
    requires
        0 <= cursor < len,
    ensures
        step_down(len, step_up(len, cursor)) == cursor,
        step_up(len, step_down(len, cursor)) == cursor,
{
}

/// Where `n` steps lead: `n` places forward, or back, on the circle.
pub proof fn lemma_many_steps(len: int, cursor: int, n: nat)
    requires
        0 <= cursor < len,
    ensures
        climb(len, cursor, n) == (cursor + n) % len,
        descend(len, cursor, n) == (cursor - n) % len,
        0 <= climb(len, cursor, n) < len,
        0 <= descend(len, cursor, n) < len,
    decreases n,
{
    if n == 0 {
        assert(cursor % len == cursor) by (nonlinear_arith)
            requires
                0 <= cursor < len,
        ;
    } else {
        let m = (n - 1) as nat;
        lemma_many_steps(len, cursor, m);
        let up = climb(len, cursor, m);
        let down = descend(len, cursor, m);
        lemma_steps_are_modular(len, up);
        lemma_steps_are_modular(len, down);
        assert(((cursor + m) % len + 1) % len == (cursor + m + 1) % len) by (nonlinear_arith)
            requires
                len > 0,
        ;
        assert(((cursor - m) % len + len - 1) % len == (cursor - m - 1) % len)
            by (nonlinear_arith)
            requires
                len > 0,
        ;
    }
}

/// Once round the ladder and back where it began: as many steps up as the
/// ladder has delays lead to the position, and so to the delay, that they
/// started from, and so do as many steps down.
pub proof fn lemma_full_cycle(delays: Seq<u64>, cursor: int)
    requires
        0 <= cursor < delays.len(),
    ensures
        climb(delays.len() as int, cursor, delays.len()) == cursor,
        descend(delays.len() as int, cursor, delays.len()) == cursor,
        delays[climb(delays.len() as int, cursor, delays.len())] == delays[cursor],
        delays[descend(delays.len() as int, cursor, delays.len())] == delays[cursor],
{
    let len = delays.len() as int;
    lemma_many_steps(len, cursor, len as nat);
    assert((cursor + len) % len == cursor) by (nonlinear_arith)
        requires
            0 <= cursor < len,
    ;
    assert((cursor - len) % len == cursor) by (nonlinear_arith)
        requires
            0 <= cursor < len,
    ;
}

/// A ladder of frame delays, in milliseconds, with a cursor on one of them.
#[derive(Debug)]
pub struct TimeoutIter {
    index: usize,
    vec: Vec<u64>,
    l: usize,
}

impl TimeoutIter {
    #[verifier::type_invariant]
    spec fn well_formed(&self) -> bool {
        &&& self.vec.len() > 0
        &&& self.l == self.vec.len() - 1
        &&& self.index <= self.l
    }

    /// The delays of the ladder, bottom to top.
    pub closed spec fn delays(&self) -> Seq<u64> {
        self.vec@
    }

    /// The position of the cursor.
    pub closed spec fn cursor(&self) -> int {
        self.index as int
    }

    /// The delay under the cursor.
    pub open spec fn current(&self) -> u64 {
        self.delays()[self.cursor()]
    }

    /// Makes a ladder of the delays `vec` with the cursor at `start_pos`.
    /// The ladder needs at least one delay, and the cursor a place on it.
    #[inline]
    pub fn new(vec: Vec<u64>, start_pos: usize) -> (r: Result<Self, LadderError>)
        ensures
            match r {
                Ok(ladder) => {
                    &&& start_pos < vec.len()
                    &&& ladder.delays() == vec@
                    &&& ladder.cursor() == start_pos
                },
                Err(LadderError::Empty) => vec.len() == 0,
                Err(LadderError::StartOutOfRange) => 0 < vec.len() <= start_pos,
            },
    {
        if vec.len() == 0 {
            return Err(LadderError::Empty);
        }
        if start_pos >= vec.len() {
            return Err(LadderError::StartOutOfRange);
        }
        let l: usize = vec.len() - 1;
        Ok(Self { index: start_pos, l, vec })
    }

    /// The ladder the program offers its viewer. Its cursor starts on the
    /// frame delay that a fresh control state is made with.
    pub fn standard() -> (ladder: Self)
        ensures
            ladder.delays() == standard_delays(),
            ladder.cursor() == STANDARD_START,
            ladder.current() == INITIAL_DELAY_MS,
    {
        let vec: Vec<u64> = vec![0, 1, 2, 4, 8, 10, 15, 20, 25, 30, 40, 50, 80, 100, 1000];
        proof {
            assert(vec@ =~= standard_delays());
        }
        Self { index: STANDARD_START, l: 14, vec }
    }

    /// Moves the cursor one step up, from the last delay round to the
    /// first, and returns the delay it then stands on.
    #[inline]
    pub fn next(&mut self) -> (delay: u64)
        ensures
            final(self).delays() == old(self).delays(),
            final(self).cursor() == step_up(old(self).delays().len() as int, old(self).cursor()),
            delay == final(self).current(),
            0 <= final(self).cursor() < final(self).delays().len(),
    {
        proof {
            use_type_invariant(&*self);
        }
        if self.index == self.l {
            self.index = 0;
        } else {
            self.index += 1;
        }
        self.vec[self.index]
    }

    /// Moves the cursor one step down, from the first delay round to the
    /// last, and returns the delay it then stands on.
    #[inline]
    pub fn prev(&mut self) -> (delay: u64)
        ensures
            final(self).delays() == old(self).delays(),
            final(self).cursor() == step_down(
                old(self).delays().len() as int,
                old(self).cursor(),
            ),
            delay == final(self).current(),
            0 <= final(self).cursor() < final(self).delays().len(),
    {
        proof {
            use_type_invariant(&*self);
        }
        if self.index == 0 {
            self.index = self.l;
        } else {
            self.index -= 1;
        }
        self.vec[self.index]
    }

    /// The delay under the cursor, which stays where it is.
    pub fn value(&self) -> (delay: u64)
        ensures
            delay == self.current(),
            0 <= self.cursor() < self.delays().len(),
    {
        proof {
            use_type_invariant(self);
        }
        self.vec[self.index]
    }
}

} // verus!
