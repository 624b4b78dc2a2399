//! The simulation driver: it hands out one snapshot of the field for each
//! generation and holds back while too many frames are in flight.
//!
//! The driver owns its field. Each step is given the count of frames in
//! flight as it was read just before, and answers with what to do next;
//! sending a snapshot, noting it and sleeping are the caller's part.

use vstd::prelude::*;
use crate::life::next_generation;
use crate::proc::Field;

verus! {

/// The driver produces no frame while this many frames, or more, are in
/// flight.
pub const FRAME_CEILING: i64 = 48;

/// How long a throttled driver sleeps before it looks again, in
/// milliseconds.
pub const THROTTLE_MS: u64 = 50;

/// The state the driver is in when it looks at the count of frames.
#[derive(Clone, Copy, Debug, PartialEq, Eq, Structural)]
pub enum Phase {
    /// A frame is due and may be produced.
    Running,
    /// A frame is due, but too many are in flight.
    Throttled,
    /// Every frame asked for has been produced.
    Done,
}

/// What the driver's caller is to do after a step.
#[derive(Debug)]
pub enum DriverAction {
    /// Send this snapshot to the renderer and note one more frame in
    /// flight.
    Emit(Field),
    /// Sleep for this many milliseconds, then step again.
    Wait(u64),
    /// Stop: the run is complete.
    Finished,
}

/// The generation `n` steps after `g`.
pub open spec fn generation(g: Seq<Seq<bool>>, n: nat) -> Seq<Seq<bool>>
    decreases n,
{
    if n == 0 {
        g
    } else {
        next_generation(generation(g, (n - 1) as nat))
    }
}

/// The phase of a driver that has produced `produced` of `target` frames
/// and sees `frames` frames in flight. A count under zero, which the
/// renderer leaves when it is ahead of the simulation, is no reason to
/// hold back.
pub open spec fn phase_of(produced: u64, target: u64, frames: int) -> Phase {
    if produced >= target {
        Phase::Done
    } else if frames >= FRAME_CEILING {
        Phase::Throttled
    } else {
        Phase::Running
    }
}

/// The simulation: a field and the count of snapshots taken of it.
pub struct Driver {
    field: Field,
    produced: u64,
    target: u64,
    origin: Ghost<Seq<Seq<bool>>>,
}

impl Driver {
    #[verifier::type_invariant]
    spec fn well_formed(&self) -> bool {
        &&& self.produced <= self.target
        &&& self.field@ == generation(self.origin@, self.produced as nat)
    }

    /// The grid the run began with.
    pub closed spec fn origin(&self) -> Seq<Seq<bool>> {
        self.origin@
    }

    /// The grid as it is now: the next snapshot to hand out.
    pub closed spec fn grid(&self) -> Seq<Seq<bool>> {
        self.field@
    }

    /// How many snapshots have been handed out.
    pub closed spec fn produced(&self) -> u64 {
        self.produced
    }

    /// How many snapshots the run is to hand out.
    pub closed spec fn target(&self) -> u64 {
        self.target
    }

    /// A driver that is to hand out `target` snapshots, the first of them
    /// of `field` as it is given.
    pub fn new(field: Field, target: u64) -> (driver: Self)
        ensures
            driver.origin() == field@,
            driver.grid() == field@,
            driver.produced() == 0,
            driver.target() == target,
    {
        let ghost origin = field@;
        Driver { field, produced: 0, target, origin: Ghost(origin) }
    }

    /// The phase the driver is in, seeing `frames` frames in flight.
    pub fn phase(&self, frames: i64) -> (phase: Phase)
        ensures
            phase == phase_of(self.produced(), self.target(), frames as int),
            self.produced() <= self.target(),
            self.grid() == generation(self.origin(), self.produced() as nat),
    {
        proof {
            use_type_invariant(self);
        }
        if self.produced >= self.target {
            Phase::Done
        } else if frames >= FRAME_CEILING {
            Phase::Throttled
        } else {
            Phase::Running
        }
    }

    /// One turn of the driver's loop, seeing `frames` frames in flight.
    ///
    /// Done: nothing changes and the caller is told to stop. Throttled:
    /// nothing changes and the caller is told to sleep for [`THROTTLE_MS`].
    /// Running: the caller gets a snapshot of the field as it is, which is
    /// the generation numbered by the snapshots handed out before, and the
    /// field moves on by one generation. Neither pause nor exit is looked
    /// at here.
    pub fn step(&mut self, frames: i64) -> (action: DriverAction)
        ensures
            final(self).origin() == old(self).origin(),
            final(self).target() == old(self).target(),
            match phase_of(old(self).produced(), old(self).target(), frames as int) {
                Phase::Done => {
                    &&& action is Finished
                    &&& final(self).grid() == old(self).grid()
                    &&& final(self).produced() == old(self).produced()
                },
                Phase::Throttled => {
                    &&& action == DriverAction::Wait(THROTTLE_MS)
                    &&& final(self).grid() == old(self).grid()
                    &&& final(self).produced() == old(self).produced()
                },
                Phase::Running => {
                    &&& action matches DriverAction::Emit(snapshot)
                    &&& snapshot@ == old(self).grid()
                    &&& snapshot@ == generation(old(self).origin(), old(self).produced() as nat)
                    &&& final(self).grid() == next_generation(old(self).grid())
                    &&& final(self).produced() == old(self).produced() + 1
                },
            },
    {
        match self.phase(frames) {
            Phase::Done => DriverAction::Finished,
            Phase::Throttled => DriverAction::Wait(THROTTLE_MS),
            Phase::Running => {
                let snapshot = self.field.snapshot();
                *self = Driver {
                    field: self.field.successor(),
                    produced: self.produced + 1,
                    target: self.target,
                    origin: self.origin,
                };
                DriverAction::Emit(snapshot)
            },
        }
    }
}

/// A note made on the count of frames in flight.
#[derive(Clone, Copy, Debug, PartialEq, Eq, Structural)]
pub enum FrameNote {
    /// The simulation has handed over a frame: one more is in flight.
    Produced,
    /// The renderer takes a frame: one fewer is in flight.
    Consumed,
}

/// The count after one note on a count of `frames`: one more for a frame
/// handed over, one fewer for a frame taken. The count may go below zero.
///
/// The shared count is a signed number of 64 bits. It is never further
/// from where it began than the number of notes made, so it is this count
/// in every run that a machine can make.
pub open spec fn noted(frames: int, note: FrameNote) -> int {
    match note {
        FrameNote::Produced => frames + 1,
        FrameNote::Consumed => frames - 1,
    }
}

/// The count after the notes `notes`, made in that order on a count that
/// began at `start`.
///
/// Each note is one atomic step on the shared count, so the notes of two
/// threads take effect one after the other in some order; `notes` is that
/// order, whichever it was.
pub open spec fn frames_after(start: int, notes: Seq<FrameNote>) -> int
    decreases notes.len(),
{
    if notes.len() == 0 {
        start
    } else {
        noted(frames_after(start, notes.drop_last()), notes.last())
    }
}

/// How many of `notes` are `which`.
pub open spec fn tally(notes: Seq<FrameNote>, which: FrameNote) -> int
    decreases notes.len(),
{
    if notes.len() == 0 {
        0
    } else {
        tally(notes.drop_last(), which) + if notes.last() == which {
            1int
        } else {
            0int
        }
    }
}

/// The frames handed over and not yet taken, counted from `start`, as
/// the notes `notes` leave it. It is under `start` where the renderer has
/// noted more frames than the simulation.
pub open spec fn backlog(start: int, notes: Seq<FrameNote>) -> int {
    start + tally(notes, FrameNote::Produced) - tally(notes, FrameNote::Consumed)
}

/// The run `notes` keeps to the protocol of the two loops.
///
/// The simulation notes a frame only after it has seen fewer than
/// [`FRAME_CEILING`] frames in flight, and between its look and its note
/// the count can only have gone down. The renderer notes a frame before it
/// receives it, and the simulation sends a frame before it notes it, so
/// when the renderer makes a note it has made at most one note more than
/// the simulation.
pub open spec fn disciplined(start: int, notes: Seq<FrameNote>) -> bool {
    forall|k: int|
        0 <= k < notes.len() ==> match #[trigger] notes[k] {
            FrameNote::Produced => frames_after(start, notes.take(k)) < FRAME_CEILING,
            FrameNote::Consumed => tally(notes.take(k), FrameNote::Consumed) <= tally(
                notes.take(k),
                FrameNote::Produced,
            ) + 1,
        }
}

/// The count depends on how many notes of each kind were made, not on the
/// order in which the threads made them: it is the backlog. A note made on
/// a count of zero leaves one under zero. The count is never further from
/// where it began than the number of notes made.
pub proof fn lemma_count_is_backlog(start: int, notes: Seq<FrameNote>)
    ensures
        frames_after(start, notes) == backlog(start, notes),
        0 <= tally(notes, FrameNote::Produced) <= notes.len(),
        0 <= tally(notes, FrameNote::Consumed) <= notes.len(),
        tally(notes, FrameNote::Produced) + tally(notes, FrameNote::Consumed) == notes.len(),
        start - notes.len() <= frames_after(start, notes) <= start + notes.len(),
    decreases notes.len(),
{
    if notes.len() > 0 {
        lemma_count_is_backlog(start, notes.drop_last());
    }
}

/// Two runs that made as many notes of each kind leave the same count,
/// however their notes were interleaved.
pub proof fn lemma_order_of_notes_is_no_matter(
    start: int,
    one: Seq<FrameNote>,
    other: Seq<FrameNote>,
)
    requires
        tally(one, FrameNote::Produced) == tally(other, FrameNote::Produced),
        tally(one, FrameNote::Consumed) == tally(other, FrameNote::Consumed),
    ensures
        frames_after(start, one) == frames_after(start, other),
{
    lemma_count_is_backlog(start, one);
    lemma_count_is_backlog(start, other);
}

/// The driver is not starved: whenever the renderer has caught up so far
/// that the backlog is under [`FRAME_CEILING`], the count that the notes
/// leave is under it too, and a driver with frames still to produce is
/// running, not throttled. That is so in particular when every frame
/// handed over has been taken and the count began under the ceiling, and
/// when the renderer is ahead and the count stands under zero.
pub proof fn lemma_driver_resumes(
    start: int,
    notes: Seq<FrameNote>,
    produced: u64,
    target: u64,
)
    requires
        backlog(start, notes) < FRAME_CEILING,
        produced < target,
    ensures
        frames_after(start, notes) < FRAME_CEILING,
        phase_of(produced, target, frames_after(start, notes)) == Phase::Running,
{
    lemma_count_is_backlog(start, notes);
}

/// The look-ahead is bounded: in a run that keeps to the protocol, begun
/// with a count at or under the ceiling, the count never passes
/// [`FRAME_CEILING`], and it never falls more than two under the count the
/// run began with.
pub proof fn lemma_look_ahead_is_bounded(start: int, notes: Seq<FrameNote>)
    requires
        start <= FRAME_CEILING,
        disciplined(start, notes),
    ensures
        frames_after(start, notes) == backlog(start, notes),
        start - 2 <= frames_after(start, notes) <= FRAME_CEILING,
    decreases notes.len(),
{
    lemma_count_is_backlog(start, notes);
    if notes.len() > 0 {
        let before = notes.drop_last();
        let k = notes.len() - 1;
        assert(notes.take(k) =~= before);
        assert forall|i: int| 0 <= i < before.len() implies match #[trigger] before[i] {
            FrameNote::Produced => frames_after(start, before.take(i)) < FRAME_CEILING,
            FrameNote::Consumed => tally(before.take(i), FrameNote::Consumed) <= tally(
                before.take(i),
                FrameNote::Produced,
            ) + 1,
        } by {
            assert(before[i] == notes[i]);
            assert(before.take(i) =~= notes.take(i));
        }
        lemma_look_ahead_is_bounded(start, before);
        lemma_count_is_backlog(start, before);
        assert(notes[k] == notes.last());
    }
}

} // verus!
