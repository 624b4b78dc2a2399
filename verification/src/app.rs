//! The control state that the three loops of the program share.
//!
//! The simulation, the renderer and the keyboard listener run side by side
//! and meet in one [`App`]. Each of its changing parts is an atomic of its
//! own: reading or changing one part never waits for another, and no lock
//! spans two of them. A value read from a part says how that part was at
//! some moment during the call; by the time the caller looks at it another
//! thread may have changed the part again.

use std::sync::atomic::{AtomicBool, AtomicI64, AtomicU64, Ordering};
use vstd::prelude::*;
use crate::proc::Field;

verus! {

/// The frame delay in force until the viewer picks another one, in
/// milliseconds.
pub const INITIAL_DELAY_MS: u64 = 30;

/// The count of frames in flight that a new [`App`] starts from.
pub const INITIAL_FRAMES: i64 = 6;

/// What the listener asks of the control state after a key stroke.
#[derive(Clone, Copy, Debug, PartialEq, Eq, Structural)]
pub enum Update {
    /// Leave everything as it is.
    Nothing,
    /// Ask the program to end.
    Exit,
    /// Pause if running, resume if paused.
    TogglePause,
    /// Take this frame delay, in milliseconds.
    SetDelay(u64),
}

/// The state shared by the simulation, the renderer and the listener.
pub struct App {
    field: Field,
    maxgen: u64,
    should_exit: AtomicBool,
    pause: AtomicBool,
    upd_timeout: AtomicU64,
    frames: AtomicI64,
}

impl App {
    /// The grid the simulation starts from.
    pub closed spec fn start(&self) -> Seq<Seq<bool>> {
        self.field@
    }

    /// The number of generations to produce and to show.
    pub closed spec fn target(&self) -> u64 {
        self.maxgen
    }

    /// A fresh control state for a run of `maxgen` generations from
    /// `field`: not paused, no exit asked for, the frame delay at
    /// [`INITIAL_DELAY_MS`] and [`INITIAL_FRAMES`] frames in flight.
    #[inline]
    pub fn new(field: Field, maxgen: u64) -> (app: Self)
        ensures
            app.start() == field@,
            app.target() == maxgen,
    {
        App {
            field,
            maxgen,
            should_exit: AtomicBool::new(false),
            pause: AtomicBool::new(false),
            upd_timeout: AtomicU64::new(INITIAL_DELAY_MS),
            frames: AtomicI64::new(INITIAL_FRAMES),
        }
    }

    /// The number of generations to produce and to show. It is fixed when
    /// the state is made.
    #[inline]
    pub fn maxgen(&self) -> (n: u64)
        ensures
            n == self.target(),
    {
        self.maxgen
    }

    /// The grid the simulation starts from. The simulation works on a copy
    /// of its own; this one is never changed.
    #[inline]
    pub fn field(&self) -> (field: &Field)
        ensures
            field@ == self.start(),
    {
        &self.field
    }

    /// Whether an exit has been asked for, as the flag stood at some moment
    /// of the call. Any thread may set the flag at any time, so the answer
    /// can be either; the renderer's step is handed the answer and decides
    /// on it.
    #[inline]
    pub fn is_should_exit(&self) -> bool {
        self.should_exit.load(Ordering::Relaxed)
    }

    /// Whether the show is paused, as the flag stood at some moment of the
    /// call. Any thread may toggle the flag at any time, so the answer can
    /// be either; the renderer's step is handed the answer and decides on
    /// it.
    #[inline]
    pub fn is_paused(&self) -> bool {
        self.pause.load(Ordering::Relaxed)
    }

    /// Pauses a running show and resumes a paused one, in one atomic step.
    #[inline]
    pub fn pause(&self) {
        self.pause.fetch_xor(true, Ordering::SeqCst);
    }

    /// The frame delay in force, in milliseconds, as it stood at some
    /// moment of the call. Any thread may store any delay at any time, so
    /// the answer can be any number.
    #[inline]
    pub fn upd_timeout(&self) -> u64 {
        self.upd_timeout.load(Ordering::Relaxed)
    }

    /// Notes that the renderer takes a frame: one frame fewer is in flight.
    /// The count is lowered by one in one atomic step. It is a signed
    /// count: a note made while it stands at zero leaves it at one under
    /// zero, which tells the simulation that the renderer is ahead.
    #[inline]
    pub fn need_frame(&self) {
        self.frames.fetch_sub(1, Ordering::SeqCst);
    }

    /// Notes that the simulation has handed over a frame: one frame more is
    /// in flight. The count is raised by one in one atomic step.
    #[inline]
    pub fn add_frame(&self) {
        self.frames.fetch_add(1, Ordering::SeqCst);
    }

    /// The count of frames in flight, as it stood at some moment of the
    /// call; it is under zero while the renderer is ahead of the
    /// simulation. Other threads raise and lower the count at any time, so
    /// the answer can be any number; the driver's step is handed the answer
    /// and decides on it.
    #[inline]
    pub fn frames(&self) -> i64 {
        self.frames.load(Ordering::SeqCst)
    }

    /// Asks the program to end. The request is never taken back.
    #[inline]
    pub fn should_exit(&self) {
        self.should_exit.store(true, Ordering::Relaxed)
    }

    /// Sets the frame delay to `t` milliseconds.
    #[inline]
    pub fn store_timeout(&self, t: u64) {
        self.upd_timeout.store(t, Ordering::Relaxed)
    }

    /// Carries out what the listener asks for.
    pub fn apply(&self, update: Update) {
        match update {
            Update::Nothing => {},
            Update::Exit => self.should_exit(),
            Update::TogglePause => self.pause(),
            Update::SetDelay(ms) => self.store_timeout(ms),
        }
    }
}

} // verus!
