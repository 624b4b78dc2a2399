//! The render loop: when to show the next frame, when to say that the show
//! is paused, when to stop; and the text of a frame.
//!
//! Each step is given the control flags as they were read just before, and
//! answers with what to do next. Receiving the frame, sleeping and writing
//! to the terminal are the caller's part.

use vstd::prelude::*;
use vstd::string::StringExecFns;
use crate::proc::{grid_of, Field};

verus! {

/// How long a paused renderer sleeps before it looks again, in
/// milliseconds.
pub const PAUSE_IDLE_MS: u64 = 500;

/// What the renderer's caller is to do after a step.
#[derive(Clone, Copy, Debug, PartialEq, Eq, Structural)]
pub enum RenderAction {
    /// End the loop.
    Stop,
    /// Show the next frame: note a frame taken, receive it, sleep for the
    /// frame delay, clear the screen, write the frame.
    Draw,
    /// The show has just been paused: say so, then sleep for
    /// [`PAUSE_IDLE_MS`].
    Notice,
    /// The show is still paused: sleep for [`PAUSE_IDLE_MS`].
    Idle,
}

/// The renderer's own state: the frames it has shown, and whether the
/// next pause is still to be announced.
#[derive(Clone, Copy, Debug, PartialEq, Eq, Structural)]
pub struct Renderer {
    generation: u64,
    announce: bool,
}

/// What a renderer that has shown `shown` frames does when it sees the
/// flags `exit` and `paused` and is to show `target` frames in all;
/// `announce` says whether a pause is still to be announced.
pub open spec fn action_of(
    shown: u64,
    announce: bool,
    exit: bool,
    paused: bool,
    target: u64,
) -> RenderAction {
    if shown >= target || exit {
        RenderAction::Stop
    } else if !paused {
        RenderAction::Draw
    } else if announce {
        RenderAction::Notice
    } else {
        RenderAction::Idle
    }
}

impl Renderer {
    /// How many frames have been shown.
    pub closed spec fn shown(&self) -> u64 {
        self.generation
    }

    /// Whether the next pause the renderer sees is to be announced. It is
    /// announced once, and again only after a frame has been shown.
    pub closed spec fn announce(&self) -> bool {
        self.announce
    }

    /// A renderer that has shown nothing yet. A show that starts paused is
    /// not announced as paused.
    pub fn new(paused: bool) -> (r: Self)
        ensures
            r.shown() == 0,
            r.announce() == !paused,
    {
        Renderer { generation: 0, announce: !paused }
    }

    /// How many frames have been shown.
    pub fn generation(&self) -> (n: u64)
        ensures
            n == self.shown(),
    {
        self.generation
    }

    /// One turn of the render loop, seeing the flags `exit` and `paused`,
    /// with `target` frames to show in all.
    ///
    /// The loop stops when all frames are shown or an exit is asked for.
    /// Otherwise a running show draws the next frame, which counts as shown
    /// from then on, and a paused one is announced once and then idles.
    pub fn step(&mut self, exit: bool, paused: bool, target: u64) -> (action: RenderAction)
        ensures
            action == action_of(old(self).shown(), old(self).announce(), exit, paused, target),
            final(self).shown() == if action == RenderAction::Draw {
                (old(self).shown() + 1) as u64
            } else {
                old(self).shown()
            },
            final(self).announce() == match action {
                RenderAction::Draw => true,
                RenderAction::Notice => false,
                _ => old(self).announce(),
            },
            action == RenderAction::Draw ==> final(self).shown() <= target,
    {
        if self.generation >= target || exit {
            RenderAction::Stop
        } else if !paused {
            self.generation += 1;
            self.announce = true;
            RenderAction::Draw
        } else if self.announce {
            self.announce = false;
            RenderAction::Notice
        } else {
            RenderAction::Idle
        }
    }
}

/// The character that shows a cell.
pub open spec fn glyph(cell: bool) -> char {
    if cell {
        '#'
    } else {
        ' '
    }
}

/// The text of one row: a glyph for each cell, then carriage return and
/// line feed.
pub open spec fn row_text(row: Seq<bool>) -> Seq<char> {
    Seq::new(row.len(), |j: int| glyph(row[j])) + seq!['\r', '\n']
}

/// The text of a frame: the text of its rows, top to bottom.
pub open spec fn frame_text(g: Seq<Seq<bool>>) -> Seq<char>
    decreases g.len(),
{
    if g.len() == 0 {
        Seq::empty()
    } else {
        frame_text(g.drop_last()) + row_text(g.last())
    }
}

/// The text of the notice that the show is paused.
pub open spec fn notice_text() -> Seq<char> {
    seq!['P', 'a', 'u', 's', 'e', 'd', '!', '\r', '\n']
}

/// The text that shows `field` on a cleared screen in raw mode: `#` for a
/// live cell, a blank for a dead one, each row closed by carriage return
/// and line feed.
pub fn draw_frame(field: &Field) -> (text: String)
    ensures
        text@ == frame_text(field@),
{
    let rows = field.data();
    let mut text = String::new();
    let mut i: usize = 0;
    while i < rows.len()
        invariant
            i <= rows.len(),
            text@ == frame_text(grid_of(rows@).take(i as int)),
        decreases rows.len() - i,
    {
        let row = &rows[i];
        let ghost before = text@;
        let mut j: usize = 0;
        while j < row.len()
            invariant
                j <= row.len(),
                text@ == before + Seq::new(j as nat, |k: int| glyph(row@[k])),
            decreases row.len() - j,
        {
            let ghost so_far = text@;
            if row[j] {
                text.append("#");
                proof {
                    reveal_strlit("#");
                    assert("#"@ =~= seq!['#']);
                }
            } else {
                text.append(" ");
                proof {
                    reveal_strlit(" ");
                    assert(" "@ =~= seq![' ']);
                }
            }
            proof {
                assert(text@ =~= before + Seq::new((j + 1) as nat, |k: int| glyph(row@[k])));
            }
            j += 1;
        }
        text.append("\r\n");
        proof {
            reveal_strlit("\r\n");
            assert("\r\n"@ =~= seq!['\r', '\n']);
            let g = grid_of(rows@);
            assert(g.take(i as int + 1).drop_last() =~= g.take(i as int));
            assert(g.take(i as int + 1).last() == row@);
            assert(Seq::new(row@.len(), |k: int| glyph(row@[k])) =~= Seq::new(
                row.len() as nat,
                |k: int| glyph(row@[k]),
            ));
            assert(text@ =~= before + row_text(row@));
        }
        i += 1;
    }
    proof {
        let g = grid_of(rows@);
        assert(g.take(rows.len() as int) =~= g);
    }
    text
}

/// The notice that the show is paused, as it is written to the terminal.
pub fn pause_notice() -> (text: &'static str)
    ensures
        text@ == notice_text(),
{
    let text = "Paused!\r\n";
    proof {
        reveal_strlit("Paused!\r\n");
        assert(text@ =~= notice_text());
    }
    text
}

} // verus!
