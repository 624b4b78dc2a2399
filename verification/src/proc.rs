//! The playing field: a grid of cells of a fixed size that is advanced one
//! generation at a time.

use vstd::prelude::*;
use crate::life::{
    in_grid, lemma_next_generation_keeps_shape, live_neighbors, lives_on, next_cell,
    next_generation, rectangular,
};
use crate::parse::{parse_rows, rows_of_text};
use crate::rect::Rect;

verus! {

/// Why a field could not be made from the rows given.
#[derive(Clone, Copy, Debug, PartialEq, Eq, Structural)]
pub enum FieldError {
    /// There is no row at all, so the field has no size.
    Empty,
    /// The field is wider or taller than the terminal that is to show it.
    TerminalTooSmall,
    /// Some row is not as long as the first one.
    RaggedRows,
}

/// The grid that a vector of rows stands for.
pub open spec fn grid_of(data: Seq<Vec<bool>>) -> Seq<Seq<bool>> {
    Seq::new(data.len(), |i: int| data[i]@)
}

/// Every row of `g` is as long as its first row.
pub open spec fn uniform(g: Seq<Seq<bool>>) -> bool {
    forall|i: int| 0 <= i < g.len() ==> (#[trigger] g[i]).len() == g[0].len()
}

/// A grid of `g`'s height and of the width of its first row can be shown
/// on a terminal of size `terminal`.
pub open spec fn fits_terminal(g: Seq<Seq<bool>>, terminal: Rect) -> bool {
    g.len() > 0 && g[0].len() <= terminal.width() && g.len() <= terminal.height()
}

/// What construction from the rows `g` for a terminal of size `terminal`
/// answers: the first complaint that applies, or none.
pub open spec fn construction_error(g: Seq<Seq<bool>>, terminal: Rect) -> Option<FieldError> {
    if g.len() == 0 {
        Some(FieldError::Empty)
    } else if !fits_terminal(g, terminal) {
        Some(FieldError::TerminalTooSmall)
    } else if !uniform(g) {
        Some(FieldError::RaggedRows)
    } else {
        None
    }
}

/// How many entries of `around` are a live cell.
pub open spec fn live_count(around: Seq<Option<bool>>) -> int
    decreases around.len(),
{
    if around.len() == 0 {
        0
    } else {
        live_count(around.drop_last()) + if around.last() == Some(true) {
            1int
        } else {
            0int
        }
    }
}

/// A rectangular grid of cells, at least one row high.
#[derive(Debug)]
pub struct Field {
    size: Rect,
    data: Vec<Vec<bool>>,
}

impl View for Field {
    type V = Seq<Seq<bool>>;

    closed spec fn view(&self) -> Seq<Seq<bool>> {
        grid_of(self.data@)
    }
}

impl Field {
    #[verifier::type_invariant]
    spec fn well_formed(&self) -> bool {
        &&& self.size.height() >= 1
        &&& rectangular(self@, self.size.width() as int, self.size.height() as int)
    }

    /// The size the field was made with.
    pub closed spec fn dims(&self) -> Rect {
        self.size
    }

    /// The size of the grid that `data` holds, taking the first row's
    /// length for its width.
    fn data_size(data: &Vec<Vec<bool>>) -> (r: Result<Rect, FieldError>)
        ensures
            match r {
                Ok(size) => data.len() > 0 && size.height() == data.len() && size.width()
                    == data[0].len(),
                Err(e) => if data.len() == 0 {
                    e == FieldError::Empty
                } else {
                    e == FieldError::TerminalTooSmall && (data.len() > u16::MAX || data[0].len()
                        > u16::MAX)
                },
            },
    {
        if data.len() == 0 {
            return Err(FieldError::Empty);
        }
        let w: usize = data[0].len();
        let h: usize = data.len();
        if w > 0xffff || h > 0xffff {
            return Err(FieldError::TerminalTooSmall);
        }
        Ok(Rect::new(w as u16, h as u16))
    }

    /// Makes a field of the rows `data`, to be shown on a terminal of size
    /// `terminal`. The rows must be there, fit the terminal and be of one
    /// length; the first of these that fails is the error.
    pub fn new(data: Vec<Vec<bool>>, terminal: Rect) -> (r: Result<Field, FieldError>)
        ensures
            match r {
                Ok(field) => {
                    &&& construction_error(grid_of(data@), terminal) is None
                    &&& field@ == grid_of(data@)
                    &&& field.dims().height() == data.len()
                    &&& field.dims().width() == data[0].len()
                },
                Err(e) => construction_error(grid_of(data@), terminal) == Some(e),
            },
    {
        let size = match Self::data_size(&data) {
            Ok(size) => size,
            Err(e) => {
                return Err(e);
            },
        };
        if !size.fits(&terminal) {
            return Err(FieldError::TerminalTooSmall);
        }
        let w: usize = size.w() as usize;
        let mut i: usize = 0;
        assert(fits_terminal(grid_of(data@), terminal));
        while i < data.len()
            invariant
                i <= data.len(),
                w == data[0].len(),
                data.len() > 0,
                fits_terminal(grid_of(data@), terminal),
                forall|k: int| 0 <= k < i ==> (#[trigger] data[k]).len() == w,
            decreases data.len() - i,
        {
            if data[i].len() != w {
                proof {
                    let g = grid_of(data@);
                    assert(g[i as int].len() != g[0].len());
                }
                return Err(FieldError::RaggedRows);
            }
            i += 1;
        }
        proof {
            let g = grid_of(data@);
            assert forall|k: int| 0 <= k < g.len() implies (#[trigger] g[k]).len()
                == g[0].len() by {
                assert(data[k].len() == w);
            }
        }
        Ok(Field { size, data })
    }

    /// Makes a field from its text form, one line for each row, to be shown
    /// on a terminal of size `terminal`. The rows read from the text must
    /// pass the same three tests as those given to [`Field::new`].
    pub fn from_string(s: String, terminal: Rect) -> (r: Result<Field, FieldError>)
        ensures
            match r {
                Ok(field) => {
                    &&& construction_error(rows_of_text(s@), terminal) is None
                    &&& field@ == rows_of_text(s@)
                    &&& field.dims().height() == rows_of_text(s@).len()
                    &&& field.dims().width() == rows_of_text(s@)[0].len()
                },
                Err(e) => construction_error(rows_of_text(s@), terminal) == Some(e),
            },
    {
        let data = parse_rows(s.as_str());
        Self::new(data, terminal)
    }

    /// The size of the field; the grid has that many rows and columns.
    #[inline]
    pub fn size(&self) -> (r: &Rect)
        ensures
            *r == self.dims(),
            r.height() >= 1,
            rectangular(self@, r.width() as int, r.height() as int),
    {
        proof {
            use_type_invariant(self);
        }
        &self.size
    }

    /// The rows of the field, top to bottom.
    #[inline]
    pub fn data<'a>(&'a self) -> (rows: &'a Vec<Vec<bool>>)
        ensures
            grid_of(rows@) == self@,
    {
        &self.data
    }

    /// The cell at row `i`, column `j`, or `None` where the field has no
    /// such position.
    #[inline]
    pub fn get(&self, i: i32, j: i32) -> (cell: Option<bool>)
        ensures
            cell == if in_grid(self@, i as int, j as int) {
                Some(self@[i as int][j as int])
            } else {
                None
            },
    {
        proof {
            use_type_invariant(self);
        }
        if i >= self.size.h() as i32 || j >= self.size.w() as i32 || i < 0 || j < 0 {
            None
        } else {
            Some(self.data[i as usize][j as usize])
        }
    }

    /// A copy of one row of cells.
    fn copy_row(row: &Vec<bool>) -> (copy: Vec<bool>)
        ensures
            copy@ == row@,
    {
        let mut copy: Vec<bool> = Vec::new();
        let mut j: usize = 0;
        while j < row.len()
            invariant
                j <= row.len(),
                copy@ == row@.take(j as int),
            decreases row.len() - j,
        {
            copy.push(row[j]);
            proof {
                assert(copy@ =~= row@.take(j as int + 1));
            }
            j += 1;
        }
        proof {
            assert(row@.take(row.len() as int) =~= row@);
        }
        copy
    }

    /// A deep copy of the field as it is now. The field itself is left as
    /// it was, and the copy shares nothing with it.
    pub fn snapshot(&self) -> (copy: Field)
        ensures
            copy@ == self@,
            copy.dims() == self.dims(),
    {
        proof {
            use_type_invariant(self);
        }
        let mut rows: Vec<Vec<bool>> = Vec::new();
        let mut i: usize = 0;
        while i < self.data.len()
            invariant
                i <= self.data.len(),
                rows.len() == i,
                forall|k: int| 0 <= k < i ==> (#[trigger] rows[k])@ == self.data[k]@,
            decreases self.data.len() - i,
        {
            rows.push(Self::copy_row(&self.data[i]));
            i += 1;
        }
        proof {
            assert(grid_of(rows@) =~= grid_of(self.data@));
        }
        Field { size: self.size, data: rows }
    }

    /// The eight positions around `(i, j)`, corners first.
    fn around(&self, i: i32, j: i32) -> (n: [Option<bool>; 8])
        requires
            in_grid(self@, i as int, j as int),
        ensures
            live_count(n@) == live_neighbors(self@, i as int, j as int),
    {
        proof {
            use_type_invariant(self);
        }
        let n: [Option<bool>; 8] = [
            self.get(i - 1, j - 1),
            self.get(i - 1, j + 1),
            self.get(i + 1, j - 1),
            self.get(i + 1, j + 1),
            self.get(i - 1, j),
            self.get(i + 1, j),
            self.get(i, j - 1),
            self.get(i, j + 1),
        ];
        proof {
            lemma_live_count_of_eight(n@);
        }
        n
    }

    /// The rows of the generation that follows this one.
    fn next_rows(&self) -> (rows: Vec<Vec<bool>>)
        ensures
            grid_of(rows@) == next_generation(self@),
    {
        proof {
            use_type_invariant(self);
        }
        let (w, h) = self.size.unwrap();
        let mut rows: Vec<Vec<bool>> = Vec::new();
        let mut i: i32 = 0;
        while i < h as i32
            invariant
                0 <= i <= h,
                rectangular(self@, w as int, h as int),
                rows.len() == i,
                forall|r: int| 0 <= r < i ==> (#[trigger] rows[r])@ == next_generation(self@)[r],
            decreases h - i,
        {
            let mut row: Vec<bool> = Vec::new();
            let mut j: i32 = 0;
            while j < w as i32
                invariant
                    0 <= i < h,
                    0 <= j <= w,
                    rectangular(self@, w as int, h as int),
                    row.len() == j,
                    forall|c: int| 0 <= c < j ==> #[trigger] row[c] == next_cell(self@, i as int, c),
                decreases w - j,
            {
                let current = match self.get(i, j) {
                    Some(cell) => cell,
                    None => false,
                };
                let n = self.around(i, j);
                row.push(Self::produce_value(current, &n));
                j += 1;
            }
            proof {
                assert(row@ =~= next_generation(self@)[i as int]);
            }
            rows.push(row);
            i += 1;
        }
        proof {
            assert(grid_of(rows@) =~= next_generation(self@));
        }
        rows
    }

    /// The field one generation on, as a field of its own; this one stays
    /// as it is.
    pub fn successor(&self) -> (next: Field)
        ensures
            next@ == next_generation(self@),
            next.dims() == self.dims(),
    {
        proof {
            use_type_invariant(self);
            lemma_next_generation_keeps_shape(
                self@,
                self.size.width() as int,
                self.size.height() as int,
            );
        }
        Field { size: self.size, data: self.next_rows() }
    }

    /// Advances the field by one generation. Every cell of the new
    /// generation is decided from the old one; the size stays.
    pub fn tick(&mut self)
        ensures
            final(self)@ == next_generation(old(self)@),
            final(self).dims() == old(self).dims(),
    {
        proof {
            use_type_invariant(&*self);
            lemma_next_generation_keeps_shape(
                self@,
                self.size.width() as int,
                self.size.height() as int,
            );
        }
        let rows = self.next_rows();
        self.data = rows;
    }

    /// The rule for one cell: its next state, from its state now and the
    /// eight positions around it (`None` for a position off the field).
    pub fn produce_value(current: bool, n: &[Option<bool>; 8]) -> (next: bool)
        ensures
            next == lives_on(current, live_count(n@)),
    {
        let mut c: u8 = 0;
        let mut k: usize = 0;
        while k < 8
            invariant
                k <= 8,
                n@.len() == 8,
                c == live_count(n@.take(k as int)),
                c <= k,
            decreases 8 - k,
        {
            proof {
                assert(n@.take(k as int + 1).drop_last() =~= n@.take(k as int));
            }
            match n[k] {
                Some(true) => {
                    c += 1;
                },
                _ => {},
            }
            k += 1;
        }
        proof {
            assert(n@.take(8) =~= n@);
        }
        if current {
            c == 2 || c == 3
        } else {
            c == 3
        }
    }
}

impl Clone for Field {
    fn clone(&self) -> (copy: Self)
        ensures
            copy@ == self@,
            copy.dims() == self.dims(),
    {
        self.snapshot()
    }
}

/// Among eight positions the live ones can be counted one by one.
proof fn lemma_live_count_of_eight(n: Seq<Option<bool>>)
    requires
        n.len() == 8,
    ensures
        live_count(n) == live_one(n[0]) + live_one(n[1]) + live_one(n[2]) + live_one(n[3])
            + live_one(n[4]) + live_one(n[5]) + live_one(n[6]) + live_one(n[7]),
{
    reveal_with_fuel(live_count, 9);
    let n7 = n.drop_last();
    let n6 = n7.drop_last();
    let n5 = n6.drop_last();
    let n4 = n5.drop_last();
    let n3 = n4.drop_last();
    let n2 = n3.drop_last();
    let n1 = n2.drop_last();
    let n0 = n1.drop_last();
    assert(n0.len() == 0);
    assert(n1.last() == n[0]);
    assert(n2.last() == n[1]);
    assert(n3.last() == n[2]);
    assert(n4.last() == n[3]);
    assert(n5.last() == n[4]);
    assert(n6.last() == n[5]);
    assert(n7.last() == n[6]);
}

/// 1 for a live cell, 0 for a dead one or for none.
spec fn live_one(cell: Option<bool>) -> int {
    if cell == Some(true) {
        1
    } else {
        0
    }
}

} // verus!
