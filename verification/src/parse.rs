//! The text form of a grid: one line of text for each row.
//!
//! Lines are separated by `'\n'`. In a line, `'0'` and a space stand for a
//! dead cell and every other character for a live one. A line without
//! characters is no row: it is passed over wherever it stands.

use vstd::prelude::*;
use vstd::string::StringExecFns;
use crate::proc::grid_of;

verus! {

/// The cell that the character `c` stands for.
pub open spec fn cell_of(c: char) -> bool {
    c != '0' && c != ' '
}

/// The row of cells that a line of text stands for.
pub open spec fn row_of(line: Seq<char>) -> Seq<bool> {
    Seq::new(line.len(), |j: int| cell_of(line[j]))
}

/// The length of the first line of `s`: the place of its first `'\n'`,
/// or the length of `s` where it has none.
pub open spec fn line_end(s: Seq<char>) -> nat
    decreases s.len(),
{
    if s.len() == 0 || s[0] == '\n' {
        0
    } else {
        1 + line_end(s.skip(1))
    }
}

/// The rows that the text `s` stands for: one for each line that is not
/// empty, in the order of the lines.
pub open spec fn rows_of_text(s: Seq<char>) -> Seq<Seq<bool>>
    decreases s.len(),
{
    let k = line_end(s) as int;
    let rest = if k < s.len() {
        rows_of_text(s.skip(k + 1))
    } else {
        Seq::empty()
    };
    if k == 0 {
        rest
    } else {
        seq![row_of(s.take(k))] + rest
    }
}

/// The text made of the lines `lines`, each one closed by `'\n'`.
pub open spec fn block_text(lines: Seq<Seq<char>>) -> Seq<char>
    decreases lines.len(),
{
    if lines.len() == 0 {
        Seq::empty()
    } else {
        lines[0] + seq!['\n'] + block_text(lines.skip(1))
    }
}

/// The first line of `s` ends at `k` if no `'\n'` stands before `k` and
/// either one stands at `k` or `s` ends there.
pub proof fn lemma_line_end(s: Seq<char>, k: int)
    requires
        0 <= k <= s.len(),
        forall|i: int| 0 <= i < k ==> s[i] != '\n',
        k == s.len() || s[k] == '\n',
    ensures
        line_end(s) == k,
    decreases k,
{
    if k > 0 {
        lemma_line_end(s.skip(1), k - 1);
    }
}

/// A text that begins with a line that is not empty stands for that
/// line's row followed by the rows of what comes after the line break.
pub proof fn lemma_first_line(line: Seq<char>, tail: Seq<char>)
    requires
        forall|i: int| 0 <= i < line.len() ==> line[i] != '\n',
    ensures
        rows_of_text(line + seq!['\n'] + tail) == if line.len() == 0 {
            rows_of_text(tail)
        } else {
            seq![row_of(line)] + rows_of_text(tail)
        },
{
    let s = line + seq!['\n'] + tail;
    let k = line.len() as int;
    lemma_line_end(s, k);
    assert(s.take(k) =~= line);
    assert(s.skip(k + 1) =~= tail);
}

/// A block of lines, none of them empty and each closed by `'\n'`, stands
/// for the rows of its lines, followed by the rows of whatever text comes
/// after the block.
pub proof fn lemma_block_then_tail(lines: Seq<Seq<char>>, tail: Seq<char>)
    requires
        forall|i: int| 0 <= i < lines.len() ==> (#[trigger] lines[i]).len() > 0,
        forall|i: int, j: int|
            0 <= i < lines.len() && 0 <= j < lines[i].len() ==> #[trigger] lines[i][j] != '\n',
    ensures
        rows_of_text(block_text(lines) + tail) == Seq::new(
            lines.len(),
            |i: int| row_of(lines[i]),
        ) + rows_of_text(tail),
    decreases lines.len(),
{
    let rows = Seq::new(lines.len(), |i: int| row_of(lines[i]));
    if lines.len() == 0 {
        assert(block_text(lines) + tail =~= tail);
        assert(rows + rows_of_text(tail) =~= rows_of_text(tail));
    } else {
        let rest = lines.skip(1);
        let rest_rows = Seq::new(rest.len(), |i: int| row_of(rest[i]));
        assert forall|i: int, j: int| 0 <= i < rest.len() && 0 <= j < rest[i].len() implies
            #[trigger] rest[i][j] != '\n' by {
            assert(lines[i + 1][j] != '\n');
        }
        lemma_block_then_tail(rest, tail);
        assert(block_text(lines) + tail =~= lines[0] + seq!['\n'] + (block_text(rest) + tail));
        lemma_first_line(lines[0], block_text(rest) + tail);
        assert(rows =~= seq![row_of(lines[0])] + rest_rows);
        assert(seq![row_of(lines[0])] + (rest_rows + rows_of_text(tail)) =~= rows + rows_of_text(
            tail,
        ));
    }
}

/// A lone line break stands for no row, and neither does the empty text.
pub proof fn lemma_blank_line_is_no_row()
    ensures
        rows_of_text(Seq::empty()) == Seq::<Seq<bool>>::empty(),
        rows_of_text(seq!['\n']) == Seq::<Seq<bool>>::empty(),
{
    let s = seq!['\n'];
    lemma_line_end(s, 0);
    assert(s.skip(1) =~= Seq::<char>::empty());
}

/// Rows written one to a line are read back as they were written: a block
/// of lines, none of them empty and each closed by `'\n'`, stands for
/// exactly one row for each line, whose cells follow the line's characters
/// place by place. A blank line after the block is not read as a row.
pub proof fn lemma_block_parses(lines: Seq<Seq<char>>)
    requires
        forall|i: int| 0 <= i < lines.len() ==> (#[trigger] lines[i]).len() > 0,
        forall|i: int, j: int|
            0 <= i < lines.len() && 0 <= j < lines[i].len() ==> #[trigger] lines[i][j] != '\n',
    ensures
        rows_of_text(block_text(lines)) == rows_of_text(block_text(lines) + seq!['\n']),
        rows_of_text(block_text(lines)).len() == lines.len(),
        forall|i: int|
            0 <= i < lines.len() ==> (#[trigger] rows_of_text(block_text(lines))[i]).len()
                == lines[i].len(),
        forall|i: int, j: int|
            0 <= i < lines.len() && 0 <= j < lines[i].len() ==> #[trigger] rows_of_text(
                block_text(lines),
            )[i][j] == cell_of(lines[i][j]),
{
    let rows = Seq::new(lines.len(), |i: int| row_of(lines[i]));
    let none = Seq::<char>::empty();
    lemma_blank_line_is_no_row();
    lemma_block_then_tail(lines, none);
    lemma_block_then_tail(lines, seq!['\n']);
    assert(block_text(lines) + none =~= block_text(lines));
    assert(rows + Seq::<Seq<bool>>::empty() =~= rows);
}

/// Reads the rows of a grid from text: one row for each line that is not
/// empty, one cell for each character of the line.
pub fn parse_rows(s: &str) -> (rows: Vec<Vec<bool>>)
    ensures
        grid_of(rows@) == rows_of_text(s@),
        forall|i: int| 0 <= i < rows.len() ==> (#[trigger] rows[i]).len() > 0,
{
    let mut data: Vec<Vec<bool>> = Vec::new();
    let mut row: Vec<bool> = Vec::new();
    proof {
        assert(s@.skip(0) =~= s@);
        assert(grid_of(data@) + rows_of_text(s@) =~= rows_of_text(s@));
        assert(row@ =~= row_of(s@.subrange(0, 0)));
    }
    for c in it: s.chars()
        invariant
            it.seq() == s@,
            row.len() <= it.index(),
            rows_of_text(s@) == grid_of(data@) + rows_of_text(s@.skip(it.index() - row.len())),
            forall|k: int| it.index() - row.len() <= k < it.index() ==> s@[k] != '\n',
            row@ == row_of(s@.subrange(it.index() - row.len(), it.index())),
            forall|i: int| 0 <= i < data.len() ==> (#[trigger] data[i]).len() > 0,
    {
        let ghost i = it.index();
        let ghost start = i - row.len();
        let ghost line = s@.skip(start);
        if c == '\n' {
            proof {
                lemma_line_end(line, i - start);
                assert(line.take(i - start) =~= s@.subrange(start, i));
                assert(line.skip(i - start + 1) =~= s@.skip(i + 1));
            }
            if row.len() > 0 {
                let ghost before = grid_of(data@);
                data.push(row);
                proof {
                    assert(grid_of(data@) =~= before + seq![row_of(s@.subrange(start, i))]);
                    assert(before + (seq![row_of(s@.subrange(start, i))] + rows_of_text(
                        s@.skip(i + 1),
                    )) =~= grid_of(data@) + rows_of_text(s@.skip(i + 1)));
                }
                row = Vec::new();
            }
            proof {
                assert(row@ =~= row_of(s@.subrange(i + 1, i + 1)));
            }
        } else {
            row.push(c != '0' && c != ' ');
            proof {
                assert(row@ =~= row_of(s@.subrange(start, i + 1)));
            }
        }
    }
    let ghost n = s@.len() as int;
    let ghost start = n - row.len();
    proof {
        let line = s@.skip(start);
        lemma_line_end(line, n - start);
        assert(line.take(n - start) =~= s@.subrange(start, n));
    }
    if row.len() > 0 {
        let ghost before = grid_of(data@);
        data.push(row);
        proof {
            assert(grid_of(data@) =~= before + seq![row_of(s@.subrange(start, n))]);
        }
    } else {
        proof {
            assert(grid_of(data@) + Seq::<Seq<bool>>::empty() =~= grid_of(data@));
        }
    }
    data
}

/// Takes one more line of input into `text`. A line that is not empty is
/// added with a line break after it, and more lines may follow; an empty
/// line ends the input and leaves `text` as it is.
pub fn push_line(text: &mut String, line: &str) -> (more: bool)
    ensures
        more == (line@.len() > 0),
        final(text)@ == if more {
            old(text)@ + line@ + seq!['\n']
        } else {
            old(text)@
        },
{
    if line.is_empty() {
        false
    } else {
        text.append(line);
        text.append("\n");
        proof {
            reveal_strlit("\n");
            assert("\n"@ =~= seq!['\n']);
        }
        true
    }
}

} // verus!
