//! Text rendering of a generation: a header line with the cycle number, then
//! one line per grid row with one glyph per cell.

use vstd::prelude::*;

use crate::game::GameState;
use crate::grid::CellState;

verus! {

/// The glyph a cell is drawn as: `'o'` for an alive cell, a space for a dead
/// one.
pub open spec fn glyph(cell: CellState) -> char {
    if cell == CellState::Alive {
        'o'
    } else {
        ' '
    }
}

/// One grid row as its line of glyphs, without the terminating newline.
pub open spec fn row_chars(row: Seq<CellState>) -> Seq<char> {
    row.map_values(|cell: CellState| glyph(cell))
}

/// All grid rows as text, each row's glyphs followed by a newline.
pub open spec fn rows_chars(g: Seq<Seq<CellState>>) -> Seq<char>
    decreases g.len(),
{
    if g.len() == 0 {
        Seq::empty()
    } else {
        rows_chars(g.drop_last()) + row_chars(g.last()) + seq!['\n']
    }
}

/// The decimal digit character for `d` in `[0, 10)`.
pub open spec fn digit_char(d: int) -> char {
    if d == 0 {
        '0'
    } else if d == 1 {
        '1'
    } else if d == 2 {
        '2'
    } else if d == 3 {
        '3'
    } else if d == 4 {
        '4'
    } else if d == 5 {
        '5'
    } else if d == 6 {
        '6'
    } else if d == 7 {
        '7'
    } else if d == 8 {
        '8'
    } else {
        '9'
    }
}

/// The decimal digits of a non-negative number, most significant first, with
/// no leading zeros except for the number 0 itself.
pub open spec fn dec_digits(n: int) -> Seq<char>
    recommends
        n >= 0,
    decreases n,
{
    if n < 10 {
        seq![digit_char(n)]
    } else {
        dec_digits(n / 10).push(digit_char(n % 10))
    }
}

/// The full rendering of a generation: the line `cycle: <n>`, then the grid.
pub open spec fn render_chars(cycle: int, g: Seq<Seq<CellState>>) -> Seq<char> {
    seq!['c', 'y', 'c', 'l', 'e', ':', ' '] + dec_digits(cycle) + seq!['\n'] + rows_chars(g)
}

/// The one-character string for a decimal digit.
fn digit_str(d: u64) -> (r: &'static str)
    requires
        d < 10,
    ensures
        r@ == seq![digit_char(d as int)],
{
    proof {
        reveal_strlit("0");
        reveal_strlit("1");
        reveal_strlit("2");
        reveal_strlit("3");
        reveal_strlit("4");
        reveal_strlit("5");
        reveal_strlit("6");
        reveal_strlit("7");
        reveal_strlit("8");
        reveal_strlit("9");
    }
    let r: &'static str = if d == 0 {
        "0"
    } else if d == 1 {
        "1"
    } else if d == 2 {
        "2"
    } else if d == 3 {
        "3"
    } else if d == 4 {
        "4"
    } else if d == 5 {
        "5"
    } else if d == 6 {
        "6"
    } else if d == 7 {
        "7"
    } else if d == 8 {
        "8"
    } else {
        "9"
    };
    proof {
        assert(r@ =~= seq![digit_char(d as int)]);
    }
    r
}

/// Format a number in decimal, most significant digit first.
pub fn u64_to_dec(n: u64) -> (r: String)
    ensures
        r@ == dec_digits(n as int),
    decreases n,
{
    if n < 10 {
        let r = String::from_str(digit_str(n));
        r
    } else {
        proof {
            assert(n / 10 < n) by (nonlinear_arith)
                requires
                    n >= 10,
            ;
        }
        let mut r = u64_to_dec(n / 10);
        r.append(digit_str(n % 10));
        proof {
            assert(dec_digits((n / 10) as int) + seq![digit_char(n as int % 10)] =~= dec_digits(
                (n / 10) as int,
            ).push(digit_char(n as int % 10)));
        }
        r
    }
}

impl GameState {
    /// Render this generation as text: the line `cycle: <n>`, then one line
    /// per grid row, one glyph per cell, each line newline-terminated.
    pub fn render(&self) -> (r: String)
        ensures
            r@ == render_chars(self.cycle as int, self.grid()),
    {
        let ghost g = self.grid();
        let mut text = String::from_str("cycle: ");
        proof {
            reveal_strlit("cycle: ");
            assert(text@ =~= seq!['c', 'y', 'c', 'l', 'e', ':', ' ']);
        }
        let digits = u64_to_dec(self.cycle);
        text.append(digits.as_str());
        text.append("\n");
        proof {
            reveal_strlit("\n");
            assert("\n"@ =~= seq!['\n']);
        }
        let ghost header = seq!['c', 'y', 'c', 'l', 'e', ':', ' '] + dec_digits(self.cycle as int)
            + seq!['\n'];
        let mut r: usize = 0;
        while r < self.cells.len()
            invariant
                g == self.grid(),
                r <= self.cells@.len(),
                header == seq!['c', 'y', 'c', 'l', 'e', ':', ' '] + dec_digits(self.cycle as int)
                    + seq!['\n'],
                text@ == header + rows_chars(g.take(r as int)),
            decreases self.cells@.len() - r,
        {
            let row = &self.cells[r];
            let ghost row_start = text@;
            let mut c: usize = 0;
            while c < row.len()
                invariant
                    row@ == self.cells@[r as int]@,
                    r < self.cells@.len(),
                    g == self.grid(),
                    c <= row@.len(),
                    text@ == row_start + row_chars(row@.take(c as int)),
                decreases row@.len() - c,
            {
                proof {
                    reveal_strlit("o");
                    reveal_strlit(" ");
                    assert(row@.take(c as int + 1).drop_last() =~= row@.take(c as int));
                    assert(row_chars(row@.take(c as int + 1)) =~= row_chars(
                        row@.take(c as int),
                    ).push(glyph(row@[c as int])));
                }
                if row[c] == CellState::Alive {
                    text.append("o");
                    proof {
                        assert("o"@ =~= seq!['o']);
                    }
                } else {
                    text.append(" ");
                    proof {
                        assert(" "@ =~= seq![' ']);
                    }
                }
                proof {
                    assert(text@ =~= row_start + row_chars(row@.take(c as int + 1)));
                }
                c = c + 1;
            }
            text.append("\n");
            proof {
                reveal_strlit("\n");
                assert("\n"@ =~= seq!['\n']);
                assert(row@.take(row@.len() as int) =~= row@);
                assert(g[r as int] == self.cells@[r as int]@);
                assert(g.take(r as int + 1).drop_last() =~= g.take(r as int));
                assert(g.take(r as int + 1).last() == g[r as int]);
                assert(rows_chars(g.take(r as int + 1)) == rows_chars(g.take(r as int))
                    + row_chars(g[r as int]) + seq!['\n']);
                assert(text@ =~= header + rows_chars(g.take(r as int + 1)));
            }
            r = r + 1;
        }
        proof {
            assert(g.take(self.cells@.len() as int) =~= g);
        }
        text
    }
}

} // verus!
