//! A debug text rendering of the grid: one glyph per cell — `'.'` for empty
//! space, `'#'` for any material — and one line per row. Meant for tests and
//! tracing, not production drawing.

use vstd::prelude::*;
use vstd::string::StringExecFns;

use crate::cell::CellType;
use crate::universe::{GridView, Universe};

verus! {

/// The glyph a cell renders as: empty space or solid block.
pub open spec fn glyph(ct: CellType) -> char {
    if ct == CellType::Dead {
        '.'
    } else {
        '#'
    }
}

/// One rendered row: a glyph per column, closed by a newline.
pub open spec fn row_glyphs(g: GridView, row: int) -> Seq<char> {
    Seq::new(g.width as nat, |c: int| glyph(g.cell_at(row, c).id)).push('\n')
}

/// The first `upto` rendered rows, concatenated.
pub open spec fn rows_glyphs(g: GridView, upto: int) -> Seq<char>
    decreases upto,
{
    if upto <= 0 {
        Seq::empty()
    } else {
        rows_glyphs(g, upto - 1) + row_glyphs(g, upto - 1)
    }
}

/// The full rendering of a grid: every row, top to bottom.
pub open spec fn spec_render(g: GridView) -> Seq<char> {
    rows_glyphs(g, g.height)
}

impl Universe {
    /// Render the grid as text, one glyph per cell and one line per row.
    #[verifier::loop_isolation(false)]
    pub fn render_to_console(&self) -> (s: String)
        requires
            self.wf(),
        ensures
            s@ == spec_render(self@),
    {
        let mut s = String::new();
        let mut row: u32 = 0;
        while row < self.height
            invariant
                row <= self.height,
                s@ == rows_glyphs(self@, row as int),
            decreases self.height - row,
        {
            let mut col: u32 = 0;
            while col < self.width
                invariant
                    row < self.height,
                    col <= self.width,
                    s@ == rows_glyphs(self@, row as int) + Seq::new(
                        col as nat,
                        |c: int| glyph(self@.cell_at(row as int, c).id),
                    ),
                decreases self.width - col,
            {
                let idx = self.get_index(row, col);
                if self.cells[idx].id == CellType::Dead {
                    s.append(".");
                    proof {
                        reveal_strlit(".");
                    }
                } else {
                    s.append("#");
                    proof {
                        reveal_strlit("#");
                    }
                }
                proof {
                    assert(s@ =~= rows_glyphs(self@, row as int) + Seq::new(
                        (col + 1) as nat,
                        |c: int| glyph(self@.cell_at(row as int, c).id),
                    ));
                }
                col = col + 1;
            }
            s.append("\n");
            proof {
                reveal_strlit("\n");
                assert(s@ =~= rows_glyphs(self@, row as int + 1));
            }
            row = row + 1;
        }
        s
    }
}

} // verus!
