//! The board as text for the console.

use vstd::prelude::*;
use vstd::string::*;
use crate::board::Game;

verus! {

impl Game {
    /// One row as text: the three squares between bars, a blank between
    /// neighbours.
    pub open spec fn row_text(&self, row: int) -> Seq<char> {
        seq![
            '|',
            self@[(row, 1)].glyph(),
            ' ',
            self@[(row, 2)].glyph(),
            ' ',
            self@[(row, 3)].glyph(),
            '|',
        ]
    }

    /// The board as text: the three rows from the top, a line feed between
    /// them and none at the end.
    pub open spec fn text(&self) -> Seq<char> {
        self.row_text(1) + seq!['\n'] + self.row_text(2) + seq!['\n'] + self.row_text(3)
    }

    /// Appends the text of row `row` to `out`.
    fn push_row(&self, row: usize, out: &mut String)
        requires
            1 <= row <= 3,
        ensures
            final(out)@ == old(out)@ + self.row_text(row as int),
    {
        proof {
            reveal_strlit("|");
            reveal_strlit(" ");
        }
        out.append("|");
        out.append(self.at(row, 1).symbol());
        out.append(" ");
        out.append(self.at(row, 2).symbol());
        out.append(" ");
        out.append(self.at(row, 3).symbol());
        out.append("|");
        assert(out@ =~= old(out)@ + self.row_text(row as int));
    }

    /// The board as three lines of text, each of the form `|X O  |`.
    pub fn render(&self) -> (s: String)
        ensures
            s@ == self.text(),
    {
        proof {
            reveal_strlit("\n");
        }
        let mut out = String::new();
        self.push_row(1, &mut out);
        out.append("\n");
        self.push_row(2, &mut out);
        out.append("\n");
        self.push_row(3, &mut out);
        assert(out@ =~= self.text());
        out
    }
}

} // verus!
