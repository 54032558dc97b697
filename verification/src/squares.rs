//! The nine squares in row-major order, and those of them that are free.

use vstd::prelude::*;
use crate::board::{on_board, Game};
use crate::cell::Cell;

verus! {

/// The square with number `n`, counting from 0 along the rows from the top.
pub open spec fn square_of(n: int) -> (int, int) {
    (n / 3 + 1, n % 3 + 1)
}

/// The nine squares in row-major order.
pub open spec fn all_squares() -> Seq<(int, int)> {
    Seq::new(9, |n: int| square_of(n))
}

/// A list of squares as the machine holds it, read as mathematical pairs.
pub open spec fn as_squares(cells: Seq<(usize, usize)>) -> Seq<(int, int)> {
    cells.map_values(|p: (usize, usize)| (p.0 as int, p.1 as int))
}

/// The square with number `n`: row `n / 3 + 1`, column `n % 3 + 1`.
pub fn square_at(n: usize) -> (p: (usize, usize))
    ensures
        (p.0 as int, p.1 as int) == square_of(n as int),
        n < 9 ==> on_board(p.0 as int, p.1 as int),
{
    (n / 3 + 1, n % 3 + 1)
}

/// The number of the square `p`: the inverse of `square_of` on the board.
pub open spec fn number_of(p: (int, int)) -> int {
    3 * (p.0 - 1) + (p.1 - 1)
}

/// Each number below nine names a square of the board, which has that
/// number, and no two of them name the same square.
pub proof fn lemma_square_of(i: int, j: int)
    requires
        0 <= i < 9,
        0 <= j < 9,
    ensures
        on_board(square_of(i).0, square_of(i).1),
        number_of(square_of(i)) == i,
        square_of(i) == square_of(j) ==> i == j,
{
}

/// Every square of the board has a number below nine, and `square_of` finds
/// the square again from it.
pub proof fn lemma_number_of(row: int, col: int)
    requires
        on_board(row, col),
    ensures
        0 <= number_of((row, col)) < 9,
        square_of(number_of((row, col))) == (row, col),
{
}

impl Game {
    /// The test for a free square, as a function on squares.
    pub open spec fn is_open(&self) -> spec_fn((int, int)) -> bool {
        |p: (int, int)| self.available(p.0, p.1)
    }

    /// The free squares, in row-major order.
    pub open spec fn open_squares(&self) -> Seq<(int, int)> {
        all_squares().filter(self.is_open())
    }

    /// The free squares among the first `n`.
    spec fn open_among(&self, n: int) -> Seq<(int, int)> {
        all_squares().take(n).filter(self.is_open())
    }

    /// Taking one more square into account appends it if it is free.
    proof fn lemma_open_among_step(&self, n: int)
        requires
            0 <= n < 9,
        ensures
            self.open_among(0) == Seq::<(int, int)>::empty(),
            self.open_among(9) == self.open_squares(),
            self.open_among(n + 1) == if self.available(square_of(n).0, square_of(n).1) {
                self.open_among(n).push(square_of(n))
            } else {
                self.open_among(n)
            },
    {
        reveal(Seq::filter);
        let s = all_squares().take(n + 1);
        assert(s.drop_last() =~= all_squares().take(n));
        assert(s.last() == square_of(n));
        assert(all_squares().take(9) =~= all_squares());
        assert(all_squares().take(0) =~= Seq::<(int, int)>::empty());
    }

    /// What the free squares among the first `n` are: each is free and has a
    /// number below `n`, they stand in the order of their numbers, and no
    /// free square below `n` is missing.
    proof fn lemma_open_among(&self, n: int)
        requires
            0 <= n <= 9,
        ensures
            forall|k: int|
                0 <= k < self.open_among(n).len() ==> {
                    let p = #[trigger] self.open_among(n)[k];
                    self.available(p.0, p.1) && 0 <= number_of(p) < n
                },
            forall|k1: int, k2: int|
                0 <= k1 < k2 < self.open_among(n).len() ==> number_of(
                    #[trigger] self.open_among(n)[k1],
                ) < number_of(#[trigger] self.open_among(n)[k2]),
            forall|i: int|
                0 <= i < n && self.available(square_of(i).0, square_of(i).1)
                    ==> self.open_among(n).contains(#[trigger] square_of(i)),
        decreases n,
    {
        if n == 0 {
            self.lemma_open_among_step(0);
        } else {
            self.lemma_open_among(n - 1);
            self.lemma_open_among_step(n - 1);
            let shorter = self.open_among(n - 1);
            let longer = self.open_among(n);
            lemma_square_of(n - 1, 0);
            assert forall|i: int|
                0 <= i < n && self.available(square_of(i).0, square_of(i).1) implies longer.contains(
                #[trigger] square_of(i),
            ) by {
                if i < n - 1 {
                    let k = choose|k: int| 0 <= k < shorter.len() && shorter[k] == square_of(i);
                    assert(longer[k] == square_of(i));
                } else {
                    assert(longer[longer.len() - 1] == square_of(i));
                }
            }
        }
    }

    /// The free squares are exactly the squares that `available` accepts,
    /// each listed once, in the order of their numbers; there are none if
    /// and only if the board is full.
    pub proof fn lemma_open_squares(&self)
        ensures
            forall|row: int, col: int|
                self.open_squares().contains((row, col)) <==> self.available(row, col),
            forall|k1: int, k2: int|
                0 <= k1 < k2 < self.open_squares().len() ==> number_of(
                    #[trigger] self.open_squares()[k1],
                ) < number_of(#[trigger] self.open_squares()[k2]),
            self.open_squares().no_duplicates(),
            self.open_squares().len() <= 9,
            self.full() <==> self.open_squares().len() == 0,
    {
        self.lemma_open_among(9);
        self.lemma_open_among_step(0);
        let open = self.open_squares();
        assert forall|row: int, col: int| self.available(row, col) implies open.contains(
            (row, col),
        ) by {
            lemma_number_of(row, col);
            assert(square_of(number_of((row, col))) == (row, col));
        }
        assert forall|row: int, col: int| open.contains((row, col)) implies self.available(
            row,
            col,
        ) by {
            let k = choose|k: int| 0 <= k < open.len() && open[k] == (row, col);
            assert(self.available(open[k].0, open[k].1));
        }
        all_squares().lemma_filter_len(self.is_open());
        if open.len() > 0 {
            assert(self.available(open[0].0, open[0].1));
        }
        if !self.full() {
            let (row, col) = choose|row: int, col: int|
                on_board(row, col) && self.available(row, col);
            assert(open.contains((row, col)));
        }
    }

    /// The free squares of the board, in row-major order.
    pub fn available_cells(&self) -> (cells: Vec<(usize, usize)>)
        ensures
            as_squares(cells@) == self.open_squares(),
    {
        let mut cells: Vec<(usize, usize)> = Vec::new();
        let mut n: usize = 0;
        proof {
            self.lemma_open_among_step(0);
            assert(as_squares(cells@) =~= self.open_among(0));
        }
        while n < 9
            invariant
                n <= 9,
                as_squares(cells@) == self.open_among(n as int),
            decreases 9 - n,
        {
            let p = square_at(n);
            let ghost before = cells@;
            if self.cell_is_avail(p.0, p.1) {
                cells.push(p);
                assert(as_squares(cells@) =~= as_squares(before).push(square_of(n as int)));
            }
            proof {
                self.lemma_open_among_step(n as int);
            }
            n += 1;
        }
        proof {
            self.lemma_open_among_step(0);
        }
        cells
    }
}

/// On a board without marks the free squares among the first `n` are
/// those `n` squares.
proof fn lemma_open_among_unmarked(g: Game, n: int)
    requires
        0 <= n <= 9,
        g@ == Game::empty_grid(),
    ensures
        g.open_among(n) == all_squares().take(n),
    decreases n,
{
    if n == 0 {
        g.lemma_open_among_step(0);
        assert(all_squares().take(0) =~= Seq::<(int, int)>::empty());
    } else {
        lemma_open_among_unmarked(g, n - 1);
        g.lemma_open_among_step(n - 1);
        lemma_square_of(n - 1, 0);
        assert(all_squares().take(n) =~= all_squares().take(n - 1).push(square_of(n - 1)));
    }
}

/// On a board without marks all nine squares are free.
pub proof fn lemma_unmarked_board_open(g: Game)
    requires
        g@ == Game::empty_grid(),
    ensures
        g.open_squares() == all_squares(),
{
    lemma_open_among_unmarked(g, 9);
    g.lemma_open_among_step(0);
    assert(all_squares().take(9) =~= all_squares());
}

/// Marking a free square leaves one free square fewer among the first `n`
/// if the square is one of them, and as many as before if not.
proof fn lemma_open_among_marked(before: Game, after: Game, j: int, c: Cell, n: int)
    requires
        0 <= j < 9,
        0 <= n <= 9,
        before.available(square_of(j).0, square_of(j).1),
        c.is_mark(),
        after@ == before@.insert(square_of(j), c),
    ensures
        after.open_among(n).len() + (if j < n { 1int } else { 0int }) == before.open_among(n).len(),
    decreases n,
{
    if n == 0 {
        before.lemma_open_among_step(0);
        after.lemma_open_among_step(0);
    } else {
        lemma_open_among_marked(before, after, j, c, n - 1);
        before.lemma_open_among_step(n - 1);
        after.lemma_open_among_step(n - 1);
        lemma_square_of(n - 1, j);
    }
}

/// Marking a free square leaves one free square fewer.
pub proof fn lemma_mark_closes_square(before: Game, after: Game, row: int, col: int, c: Cell)
    requires
        before.available(row, col),
        c.is_mark(),
        after@ == before@.insert((row, col), c),
    ensures
        after.open_squares().len() + 1 == before.open_squares().len(),
        forall|r: int, k: int|
            after.available(r, k) <==> before.available(r, k) && (r, k) != (row, col),
{
    lemma_number_of(row, col);
    lemma_open_among_marked(before, after, number_of((row, col)), c, 9);
    before.lemma_open_among_step(0);
    after.lemma_open_among_step(0);
}

} // verus!
