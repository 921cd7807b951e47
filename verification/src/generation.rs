//! The mathematical model of one generation of the automaton.
//!
//! A generation is a rectangle of liveness bits stored row by row: the bit of
//! the point `(x, y)` stands at position `y * width + x`.  Everything that
//! the executable grid does is stated against the functions of this module.
use crate::cell::conway_rule;
use vstd::arithmetic::div_mod::lemma_fundamental_div_mod;
use vstd::arithmetic::div_mod::lemma_fundamental_div_mod_converse;
use vstd::prelude::*;

verus! {

/// One generation: the extent of the board and the liveness of every cell.
pub struct Generation {
    pub width: nat,
    pub height: nat,
    pub alive: Seq<bool>,
}

impl Generation {
    /// There is exactly one liveness bit per point of the rectangle.
    pub open spec fn wf(self) -> bool {
        self.alive.len() == self.width * self.height
    }

    /// Whether `(x, y)` lies on the board.  The board is bounded: nothing
    /// wraps around.
    pub open spec fn in_range(self, x: int, y: int) -> bool {
        0 <= x < self.width && 0 <= y < self.height
    }

    /// The position at which the bit of `(x, y)` is stored.
    pub open spec fn index_of(self, x: int, y: int) -> int {
        y * self.width + x
    }

    /// The column of the point stored at position `i`.
    pub open spec fn column_of(self, i: int) -> int {
        i % (self.width as int)
    }

    /// The row of the point stored at position `i`.
    pub open spec fn row_of(self, i: int) -> int {
        i / (self.width as int)
    }

    /// Whether the cell at `(x, y)` is alive.  A point off the board is
    /// never alive.
    pub open spec fn alive_at(self, x: int, y: int) -> bool {
        self.in_range(x, y) && self.alive[self.index_of(x, y)]
    }

    /// One if the cell at `(x, y)` is alive, zero otherwise.
    pub open spec fn live(self, x: int, y: int) -> nat {
        if self.alive_at(x, y) {
            1
        } else {
            0
        }
    }

    /// The number of live cells among the eight points adjacent to `(x, y)`.
    pub open spec fn alive_neighbours(self, x: int, y: int) -> nat {
        self.live(x - 1, y - 1) + self.live(x - 1, y) + self.live(x - 1, y + 1)
            + self.live(x, y - 1) + self.live(x, y + 1)
            + self.live(x + 1, y - 1) + self.live(x + 1, y) + self.live(x + 1, y + 1)
    }

    /// Horizontal offset number `k` of the 3x3 window around a point, which
    /// is scanned column by column; offset number 4 is the centre.
    pub open spec fn window_dx(k: int) -> int {
        k / 3 - 1
    }

    /// Vertical offset number `k` of the 3x3 window around a point.
    pub open spec fn window_dy(k: int) -> int {
        k % 3 - 1
    }

    /// The points adjacent to `(x, y)` that lie on the board, as found among
    /// the first `k` offsets of the window, in scan order.
    pub open spec fn neighbours_among(self, x: int, y: int, k: nat) -> Seq<(int, int)>
        decreases k,
    {
        if k == 0 {
            Seq::empty()
        } else {
            let before = self.neighbours_among(x, y, (k - 1) as nat);
            let p = (x + Self::window_dx(k - 1), y + Self::window_dy(k - 1));
            if k - 1 != 4 && self.in_range(p.0, p.1) {
                before.push(p)
            } else {
                before
            }
        }
    }

    /// The neighbourhood of `(x, y)`: its up to eight adjacent points that
    /// lie on the board, in scan order.
    pub open spec fn neighbours(self, x: int, y: int) -> Seq<(int, int)> {
        self.neighbours_among(x, y, 9)
    }

    /// How many of the given points hold a live cell.
    pub open spec fn count_alive(self, points: Seq<(int, int)>) -> nat
        decreases points.len(),
    {
        if points.len() == 0 {
            0
        } else {
            self.count_alive(points.drop_last()) + self.live(points.last().0, points.last().1)
        }
    }

    /// Liveness, in the next generation, of the cell stored at position `i`.
    pub open spec fn next_alive(self, i: int) -> bool {
        conway_rule(self.alive[i], self.alive_neighbours(self.column_of(i), self.row_of(i)))
    }

    /// The next generation: every cell is judged against the present
    /// generation only.
    pub open spec fn step(self) -> Generation {
        Generation {
            width: self.width,
            height: self.height,
            alive: Seq::new(self.alive.len(), |i: int| self.next_alive(i)),
        }
    }

    /// The generation reached after `n` steps.
    pub open spec fn steps(self, n: nat) -> Generation
        decreases n,
    {
        if n == 0 {
            self
        } else {
            self.step().steps((n - 1) as nat)
        }
    }

    /// Every point of a neighbourhood lies on the board, and there are at
    /// most eight of them.
    pub proof fn lemma_neighbours_among(self, x: int, y: int, k: nat)
        requires
            k <= 9,
        ensures
            self.neighbours_among(x, y, k).len() <= k,
            k > 4 ==> self.neighbours_among(x, y, k).len() < k,
            forall|j: int|
                0 <= j < self.neighbours_among(x, y, k).len() ==> {
                    let p = #[trigger] self.neighbours_among(x, y, k)[j];
                    self.in_range(p.0, p.1)
                },
        decreases k,
    {
        if k > 0 {
            self.lemma_neighbours_among(x, y, (k - 1) as nat);
        }
    }

    /// Scanning one more offset of the window adds the liveness of the point
    /// that it leads to, unless it is the centre.
    proof fn lemma_count_alive_step(self, x: int, y: int, k: nat)
        requires
            1 <= k <= 9,
        ensures
            self.count_alive(self.neighbours_among(x, y, k)) == self.count_alive(
                self.neighbours_among(x, y, (k - 1) as nat),
            ) + if k - 1 != 4 {
                self.live(x + Self::window_dx(k - 1), y + Self::window_dy(k - 1))
            } else {
                0
            },
    {
        let before = self.neighbours_among(x, y, (k - 1) as nat);
        let p = (x + Self::window_dx(k - 1), y + Self::window_dy(k - 1));
        if k - 1 != 4 && self.in_range(p.0, p.1) {
            assert(before.push(p).drop_last() =~= before);
            assert(before.push(p).last() == p);
        }
    }

    /// The number of live neighbours is the number of live cells in the
    /// neighbourhood.
    pub proof fn lemma_alive_neighbours_counts_neighbourhood(self, x: int, y: int)
        ensures
            self.alive_neighbours(x, y) == self.count_alive(self.neighbours(x, y)),
            self.alive_neighbours(x, y) <= 8,
    {
        assert(self.count_alive(self.neighbours_among(x, y, 0)) == 0);
        self.lemma_count_alive_step(x, y, 1);
        self.lemma_count_alive_step(x, y, 2);
        self.lemma_count_alive_step(x, y, 3);
        self.lemma_count_alive_step(x, y, 4);
        self.lemma_count_alive_step(x, y, 5);
        self.lemma_count_alive_step(x, y, 6);
        self.lemma_count_alive_step(x, y, 7);
        self.lemma_count_alive_step(x, y, 8);
        self.lemma_count_alive_step(x, y, 9);
    }

    /// A point on the board is stored at a position inside the sequence, and
    /// that position leads back to the point.
    pub proof fn lemma_index_of_in_range(self, x: int, y: int)
        requires
            self.wf(),
            self.in_range(x, y),
        ensures
            0 <= self.index_of(x, y) < self.alive.len(),
            self.column_of(self.index_of(x, y)) == x,
            self.row_of(self.index_of(x, y)) == y,
    {
        let w = self.width as int;
        let h = self.height as int;
        assert(y * w + x < w * h) by (nonlinear_arith)
            requires
                0 <= x < w,
                0 <= y < h,
        ;
        assert(0 <= y * w) by (nonlinear_arith)
            requires
                0 <= y,
                0 <= w,
        ;
        lemma_fundamental_div_mod_converse(self.index_of(x, y), w, y, x);
    }

    /// A position inside the sequence holds a point on the board, and that
    /// point leads back to the position.
    pub proof fn lemma_position_in_range(self, i: int)
        requires
            self.wf(),
            0 <= i < self.alive.len(),
        ensures
            self.in_range(self.column_of(i), self.row_of(i)),
            self.index_of(self.column_of(i), self.row_of(i)) == i,
    {
        let w = self.width as int;
        let h = self.height as int;
        assert(w > 0) by (nonlinear_arith)
            requires
                0 <= i < w * h,
                0 <= w,
        ;
        lemma_fundamental_div_mod(i, w);
        let q = i / w;
        let r = i % w;
        assert(w * q == q * w) by (nonlinear_arith);
        assert(0 <= q < h) by (nonlinear_arith)
            requires
                i == q * w + r,
                0 <= r < w,
                0 <= i < w * h,
        ;
    }
}

} // verus!
