//! The board: storage, indexing, neighbourhoods and the generation step.
use crate::cell::Cell;
use crate::generation::Generation;
use crate::point::Point;
use crate::seed::random_bool;
use core::convert::TryFrom;
use rand::thread_rng;
use rayon::iter::IntoParallelIterator;
use rayon::iter::ParallelIterator;
use vstd::prelude::*;

verus! {

/// A bounded rectangular board of cells, stored row by row.
pub struct Grid {
    width: usize,
    height: usize,
    cells: Vec<Cell>,
}

impl View for Grid {
    type V = Generation;

    /// The generation that the board currently shows.
    closed spec fn view(&self) -> Generation {
        Generation {
            width: self.width as nat,
            height: self.height as nat,
            alive: self.cells@.map_values(|c: Cell| c.state),
        }
    }
}

impl Grid {
    /// The cells in storage order.
    pub closed spec fn cells_view(&self) -> Seq<Cell> {
        self.cells@
    }

    /// The invariant of a board: one cell per point, each at the position
    /// that its coordinates name, each showing the bit of the generation.
    pub open spec fn wf(&self) -> bool {
        &&& self@.wf()
        &&& self@.width <= usize::MAX
        &&& self@.height <= usize::MAX
        &&& self@.alive.len() <= isize::MAX
        &&& self.cells_view().len() == self@.alive.len()
        &&& forall|i: int|
            0 <= i < self.cells_view().len() ==> #[trigger] self.cells_view()[i] == (Cell {
                x: self@.column_of(i) as usize,
                y: self@.row_of(i) as usize,
                state: self@.alive[i],
            })
    }

    /// Every board that exists satisfies [`Grid::wf`].
    #[verifier::type_invariant]
    spec fn inv(&self) -> bool {
        self.wf()
    }

    /// A fresh board of the given extent in which every cell is alive or
    /// dead by chance.  The extent is limited to what a vector can hold.
    pub fn new(width: usize, height: usize) -> (grid: Self)
        requires
            width * height <= isize::MAX,
        ensures
            grid.wf(),
            grid@.width == width,
            grid@.height == height,
    {
        let n = width * height;
        let mut rng = thread_rng();
        let mut states: Vec<bool> = Vec::new();
        for i in 0..n
            invariant
                states@.len() == i,
        {
            states.push(random_bool(&mut rng));
        }
        Self::from_states(width, height, &states).unwrap()
    }

    /// Builds the board of the given extent whose cells show `states`, read
    /// row by row.  There is no such board when the number of states is not
    /// `width * height`, or when that many cells cannot be stored.
    pub fn from_states(width: usize, height: usize, states: &Vec<bool>) -> (r: Option<Grid>)
        ensures
            r is Some <==> states@.len() == width * height && states@.len() <= isize::MAX,
            r matches Some(g) ==> g.wf() && g@ == (Generation {
                width: width as nat,
                height: height as nat,
                alive: states@,
            }),
    {
        let n = match width.checked_mul(height) {
            Some(n) => n,
            None => {
                return None;
            },
        };
        if states.len() != n || n > isize::MAX as usize {
            return None;
        }
        let ghost model = Generation {
            width: width as nat,
            height: height as nat,
            alive: states@,
        };
        let mut cells: Vec<Cell> = Vec::new();
        let mut y: usize = 0;
        while y < height
            invariant
                y <= height,
                n == width * height,
                states@.len() == n,
                model == (Generation {
                    width: width as nat,
                    height: height as nat,
                    alive: states@,
                }),
                cells@.len() == y * width,
                forall|i: int|
                    0 <= i < cells@.len() ==> #[trigger] cells@[i] == (Cell {
                        x: model.column_of(i) as usize,
                        y: model.row_of(i) as usize,
                        state: states@[i],
                    }),
            decreases height - y,
        {
            let mut x: usize = 0;
            while x < width
                invariant
                    x <= width,
                    y < height,
                    n == width * height,
                    states@.len() == n,
                    model == (Generation {
                        width: width as nat,
                        height: height as nat,
                        alive: states@,
                    }),
                    cells@.len() == y * width + x,
                    forall|i: int|
                        0 <= i < cells@.len() ==> #[trigger] cells@[i] == (Cell {
                            x: model.column_of(i) as usize,
                            y: model.row_of(i) as usize,
                            state: states@[i],
                        }),
                decreases width - x,
            {
                proof {
                    model.lemma_index_of_in_range(x as int, y as int);
                }
                let idx = cells.len();
                cells.push(Cell::new(states[idx], x, y));
                x += 1;
            }
            y += 1;
            assert(cells@.len() == y * width) by (nonlinear_arith)
                requires
                    cells@.len() == (y - 1) * width + width,
            ;
        }
        assert(cells@.len() == n) by (nonlinear_arith)
            requires
                cells@.len() == y * width,
                y == height,
                n == width * height,
        ;
        let grid = Grid { width, height, cells };
        assert(grid@.alive =~= states@);
        Some(grid)
    }

    /// The number of columns.
    pub fn width(&self) -> (w: usize)
        ensures
            w == self@.width,
    {
        self.width
    }

    /// The number of rows.
    pub fn height(&self) -> (h: usize)
        ensures
            h == self@.height,
    {
        self.height
    }

    /// All cells in storage order.  There are `width * height` of them, at
    /// all times.
    pub fn cells(&self) -> (cells: &Vec<Cell>)
        ensures
            cells@ == self.cells_view(),
            cells@.len() == self@.width * self@.height,
            self.wf(),
            forall|i: int| 0 <= i < cells@.len() ==> self.holds(&#[trigger] cells@[i]),
    {
        proof {
            use_type_invariant(self);
            assert forall|i: int| 0 <= i < self.cells@.len() implies self.holds(
                &#[trigger] self.cells@[i],
            ) by {
                self@.lemma_position_in_range(i);
            }
        }
        &self.cells
    }

    /// Whether `point` lies on the board.
    fn within_coords(&self, point: &Point) -> (b: bool)
        ensures
            b == self@.in_range(point.x as int, point.y as int),
    {
        point.x < self.width && point.y < self.height
    }

    /// The point stored at position `idx`, or `None` when the board has no
    /// such position.
    pub fn point_from_idx(&self, idx: usize) -> (r: Option<Point>)
        ensures
            r is Some <==> idx < self@.alive.len(),
            r matches Some(p) ==> p.x == self@.column_of(idx as int) && p.y == self@.row_of(
                idx as int,
            ),
    {
        proof {
            use_type_invariant(self);
        }
        if idx >= self.cells.len() {
            None
        } else {
            proof {
                self@.lemma_position_in_range(idx as int);
            }
            Some(Point { x: idx % self.width, y: idx / self.width })
        }
    }

    /// The position at which the cell of `point` is stored, or `None` when
    /// the point is off the board.
    pub fn idx_from_point(&self, point: &Point) -> (r: Option<usize>)
        ensures
            r is Some <==> self@.in_range(point.x as int, point.y as int),
            r matches Some(idx) ==> idx == self@.index_of(point.x as int, point.y as int),
    {
        if self.within_coords(point) {
            proof {
                use_type_invariant(self);
                self@.lemma_index_of_in_range(point.x as int, point.y as int);
            }
            Some(point.y * self.width + point.x)
        } else {
            None
        }
    }

    /// The cell at `point`, or `None` when the point is off the board.
    pub fn get_cell(&self, point: &Point) -> (r: Option<&Cell>)
        ensures
            r is Some <==> self@.in_range(point.x as int, point.y as int),
            r matches Some(cell) ==> *cell == (Cell {
                x: point.x,
                y: point.y,
                state: self@.alive_at(point.x as int, point.y as int),
            }) && *cell == self.cells_view()[self@.index_of(point.x as int, point.y as int)],
    {
        if let Some(idx) = self.idx_from_point(point) {
            proof {
                use_type_invariant(self);
                self@.lemma_index_of_in_range(point.x as int, point.y as int);
            }
            Some(&self.cells[idx])
        } else {
            None
        }
    }

    /// Whether `cell` is one of the board's cells, as far as its coordinates
    /// tell.
    pub open spec fn holds(&self, cell: &Cell) -> bool {
        self@.in_range(cell.x as int, cell.y as int)
    }

    /// The cells of the neighbourhood of `cell`, in scan order.  Points off
    /// the board are left out: the board does not wrap around.
    fn get_neighbours(&self, cell: &Cell) -> (neighbours: Vec<&Cell>)
        requires
            self.holds(cell),
        ensures
            neighbours@.len() == self@.neighbours(cell.x as int, cell.y as int).len(),
            forall|j: int|
                0 <= j < neighbours@.len() ==> {
                    let p = self@.neighbours(cell.x as int, cell.y as int)[j];
                    *(#[trigger] neighbours@[j]) == self.cells_view()[self@.index_of(p.0, p.1)]
                },
    {
        let ghost x = cell.x as int;
        let ghost y = cell.y as int;
        proof {
            use_type_invariant(self);
            self@.lemma_index_of_in_range(x, y);
            assert(y <= y * self@.width) by (nonlinear_arith)
                requires
                    0 <= y,
                    1 <= self@.width,
            ;
        }
        let mut neighbours: Vec<&Cell> = Vec::new();
        for dx in -1isize..2
            invariant
                self.wf(),
                x == cell.x,
                y == cell.y,
                x < isize::MAX,
                y < isize::MAX,
                neighbours@.len() == self@.neighbours_among(x, y, ((dx + 1) * 3) as nat).len(),
                forall|j: int|
                    0 <= j < neighbours@.len() ==> {
                        let p = self@.neighbours_among(x, y, ((dx + 1) * 3) as nat)[j];
                        *(#[trigger] neighbours@[j]) == self.cells_view()[self@.index_of(p.0, p.1)]
                    },
        {
            for dy in -1isize..2
                invariant
                    self.wf(),
                    x == cell.x,
                    y == cell.y,
                    x < isize::MAX,
                    y < isize::MAX,
                    -1 <= dx <= 1,
                    neighbours@.len() == self@.neighbours_among(
                        x,
                        y,
                        ((dx + 1) * 3 + (dy + 1)) as nat,
                    ).len(),
                    forall|j: int|
                        0 <= j < neighbours@.len() ==> {
                            let p = self@.neighbours_among(x, y, ((dx + 1) * 3 + (dy + 1)) as nat)[j];
                            *(#[trigger] neighbours@[j]) == self.cells_view()[self@.index_of(
                                p.0,
                                p.1,
                            )]
                        },
            {
                let ghost k = (dx + 1) * 3 + (dy + 1);
                assert(Generation::window_dx(k) == dx && Generation::window_dy(k) == dy);
                if !(dx == 0 && dy == 0) {
                    let tuple = (cell.x as isize + dx, cell.y as isize + dy);
                    if let Ok(neighbour_point) = Point::try_from(tuple) {
                        if let Some(neighbour) = self.get_cell(&neighbour_point) {
                            neighbours.push(neighbour);
                        }
                    }
                }
            }
        }
        neighbours
    }

    /// The number of live cells adjacent to `cell`.
    pub fn nb_alive_neighbors(&self, cell: &Cell) -> (count: u8)
        requires
            self.holds(cell),
        ensures
            count == self@.alive_neighbours(cell.x as int, cell.y as int),
            count <= 8,
    {
        let ghost points = self@.neighbours(cell.x as int, cell.y as int);
        let neighbours = self.get_neighbours(cell);
        proof {
            use_type_invariant(self);
            self@.lemma_neighbours_among(cell.x as int, cell.y as int, 9);
            self@.lemma_alive_neighbours_counts_neighbourhood(cell.x as int, cell.y as int);
        }
        let mut alive_neighbors: u8 = 0;
        for i in 0..neighbours.len()
            invariant
                self.wf(),
                points == self@.neighbours(cell.x as int, cell.y as int),
                neighbours@.len() == points.len(),
                points.len() <= 8,
                forall|j: int|
                    0 <= j < points.len() ==> {
                        let p = #[trigger] points[j];
                        self@.in_range(p.0, p.1)
                    },
                forall|j: int|
                    0 <= j < neighbours@.len() ==> *(#[trigger] neighbours@[j])
                        == self.cells_view()[self@.index_of(points[j].0, points[j].1)],
                alive_neighbors == self@.count_alive(points.take(i as int)),
                alive_neighbors <= i,
        {
            proof {
                let p = points[i as int];
                self@.lemma_index_of_in_range(p.0, p.1);
                assert(points.take(i + 1).drop_last() =~= points.take(i as int));
                assert(points.take(i + 1).last() == p);
            }
            if neighbours[i].is_alive() {
                alive_neighbors += 1;
            }
        }
        proof {
            assert(points.take(points.len() as int) =~= points);
        }
        alive_neighbors
    }

    /// Liveness, in the next generation, of the cell stored at position
    /// `idx`.  The board itself is left as it is.
    pub fn next_state_at(&self, idx: usize) -> (next: bool)
        requires
            idx < self@.alive.len(),
        ensures
            next == self@.next_alive(idx as int),
    {
        proof {
            use_type_invariant(self);
            self@.lemma_position_in_range(idx as int);
        }
        let cell = &self.cells[idx];
        let nb_alive_neighbors = self.nb_alive_neighbors(cell);
        cell.next_state(nb_alive_neighbors)
    }

    /// Advances the board by one generation.
    ///
    /// The next liveness of every cell is computed first, in parallel and
    /// from the present generation only; then all cells are replaced at
    /// once.  No cell moves, and a board without cells stays as it is.
    pub fn update(&mut self)
        ensures
            final(self).wf(),
            final(self)@ == old(self)@.step(),
            final(self).cells_view().len() == old(self).cells_view().len(),
            forall|i: int|
                0 <= i < old(self).cells_view().len() ==> {
                    &&& (#[trigger] final(self).cells_view()[i]).x == old(self).cells_view()[i].x
                    &&& final(self).cells_view()[i].y == old(self).cells_view()[i].y
                },
    {
        proof {
            use_type_invariant(&*self);
        }
        let n = self.cells.len();
        let present: &Grid = &*self;
        let judge = |idx: usize| -> (next: bool)
            requires
                idx < n,
            ensures
                next == present@.next_alive(idx as int),
            {
                present.next_state_at(idx)
            };
        let next_states = par_map_range(n, judge);
        assert(next_states@ =~= self@.step().alive);
        let mut cells: Vec<Cell> = Vec::with_capacity(n);
        for idx in 0..n
            invariant
                n == self.cells@.len(),
                next_states@ == self@.step().alive,
                cells@.len() == idx,
                forall|i: int|
                    0 <= i < idx ==> #[trigger] cells@[i] == (Cell {
                        x: self.cells@[i].x,
                        y: self.cells@[i].y,
                        state: next_states@[i],
                    }),
        {
            let cell = &self.cells[idx];
            cells.push(Cell::new(next_states[idx], cell.x, cell.y));
        }
        proof {
            let after = Grid { width: self.width, height: self.height, cells };
            assert(after@.alive =~= self@.step().alive);
        }
        self.cells = cells;
    }
}

/// Applies `f` to every index below `n`, in parallel, and gathers the results
/// in the order of the indices.
///
/// The work is handed to rayon: `into_par_iter` on the range, `map` with `f`,
/// and `collect` into a vector.  The contract claims what rayon documents of
/// an indexed parallel iterator: `f` is called on indices of the range only,
/// and the vector holds one result per index, each at the place of the index
/// it was computed from, whatever the number of worker threads.
#[verifier::external_body]
fn par_map_range<F>(n: usize, f: F) -> (results: Vec<bool>) where
    F: Fn(usize) -> bool + Sync + Send,

    requires
        forall|i: usize| i < n ==> call_requires(f, (i,)),
    ensures
        results@.len() == n,
        forall|i: usize| i < n ==> call_ensures(f, (i,), #[trigger] results@[i as int]),
{
    (0..n).into_par_iter().map(f).collect::<Vec<bool>>()
}

} // verus!
