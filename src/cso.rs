use vstd::multiset::Multiset;
use vstd::prelude::*;

use crate::point::Point;
use crate::random::{flip, next_seed, Random};

verus! {

/// Purity of raw sewage.
pub const SEWAGE_PURITY: u8 = 0;

/// Purity of clean water.
pub const MAX_PURITY: u8 = 100;

/// How much a contaminated neighbour lowers a water cell's purity per tick.
pub const SEWAGE_SPREAD_RATE: u8 = 5;

/// Water below this purity contaminates its water neighbours.
pub const MAX_PURITY_TO_SPREAD_SEWAGE: u8 = 25;

/// Water above another water cell slides sideways only from this purity up.
pub const MIN_PURITY_TO_SLIDE: u8 = 75;

/// The contents of one grid position.
#[derive(PartialEq, Eq, Structural, Clone, Copy, Debug)]
pub enum Cell {
    Empty,
    Static,
    Sand,
    Water(u8),
}

impl Cell {
    /// Water purity lies in `[SEWAGE_PURITY, MAX_PURITY]`.
    pub open spec fn valid(self) -> bool {
        match self {
            Cell::Water(p) => p <= MAX_PURITY,
            _ => true,
        }
    }

    /// The cell with its purity forgotten: what the engine may move but
    /// never create or destroy.
    pub open spec fn kind(self) -> Cell {
        match self {
            Cell::Water(_) => Cell::Water(0),
            c => c,
        }
    }

    /// Sand and water move; empty space and static obstacles do not.
    pub open spec fn is_movable(self) -> bool {
        self is Sand || self is Water
    }
}

/// The abstract state of an engine: the grid row by row, top row first, and
/// the state of its tie-break source.
pub struct Grid {
    pub width: int,
    pub height: int,
    pub cells: Seq<Cell>,
    pub seed: u64,
}

/// The kind of each cell, in grid order.
pub open spec fn kind_seq(cells: Seq<Cell>) -> Seq<Cell> {
    cells.map_values(|c: Cell| c.kind())
}

/// The multiset of cell kinds of a grid, purities forgotten.
pub open spec fn kinds(cells: Seq<Cell>) -> Multiset<Cell> {
    kind_seq(cells).to_multiset()
}

impl Grid {
    /// Dimensions that fit a `u32`, one valid cell per position.
    pub open spec fn wf(self) -> bool {
        &&& 0 <= self.width <= u32::MAX
        &&& 0 <= self.height <= u32::MAX
        &&& self.cells.len() == self.width * self.height
        &&& forall|i: int| 0 <= i < self.cells.len() ==> (#[trigger] self.cells[i]).valid()
    }

    /// `p` lies inside the grid.
    pub open spec fn contains(self, p: Point) -> bool {
        p.x < self.width && p.y < self.height
    }

    /// The row-major position of `p` in `cells`.
    pub open spec fn index(self, p: Point) -> int {
        p.y * self.width + p.x
    }

    /// The cell at `p`.
    pub open spec fn at(self, p: Point) -> Cell {
        self.cells[self.index(p)]
    }

    /// The grid with `c` written at `p`.
    pub open spec fn put(self, p: Point, c: Cell) -> Grid {
        Grid { cells: self.cells.update(self.index(p), c), ..self }
    }

    /// The contents of `from` copied to `to`, then `from` emptied.
    pub open spec fn moved(self, from: Point, to: Point) -> Grid {
        self.put(to, self.at(from)).put(from, Cell::Empty)
    }

    /// The grid with its tie-break source in state `seed`.
    pub open spec fn with_seed(self, seed: u64) -> Grid {
        Grid { seed, ..self }
    }
}

/// A planned shift of a chain of water along one row: every cell from
/// `start` toward `end` moves one step in `direction` (`-1` left, `1` right)
/// into the empty cell at `end`, and `start` is left empty.
#[derive(PartialEq, Eq, Structural, Clone, Copy, Debug)]
pub struct Displacement {
    pub start: Point,
    pub end: Point,
    pub direction: i8,
}

/// `purity` lowered by one contamination step, but not below zero.
pub open spec fn contaminated(purity: u8) -> u8 {
    if purity >= SEWAGE_SPREAD_RATE {
        (purity - SEWAGE_SPREAD_RATE) as u8
    } else {
        0
    }
}

impl Grid {
    /// The neighbour of `p` in its row: to the right when `dir > 0`, else to
    /// the left.
    pub open spec fn lateral(self, p: Point, dir: int) -> Option<Point> {
        if dir > 0 {
            p.right_within(self.width)
        } else {
            p.left_of()
        }
    }

    /// Walking from `p` along its row in direction `dir` over empty cells,
    /// the first empty cell whose cell below is empty too. `None` where a
    /// non-empty cell, the edge of the grid or the bottom row ends the walk
    /// first.
    pub open spec fn drop_column(self, p: Point, dir: int) -> Option<Point>
        decreases (if dir > 0 { self.width - p.x } else { p.x as int }),
            when self.width <= u32::MAX
    {
        match self.lateral(p, dir) {
            Some(n) => if self.at(n) == Cell::Empty {
                match n.down_within(self.height) {
                    Some(b) => if self.at(b) == Cell::Empty {
                        Some(n)
                    } else {
                        self.drop_column(n, dir)
                    },
                    None => None,
                }
            } else {
                None
            },
            None => None,
        }
    }

    /// Where water at `p` steps to reach the nearest drop column of its row,
    /// and the tie-break state after the search. The right-hand column is
    /// found first; a strictly nearer left one replaces it, and a left one
    /// at the same distance replaces it when one drawn flip is true.
    pub open spec fn path_down(self, p: Point) -> (Option<Point>, u64) {
        match self.drop_column(p, 1) {
            Some(r) => match self.drop_column(p, -1) {
                Some(l) => if p.x - l.x < r.x - p.x {
                    (self.lateral(p, -1), self.seed)
                } else if p.x - l.x == r.x - p.x {
                    if flip(self.seed) {
                        (self.lateral(p, -1), next_seed(self.seed))
                    } else {
                        (self.lateral(p, 1), next_seed(self.seed))
                    }
                } else {
                    (self.lateral(p, 1), self.seed)
                },
                None => (self.lateral(p, 1), self.seed),
            },
            None => match self.drop_column(p, -1) {
                Some(_) => (self.lateral(p, -1), self.seed),
                None => (None, self.seed),
            },
        }
    }

    /// Walking from `p` along its row in direction `dir` over water, the
    /// first empty cell. `None` where any other cell or the edge of the grid
    /// ends the walk first.
    pub open spec fn spill_end(self, p: Point, dir: int) -> Option<Point>
        decreases (if dir > 0 { self.width - p.x } else { p.x as int }),
            when self.width <= u32::MAX
    {
        match self.lateral(p, dir) {
            Some(n) => if self.at(n) == Cell::Empty {
                Some(n)
            } else if self.at(n) is Water {
                self.spill_end(n, dir)
            } else {
                None
            },
            None => None,
        }
    }

    /// The shift that makes room at `p` by pushing the water next to it
    /// into the nearest empty cell it reaches; on equal distances the right
    /// side wins.
    pub open spec fn displacement(self, p: Point) -> Option<Displacement> {
        match self.spill_end(p, 1) {
            Some(r) => match self.spill_end(p, -1) {
                Some(l) => if p.x - l.x < r.x - p.x {
                    Some(Displacement { start: p, end: l, direction: -1i8 })
                } else {
                    Some(Displacement { start: p, end: r, direction: 1 })
                },
                None => Some(Displacement { start: p, end: r, direction: 1 }),
            },
            None => match self.spill_end(p, -1) {
                Some(l) => Some(Displacement { start: p, end: l, direction: -1i8 }),
                None => None,
            },
        }
    }

    /// Walking back from `cur` toward `start`, each cell is filled from its
    /// neighbour on the side of `start`; `start` ends empty.
    pub open spec fn slide(self, start: Point, cur: Point, dir: int) -> Grid
        decreases (if dir > 0 { cur.x - start.x } else { start.x - cur.x }),
    {
        if dir > 0 && cur.x > start.x {
            let from = Point { x: (cur.x - 1) as u32, y: cur.y };
            self.moved(from, cur).slide(start, from, dir)
        } else if dir < 0 && cur.x < start.x {
            let from = Point { x: (cur.x + 1) as u32, y: cur.y };
            self.moved(from, cur).slide(start, from, dir)
        } else {
            self
        }
    }

    /// Contamination between water at `p` and water at `other`: each of the
    /// two that is below the spreading threshold makes the other lose one
    /// step. Both tests read the purities from before the exchange, so the
    /// two directions are independent and may both apply.
    pub open spec fn spread_sewage(self, p: Point, other: Option<Point>) -> Grid {
        match other {
            Some(o) => match (self.at(p), self.at(o)) {
                (Cell::Water(pp), Cell::Water(op)) => {
                    let op2 = if pp < MAX_PURITY_TO_SPREAD_SEWAGE {
                        contaminated(op)
                    } else {
                        op
                    };
                    let pp2 = if op < MAX_PURITY_TO_SPREAD_SEWAGE {
                        contaminated(pp)
                    } else {
                        pp
                    };
                    self.put(p, Cell::Water(pp2)).put(o, Cell::Water(op2))
                },
                _ => self,
            },
            None => self,
        }
    }
}

impl Grid {
    /// Diffusion between the water at `p` and its left, then its upper,
    /// water neighbour.
    pub open spec fn diffuse(self, p: Point) -> Grid {
        self.spread_sewage(p, p.left_of()).spread_sewage(p, p.up())
    }

    /// The liquid rule for water at `p`, and whether it moved water (which
    /// ends the rule for `p` this tick). Water above `p` that is clean enough
    /// slides one step toward the nearest drop column of its row; failing
    /// that, water above `p` drops into `p` once the water of `p`'s row is
    /// pushed aside; failing both, `p` exchanges contamination with its
    /// neighbours.
    pub open spec fn liquid_step(self, p: Point) -> (Grid, bool) {
        match p.up() {
            Some(a) => match self.at(a) {
                Cell::Water(purity) => {
                    let (step, seed) = if purity >= MIN_PURITY_TO_SLIDE {
                        self.path_down(a)
                    } else {
                        (None, self.seed)
                    };
                    let g = self.with_seed(seed);
                    match step {
                        Some(to) => (g.moved(a, to), true),
                        None => match g.displacement(p) {
                            Some(d) => (g.slide(p, d.end, d.direction as int).moved(a, p), true),
                            None => (g.diffuse(p), false),
                        },
                    }
                },
                _ => (self.diffuse(p), false),
            },
            None => (self.diffuse(p), false),
        }
    }

    /// Whether the grain above-left of the empty cell `p` slides into it,
    /// and the tie-break state after deciding. It slides where it rests on
    /// an occupied cell left of `p`; where that cell is the crest of a
    /// mound (empty on its own left), one drawn flip decides.
    pub open spec fn slides_from_left(self, p: Point, a: Point) -> (bool, u64) {
        match (a.left_of(), p.left_of()) {
            (Some(al), Some(l)) => if self.at(al).is_movable() && self.at(l) != Cell::Empty {
                match l.left_of() {
                    Some(ll) => if self.at(ll) == Cell::Empty {
                        (flip(self.seed), next_seed(self.seed))
                    } else {
                        (true, self.seed)
                    },
                    None => (true, self.seed),
                }
            } else {
                (false, self.seed)
            },
            _ => (false, self.seed),
        }
    }

    /// Gravity into the empty cell `p`: the movable cell straight above
    /// falls in; else the one above-left slides in down a slope; else the
    /// one above-right does.
    pub open spec fn gravity(self, p: Point) -> Grid {
        match p.up() {
            Some(a) => if self.at(a).is_movable() {
                self.moved(a, p)
            } else {
                let (take_left, seed) = self.slides_from_left(p, a);
                let g = self.with_seed(seed);
                if take_left {
                    g.moved(Point { x: (a.x - 1) as u32, y: a.y }, p)
                } else {
                    match a.right_within(self.width) {
                        Some(ar) => if g.at(ar).is_movable() {
                            g.moved(ar, p)
                        } else {
                            g
                        },
                        None => g,
                    }
                }
            },
            None => self,
        }
    }

    /// One cell's update: the liquid rule if it holds water; then, if it is
    /// empty and no water moved, gravity.
    pub open spec fn tick_point(self, p: Point) -> Grid {
        let (g, done) = if self.at(p) is Water {
            self.liquid_step(p)
        } else {
            (self, false)
        };
        if done || g.at(p) != Cell::Empty {
            g
        } else {
            g.gravity(p)
        }
    }

    /// Row `y` updated cell by cell from the last column down to column `x`.
    pub open spec fn row_pass(self, y: int, x: int) -> Grid
        decreases self.width - x,
    {
        if x < self.width {
            self.row_pass(y, x + 1).tick_point(Point { x: x as u32, y: y as u32 })
        } else {
            self
        }
    }

    /// Rows updated from the last row up to row `y`, each from right to left.
    pub open spec fn rows_pass(self, y: int) -> Grid
        decreases self.height - y,
    {
        if y < self.height {
            self.rows_pass(y + 1).row_pass(y, 0)
        } else {
            self
        }
    }

    /// One tick: every cell updated once, bottom row first, each row from
    /// right to left.
    pub open spec fn tick(self) -> Grid {
        self.rows_pass(0)
    }
}

/// A found drop column lies in the row of `p`, on the side of `dir`, and the
/// first step toward it is an empty cell of the grid.
pub proof fn lemma_drop_column(g: Grid, p: Point, dir: int)
    requires
        g.wf(),
        g.contains(p),
        dir == 1 || dir == -1,
    ensures
        g.drop_column(p, dir) matches Some(n) ==> {
            &&& g.contains(n)
            &&& n.y == p.y
            &&& dir > 0 ==> n.x > p.x
            &&& dir < 0 ==> n.x < p.x
            &&& g.lateral(p, dir) matches Some(s) && g.contains(s) && s.y == p.y && g.at(s)
                == Cell::Empty
        },
    decreases (if dir > 0 { g.width - p.x } else { p.x as int }),
{
    if let Some(n) = g.lateral(p, dir) {
        if g.at(n) == Cell::Empty {
            if let Some(b) = n.down_within(g.height) {
                if g.at(b) != Cell::Empty {
                    lemma_drop_column(g, n, dir);
                }
            }
        }
    }
}

/// A found spill end is an empty cell of the grid in the row of `p`, on the
/// side of `dir`.
pub proof fn lemma_spill_end(g: Grid, p: Point, dir: int)
    requires
        g.wf(),
        g.contains(p),
        dir == 1 || dir == -1,
    ensures
        g.spill_end(p, dir) matches Some(e) ==> {
            &&& g.contains(e)
            &&& e.y == p.y
            &&& dir > 0 ==> e.x > p.x
            &&& dir < 0 ==> e.x < p.x
            &&& g.at(e) == Cell::Empty
        },
    decreases (if dir > 0 { g.width - p.x } else { p.x as int }),
{
    if let Some(n) = g.lateral(p, dir) {
        if g.at(n) != Cell::Empty && g.at(n) is Water {
            lemma_spill_end(g, n, dir);
        }
    }
}

/// A grid position with its row-major index in range.
pub proof fn lemma_index_in_range(g: Grid, p: Point)
    requires
        g.wf(),
        g.contains(p),
    ensures
        0 <= g.index(p) < g.cells.len(),
{
    let (w, h, x, y) = (g.width, g.height, p.x as int, p.y as int);
    assert(0 <= y * w + x < w * h) by (nonlinear_arith)
        requires
            0 <= x < w,
            0 <= y < h,
    ;
}

/// Distinct positions of a grid have distinct row-major indices.
pub proof fn lemma_index_injective(g: Grid, p: Point, q: Point)
    requires
        g.wf(),
        g.contains(p),
        g.contains(q),
        p != q,
    ensures
        g.index(p) != g.index(q),
{
    let (w, px, py, qx, qy) = (g.width, p.x as int, p.y as int, q.x as int, q.y as int);
    if py == qy {
        assert(px != qx);
    } else if py < qy {
        assert(py * w + px < qy * w + qx) by (nonlinear_arith)
            requires
                0 <= px < w,
                0 <= qx < w,
                py < qy,
        ;
    } else {
        assert(qy * w + qx < py * w + px) by (nonlinear_arith)
            requires
                0 <= px < w,
                0 <= qx < w,
                qy < py,
        ;
    }
}

/// The engine: a grid of cells and the tie-break source that settles
/// symmetric choices.
pub struct CSO {
    pub(crate) arr: Vec<Cell>,
    pub(crate) rng: Random,
    pub width: u32,
    pub height: u32,
}

impl View for CSO {
    type V = Grid;

    closed spec fn view(&self) -> Grid {
        Grid {
            width: self.width as int,
            height: self.height as int,
            cells: self.arr@,
            seed: self.rng.seed,
        }
    }
}

impl CSO {
    /// The grid holds `width * height` valid cells, and every row-major
    /// index fits in a `u32`.
    pub closed spec fn wf(&self) -> bool {
        &&& self@.wf()
        &&& self@.width == self.width
        &&& self@.height == self.height
        &&& self.width * self.height <= u32::MAX
    }

    /// A well-formed engine has a well-formed grid.
    pub proof fn lemma_grid_wf(&self)
        requires
            self.wf(),
        ensures
            self@.wf(),
    {
    }

    /// The view's dimensions are the public fields.
    pub(crate) proof fn lemma_dimensions(&self)
        ensures
            self@.width == self.width,
            self@.height == self.height,
    {
    }

    /// An all-empty grid of `width` by `height` cells that settles ties with
    /// `rng`.
    pub fn new(width: u32, height: u32, rng: Random) -> (r: CSO)
        requires
            width * height <= u32::MAX,
        ensures
            r.wf(),
            r@.width == width,
            r@.height == height,
            r@.cells == Seq::new((width * height) as nat, |i: int| Cell::Empty),
            r@.seed == rng.seed,
    {
        let r = CSO { arr: vec![Cell::Empty; (width * height) as usize], width, height, rng };
        assert(r@.cells =~= Seq::new((width * height) as nat, |i: int| Cell::Empty));
        r
    }

    fn index_of(&self, point: &Point) -> (r: usize)
        requires
            self.wf(),
            self@.contains(*point),
        ensures
            r == self@.index(*point),
            r < self@.cells.len(),
    {
        proof {
            lemma_index_in_range(self@, *point);
        }
        (point.y * self.width + point.x) as usize
    }

    pub fn set(&mut self, point: &Point, value: Cell)
        requires
            old(self).wf(),
            old(self)@.contains(*point),
            value.valid(),
        ensures
            final(self).wf(),
            final(self)@.width == old(self)@.width,
            final(self)@.height == old(self)@.height,
            final(self)@ == old(self)@.put(*point, value),
    {
        let i = self.index_of(point);
        self.arr.set(i, value);
    }

    pub fn get(&self, point: &Point) -> (r: Cell)
        requires
            self.wf(),
            self@.contains(*point),
        ensures
            r == self@.at(*point),
            r.valid(),
    {
        let i = self.index_of(point);
        self.arr[i]
    }

    pub fn is_occupied_at(&self, point: &Point) -> (r: bool)
        requires
            self.wf(),
            self@.contains(*point),
        ensures
            r == (self@.at(*point) != Cell::Empty),
    {
        self.get(point) != Cell::Empty
    }

    /// Sand and water can move; empty space and static obstacles cannot.
    pub fn is_movable_at(&self, point: &Point) -> (r: bool)
        requires
            self.wf(),
            self@.contains(*point),
        ensures
            r == self@.at(*point).is_movable(),
    {
        match self.get(point) {
            Cell::Empty | Cell::Static => false,
            _ => true,
        }
    }

    pub fn is_empty_at(&self, point: &Point) -> (r: bool)
        requires
            self.wf(),
            self@.contains(*point),
        ensures
            r == (self@.at(*point) == Cell::Empty),
    {
        self.get(point) == Cell::Empty
    }

    pub fn is_liquid_at(&self, point: &Point) -> (r: bool)
        requires
            self.wf(),
            self@.contains(*point),
        ensures
            r == (self@.at(*point) is Water),
    {
        match self.get(point) {
            Cell::Water(..) => true,
            _ => false,
        }
    }

    fn move_from_to(&mut self, from: &Point, to: &Point)
        requires
            old(self).wf(),
            old(self)@.contains(*from),
            old(self)@.contains(*to),
        ensures
            final(self).wf(),
            final(self)@.width == old(self)@.width,
            final(self)@.height == old(self)@.height,
            final(self)@ == old(self)@.moved(*from, *to),
    {
        let c = self.get(from);
        self.set(to, c);
        self.set(from, Cell::Empty);
    }

    fn in_lateral_direction(&self, p: &Point, direction: i8) -> (r: Option<Point>)
        requires
            self.wf(),
        ensures
            r == self@.lateral(*p, direction as int),
    {
        if direction > 0 {
            p.right_in(self)
        } else {
            p.left()
        }
    }

    /// The drop column reached from `start` in `direction`.
    fn scan_for_drop(&self, start: &Point, direction: i8) -> (r: Option<Point>)
        requires
            self.wf(),
            self@.contains(*start),
            direction == 1 || direction == -1,
        ensures
            r == self@.drop_column(*start, direction as int),
    {
        let ghost dir = direction as int;
        let mut p = *start;
        loop
            invariant
                self.wf(),
                self@.contains(p),
                direction == 1 || direction == -1,
                dir == direction as int,
                self@.drop_column(p, dir) == self@.drop_column(*start, dir),
            decreases (if dir > 0 { self@.width - p.x } else { p.x as int }),
        {
            match self.in_lateral_direction(&p, direction) {
                None => {
                    return None;
                },
                Some(n) => {
                    if !self.is_empty_at(&n) {
                        return None;
                    }
                    match n.below_in(self) {
                        None => {
                            return None;
                        },
                        Some(b) => {
                            if self.is_empty_at(&b) {
                                return Some(n);
                            }
                            p = n;
                        },
                    }
                },
            }
        }
    }

    /// The first step from `start` toward the nearest drop column of its
    /// row; ties between the two sides go to one flip of the tie-break
    /// source. The right side is searched first, then the left: the order
    /// in which a stack seeded with both directions would visit them.
    fn get_closest_path_down(&mut self, start_point: &Point) -> (r: Option<Point>)
        requires
            old(self).wf(),
            old(self)@.contains(*start_point),
        ensures
            final(self).wf(),
            final(self)@.width == old(self)@.width,
            final(self)@.height == old(self)@.height,
            r == old(self)@.path_down(*start_point).0,
            final(self)@ == old(self)@.with_seed(old(self)@.path_down(*start_point).1),
    {
        proof {
            lemma_drop_column(self@, *start_point, 1);
            lemma_drop_column(self@, *start_point, -1);
        }
        let right = self.scan_for_drop(start_point, 1);
        let left = self.scan_for_drop(start_point, -1);
        let mut best: Option<(i8, u32)> = None;
        if let Some(n) = right {
            best = Some((1, n.x - start_point.x));
        }
        if let Some(n) = left {
            let dist = start_point.x - n.x;
            match best {
                Some((_, best_dist)) => {
                    if dist < best_dist {
                        best = Some((-1, dist));
                    } else if dist == best_dist {
                        if self.rng.next_bool() {
                            best = Some((-1, dist));
                        }
                    }
                },
                None => {
                    best = Some((-1, dist));
                },
            }
        }
        match best {
            Some((direction, _)) => self.in_lateral_direction(start_point, direction),
            None => None,
        }
    }

    /// The empty cell reached from `start` in `direction` over water.
    fn scan_for_spill(&self, start: &Point, direction: i8) -> (r: Option<Point>)
        requires
            self.wf(),
            self@.contains(*start),
            direction == 1 || direction == -1,
        ensures
            r == self@.spill_end(*start, direction as int),
    {
        let ghost dir = direction as int;
        let mut p = *start;
        loop
            invariant
                self.wf(),
                self@.contains(p),
                direction == 1 || direction == -1,
                dir == direction as int,
                self@.spill_end(p, dir) == self@.spill_end(*start, dir),
            decreases (if dir > 0 { self@.width - p.x } else { p.x as int }),
        {
            match self.in_lateral_direction(&p, direction) {
                None => {
                    return None;
                },
                Some(n) => {
                    if self.is_empty_at(&n) {
                        return Some(n);
                    } else if self.is_liquid_at(&n) {
                        p = n;
                    } else {
                        return None;
                    }
                },
            }
        }
    }

    /// How to make room at `start_point` by pushing its row's water aside.
    fn get_liquid_displacement(&self, start_point: Point) -> (r: Option<Displacement>)
        requires
            self.wf(),
            self@.contains(start_point),
        ensures
            r == self@.displacement(start_point),
    {
        proof {
            lemma_spill_end(self@, start_point, 1);
            lemma_spill_end(self@, start_point, -1);
        }
        let right = self.scan_for_spill(&start_point, 1);
        let left = self.scan_for_spill(&start_point, -1);
        let mut best: Option<(Point, u32, i8)> = None;
        if let Some(end) = right {
            best = Some((end, end.x - start_point.x, 1));
        }
        if let Some(end) = left {
            let dist = start_point.x - end.x;
            match best {
                Some((_, best_dist, _)) => {
                    if dist < best_dist {
                        best = Some((end, dist, -1));
                    }
                },
                None => {
                    best = Some((end, dist, -1));
                },
            }
        }
        match best {
            Some((end, _, direction)) => Some(Displacement { start: start_point, end, direction }),
            None => None,
        }
    }

    /// Slides the chain of cells between `dis.start` and `dis.end` one step
    /// toward `dis.end`, walking back from the end.
    fn apply_displacement(&mut self, dis: &Displacement)
        requires
            old(self).wf(),
            old(self)@.contains(dis.start),
            old(self)@.contains(dis.end),
            dis.start.y == dis.end.y,
            dis.direction == 1 || dis.direction == -1,
            dis.direction > 0 ==> dis.end.x >= dis.start.x,
            dis.direction < 0 ==> dis.end.x <= dis.start.x,
        ensures
            final(self).wf(),
            final(self)@.width == old(self)@.width,
            final(self)@.height == old(self)@.height,
            final(self)@ == old(self)@.slide(dis.start, dis.end, dis.direction as int),
    {
        let ghost dir = dis.direction as int;
        let mut point = dis.end;
        while point.x != dis.start.x
            invariant
                self.wf(),
                self@.width == old(self)@.width,
                self@.height == old(self)@.height,
                self@.contains(point),
                self@.contains(dis.start),
                point.y == dis.start.y,
                dis.direction == 1 || dis.direction == -1,
                dir == dis.direction as int,
                dir > 0 ==> point.x >= dis.start.x,
                dir < 0 ==> point.x <= dis.start.x,
                self@.slide(dis.start, point, dir) == old(self)@.slide(dis.start, dis.end, dir),
            decreases (if dir > 0 { point.x - dis.start.x } else { dis.start.x - point.x }),
        {
            let from_point = self.in_lateral_direction(&point, -dis.direction).unwrap();
            self.move_from_to(&from_point, &point);
            point = from_point;
        }
    }

    /// Contamination between the water at `point` and the water at
    /// `maybe_other`; purities never rise.
    fn maybe_spread_sewage(&mut self, point: &Point, maybe_other: &Option<Point>)
        requires
            old(self).wf(),
            old(self)@.contains(*point),
            *maybe_other matches Some(o) ==> old(self)@.contains(o),
        ensures
            final(self).wf(),
            final(self)@.width == old(self)@.width,
            final(self)@.height == old(self)@.height,
            final(self)@ == old(self)@.spread_sewage(*point, *maybe_other),
    {
        if let Some(other) = maybe_other {
            let point_cell = self.get(point);
            let other_cell = self.get(other);
            if let (Cell::Water(point_purity), Cell::Water(other_purity)) = (point_cell, other_cell) {
                let mut new_point_purity = point_purity;
                let mut new_other_purity = other_purity;
                if point_purity < MAX_PURITY_TO_SPREAD_SEWAGE {
                    new_other_purity = other_purity.checked_sub(SEWAGE_SPREAD_RATE).unwrap_or(0);
                }
                if other_purity < MAX_PURITY_TO_SPREAD_SEWAGE {
                    new_point_purity = point_purity.checked_sub(SEWAGE_SPREAD_RATE).unwrap_or(0);
                }
                self.set(point, Cell::Water(new_point_purity));
                self.set(other, Cell::Water(new_other_purity));
            }
        }
    }

    fn liquid_step(&mut self, p: &Point) -> (done: bool)
        requires
            old(self).wf(),
            old(self)@.contains(*p),
        ensures
            final(self).wf(),
            final(self)@.width == old(self)@.width,
            final(self)@.height == old(self)@.height,
            (final(self)@, done) == old(self)@.liquid_step(*p),
    {
        if let Some(above) = p.above() {
            if let Cell::Water(purity) = self.get(&above) {
                let mut step: Option<Point> = None;
                if purity >= MIN_PURITY_TO_SLIDE {
                    proof {
                        lemma_drop_column(self@, above, 1);
                        lemma_drop_column(self@, above, -1);
                    }
                    step = self.get_closest_path_down(&above);
                }
                if let Some(to) = step {
                    self.move_from_to(&above, &to);
                    return true;
                }
                proof {
                    lemma_spill_end(self@, *p, 1);
                    lemma_spill_end(self@, *p, -1);
                }
                if let Some(displacement) = self.get_liquid_displacement(*p) {
                    self.apply_displacement(&displacement);
                    self.move_from_to(&above, p);
                    return true;
                }
            }
        }
        self.maybe_spread_sewage(p, &p.left());
        self.maybe_spread_sewage(p, &p.above());
        false
    }

    fn gravity(&mut self, p: &Point)
        requires
            old(self).wf(),
            old(self)@.contains(*p),
        ensures
            final(self).wf(),
            final(self)@.width == old(self)@.width,
            final(self)@.height == old(self)@.height,
            final(self)@ == old(self)@.gravity(*p),
    {
        if let Some(above) = p.above() {
            if self.is_movable_at(&above) {
                self.move_from_to(&above, p);
                return;
            }
            if let Some(above_left) = above.left() {
                if let Some(left) = p.left() {
                    if self.is_movable_at(&above_left) && self.is_occupied_at(&left) {
                        let mut should_move = true;
                        if let Some(left_of_left) = left.left() {
                            if self.is_empty_at(&left_of_left) {
                                // The grain is basically at the top of a mound and we
                                // should flip a coin to determine which direction it goes.
                                should_move = self.rng.next_bool();
                            }
                        }
                        if should_move {
                            self.move_from_to(&above_left, p);
                            return;
                        }
                    }
                }
            }
            if let Some(above_right) = above.right_in(self) {
                if self.is_movable_at(&above_right) {
                    self.move_from_to(&above_right, p);
                    return;
                }
            }
        }
    }

    /// Updates the cell at `p` for this tick.
    fn tick_point(&mut self, p: &Point)
        requires
            old(self).wf(),
            old(self)@.contains(*p),
        ensures
            final(self).wf(),
            final(self)@.width == old(self)@.width,
            final(self)@.height == old(self)@.height,
            final(self)@ == old(self)@.tick_point(*p),
    {
        let mut done = false;
        if self.is_liquid_at(p) {
            done = self.liquid_step(p);
        }
        if done || self.is_occupied_at(p) {
            return;
        }
        self.gravity(p);
    }

    /// Advances the simulation by one step: every cell is updated once,
    /// bottom row first and each row from right to left, so a cell that
    /// received a falling grain is not revisited in the same tick.
    pub fn tick(&mut self)
        requires
            old(self).wf(),
        ensures
            final(self).wf(),
            final(self)@.width == old(self)@.width,
            final(self)@.height == old(self)@.height,
            final(self)@ == old(self)@.tick(),
    {
        let ghost g0 = self@;
        let mut y: u32 = self.height;
        while y > 0
            invariant
                self.wf(),
                y <= self.height,
                self@.width == self.width,
                self@.height == self.height,
                self.width == g0.width,
                self.height == g0.height,
                self@ == g0.rows_pass(y as int),
            decreases y,
        {
            y = y - 1;
            let ghost g1 = self@;
            let mut x: u32 = self.width;
            while x > 0
                invariant
                    self.wf(),
                    x <= self.width,
                    y < self.height,
                    self@.width == self.width,
                    self@.height == self.height,
                    self.width == g0.width,
                    self.height == g0.height,
                    g1.width == g0.width,
                    self@ == g1.row_pass(y as int, x as int),
                decreases x,
            {
                x = x - 1;
                self.tick_point(&Point::at(x, y));
            }
        }
    }
}

} // verus!
