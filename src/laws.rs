use vstd::prelude::*;

use crate::cso::{
    contaminated, kind_seq, kinds, lemma_drop_column, lemma_index_in_range, lemma_index_injective,
    lemma_spill_end, Cell, Grid, MAX_PURITY_TO_SPREAD_SEWAGE, MIN_PURITY_TO_SLIDE, SEWAGE_SPREAD_RATE, MAX_PURITY,
};
use crate::point::Point;

verus! {

broadcast use vstd::seq_lib::to_multiset_update, vstd::multiset::group_multiset_axioms;

/// Every water cell has a purity of at most `b`.
pub open spec fn purity_at_most(cells: Seq<Cell>, b: u8) -> bool {
    forall|i: int| 0 <= i < cells.len() ==> (#[trigger] cells[i] matches Cell::Water(q) ==> q <= b)
}

proof fn lemma_update_kinds(cells: Seq<Cell>, i: int, c: Cell)
    requires
        0 <= i < cells.len(),
    ensures
        kinds(cells.update(i, c)) == kinds(cells).insert(c.kind()).remove(cells[i].kind()),
{
    assert(kind_seq(cells.update(i, c)) =~= kind_seq(cells).update(i, c.kind()));
}

/// Writing a cell of the same kind keeps the kinds of the grid.
proof fn lemma_put_same_kind(g: Grid, p: Point, c: Cell, b: u8)
    requires
        g.wf(),
        purity_at_most(g.cells, b),
        g.contains(p),
        c.valid(),
        c matches Cell::Water(q) ==> q <= b,
        c.kind() == g.at(p).kind(),
    ensures
        purity_at_most(g.put(p, c).cells, b),
        g.put(p, c).wf(),
        kinds(g.put(p, c).cells) == kinds(g.cells),
{
    lemma_index_in_range(g, p);
    lemma_update_kinds(g.cells, g.index(p), c);
    assert(kinds(g.put(p, c).cells) =~= kinds(g.cells));
}

/// Moving a cell into an empty cell keeps the kinds of the grid.
proof fn lemma_moved(g: Grid, from: Point, to: Point, b: u8)
    requires
        g.wf(),
        purity_at_most(g.cells, b),
        g.contains(from),
        g.contains(to),
        g.at(to) == Cell::Empty,
    ensures
        purity_at_most(g.moved(from, to).cells, b),
        g.moved(from, to).wf(),
        g.moved(from, to).at(from) == Cell::Empty,
        kinds(g.moved(from, to).cells) == kinds(g.cells),
{
    lemma_index_in_range(g, from);
    lemma_index_in_range(g, to);
    let c = g.at(from);
    let g1 = g.put(to, c);
    lemma_update_kinds(g.cells, g.index(to), c);
    lemma_update_kinds(g1.cells, g.index(from), Cell::Empty);
    let k = kinds(g.cells);
    assert(kind_seq(g.cells)[g.index(to)] == Cell::Empty);
    assert(kind_seq(g.cells).contains(Cell::Empty));
    kind_seq(g.cells).to_multiset_ensures();
    assert(k.count(Cell::Empty) > 0);
    assert(kinds(g.moved(from, to).cells) =~= k);
}

proof fn lemma_spread(g: Grid, p: Point, other: Option<Point>, b: u8)
    requires
        g.wf(),
        purity_at_most(g.cells, b),
        g.contains(p),
        other matches Some(o) ==> g.contains(o),
    ensures
        purity_at_most(g.spread_sewage(p, other).cells, b),
        g.spread_sewage(p, other).wf(),
        g.spread_sewage(p, other).width == g.width,
        g.spread_sewage(p, other).height == g.height,
        g.spread_sewage(p, other).at(p) is Water <==> g.at(p) is Water,
        kinds(g.spread_sewage(p, other).cells) == kinds(g.cells),
{
    if let Some(o) = other {
        if let (Cell::Water(pp), Cell::Water(op)) = (g.at(p), g.at(o)) {
            lemma_index_in_range(g, p);
            lemma_index_in_range(g, o);
            let op2 = if pp < MAX_PURITY_TO_SPREAD_SEWAGE { contaminated(op) } else { op };
            let pp2 = if op < MAX_PURITY_TO_SPREAD_SEWAGE { contaminated(pp) } else { pp };
            let h = g.put(p, Cell::Water(pp2));
            lemma_put_same_kind(g, p, Cell::Water(pp2), b);
            lemma_put_same_kind(h, o, Cell::Water(op2), b);
        }
    }
}

proof fn lemma_diffuse(g: Grid, p: Point, b: u8)
    requires
        g.wf(),
        purity_at_most(g.cells, b),
        g.contains(p),
    ensures
        purity_at_most(g.diffuse(p).cells, b),
        g.diffuse(p).wf(),
        g.diffuse(p).width == g.width,
        g.diffuse(p).height == g.height,
        g.diffuse(p).at(p) is Water <==> g.at(p) is Water,
        kinds(g.diffuse(p).cells) == kinds(g.cells),
{
    lemma_spread(g, p, p.left_of(), b);
    lemma_spread(g.spread_sewage(p, p.left_of()), p, p.up(), b);
}

proof fn lemma_slide(g: Grid, start: Point, cur: Point, dir: int, b: u8)
    requires
        g.wf(),
        purity_at_most(g.cells, b),
        g.contains(start),
        g.contains(cur),
        cur.y == start.y,
        dir == 1 || dir == -1,
        dir > 0 ==> cur.x >= start.x,
        dir < 0 ==> cur.x <= start.x,
        g.at(cur) == Cell::Empty,
    ensures
        purity_at_most(g.slide(start, cur, dir).cells, b),
        g.slide(start, cur, dir).wf(),
        g.slide(start, cur, dir).width == g.width,
        g.slide(start, cur, dir).height == g.height,
        g.slide(start, cur, dir).at(start) == Cell::Empty,
        kinds(g.slide(start, cur, dir).cells) == kinds(g.cells),
    decreases (if dir > 0 { cur.x - start.x } else { start.x - cur.x }),
{
    if dir > 0 && cur.x > start.x {
        let from = Point { x: (cur.x - 1) as u32, y: cur.y };
        lemma_moved(g, from, cur, b);
        lemma_slide(g.moved(from, cur), start, from, dir, b);
    } else if dir < 0 && cur.x < start.x {
        let from = Point { x: (cur.x + 1) as u32, y: cur.y };
        lemma_moved(g, from, cur, b);
        lemma_slide(g.moved(from, cur), start, from, dir, b);
    }
}

proof fn lemma_liquid_step(g: Grid, p: Point, b: u8)
    requires
        g.wf(),
        purity_at_most(g.cells, b),
        g.contains(p),
    ensures
        purity_at_most(g.liquid_step(p).0.cells, b),
        g.liquid_step(p).0.wf(),
        g.liquid_step(p).0.width == g.width,
        g.liquid_step(p).0.height == g.height,
        !g.liquid_step(p).1 ==> (g.liquid_step(p).0.at(p) is Water <==> g.at(p) is Water),
        kinds(g.liquid_step(p).0.cells) == kinds(g.cells),
{
    lemma_diffuse(g, p, b);
    if let Some(a) = p.up() {
        if let Cell::Water(purity) = g.at(a) {
            lemma_drop_column(g, a, 1);
            lemma_drop_column(g, a, -1);
            let (step, seed) = if purity >= MIN_PURITY_TO_SLIDE { g.path_down(a) } else { (None, g.seed) };
            let g2 = g.with_seed(seed);
            lemma_diffuse(g2, p, b);
            match step {
                Some(to) => {
                    lemma_moved(g2, a, to, b);
                },
                None => {
                    lemma_spill_end(g2, p, 1);
                    lemma_spill_end(g2, p, -1);
                    if let Some(d) = g2.displacement(p) {
                        lemma_slide(g2, p, d.end, d.direction as int, b);
                        lemma_moved(g2.slide(p, d.end, d.direction as int), a, p, b);
                    }
                },
            }
        }
    }
}

proof fn lemma_gravity(g: Grid, p: Point, b: u8)
    requires
        g.wf(),
        purity_at_most(g.cells, b),
        g.contains(p),
        g.at(p) == Cell::Empty,
    ensures
        purity_at_most(g.gravity(p).cells, b),
        g.gravity(p).wf(),
        g.gravity(p).width == g.width,
        g.gravity(p).height == g.height,
        kinds(g.gravity(p).cells) == kinds(g.cells),
{
    if let Some(a) = p.up() {
        if g.at(a).is_movable() {
            lemma_moved(g, a, p, b);
        } else {
            let (take_left, seed) = g.slides_from_left(p, a);
            let g2 = g.with_seed(seed);
            if take_left {
                lemma_moved(g2, Point { x: (a.x - 1) as u32, y: a.y }, p, b);
            } else if let Some(ar) = a.right_within(g.width) {
                lemma_moved(g2, ar, p, b);
            }
        }
    }
}

proof fn lemma_tick_point(g: Grid, p: Point, b: u8)
    requires
        g.wf(),
        purity_at_most(g.cells, b),
        g.contains(p),
    ensures
        purity_at_most(g.tick_point(p).cells, b),
        g.tick_point(p).wf(),
        g.tick_point(p).width == g.width,
        g.tick_point(p).height == g.height,
        kinds(g.tick_point(p).cells) == kinds(g.cells),
{
    if g.at(p) is Water {
        lemma_liquid_step(g, p, b);
    } else if g.at(p) == Cell::Empty {
        lemma_gravity(g, p, b);
    }
}

proof fn lemma_row_pass(g: Grid, y: int, x: int, b: u8)
    requires
        g.wf(),
        purity_at_most(g.cells, b),
        0 <= y < g.height,
        0 <= x,
    ensures
        purity_at_most(g.row_pass(y, x).cells, b),
        g.row_pass(y, x).wf(),
        g.row_pass(y, x).width == g.width,
        g.row_pass(y, x).height == g.height,
        kinds(g.row_pass(y, x).cells) == kinds(g.cells),
    decreases g.width - x,
{
    if x < g.width {
        lemma_row_pass(g, y, x + 1, b);
        lemma_tick_point(g.row_pass(y, x + 1), Point { x: x as u32, y: y as u32 }, b);
    }
}

proof fn lemma_rows_pass(g: Grid, y: int, b: u8)
    requires
        g.wf(),
        purity_at_most(g.cells, b),
        0 <= y,
    ensures
        purity_at_most(g.rows_pass(y).cells, b),
        g.rows_pass(y).wf(),
        g.rows_pass(y).width == g.width,
        g.rows_pass(y).height == g.height,
        kinds(g.rows_pass(y).cells) == kinds(g.cells),
    decreases g.height - y,
{
    if y < g.height {
        lemma_rows_pass(g, y + 1, b);
        lemma_row_pass(g.rows_pass(y + 1), y, 0, b);
    }
}

/// A tick neither creates nor destroys anything: the multiset of cell
/// kinds (sand, static, water, empty; purity forgotten) is the same after
/// it as before.
pub proof fn lemma_tick_conserves_kinds(g: Grid)
    requires
        g.wf(),
    ensures
        kinds(g.tick().cells) == kinds(g.cells),
{
    lemma_rows_pass(g, 0, MAX_PURITY);
}

/// Every water cell keeps its purity within `[SEWAGE_PURITY, MAX_PURITY]`
/// through a tick, and the grid keeps its shape.
pub proof fn lemma_tick_keeps_purity_in_range(g: Grid)
    requires
        g.wf(),
    ensures
        g.tick().wf(),
        g.tick().width == g.width,
        g.tick().height == g.height,
{
    lemma_rows_pass(g, 0, MAX_PURITY);
}

/// A tick never raises the highest purity on the grid: moves carry a
/// purity along and contamination only lowers it, so if every water cell
/// has a purity of at most `b` before a tick, the same holds after it.
pub proof fn lemma_tick_never_raises_purity(g: Grid, b: u8)
    requires
        g.wf(),
        purity_at_most(g.cells, b),
    ensures
        purity_at_most(g.tick().cells, b),
{
    lemma_rows_pass(g, 0, b);
}

/// Contamination between two water cells is independent in each direction
/// and never raises a purity: each cell loses one step (floored at zero)
/// exactly when the other was below the threshold before the exchange, so
/// it keeps at most its former purity and loses at most
/// `SEWAGE_SPREAD_RATE`; no other cell changes.
pub proof fn lemma_spread_never_raises_purity(g: Grid, p: Point, o: Point)
    requires
        g.wf(),
        g.contains(p),
        g.contains(o),
        p != o,
        g.at(p) is Water,
        g.at(o) is Water,
    ensures
        g.spread_sewage(p, Some(o)).at(p) == Cell::Water(
            if g.at(o)->Water_0 < MAX_PURITY_TO_SPREAD_SEWAGE {
                contaminated(g.at(p)->Water_0)
            } else {
                g.at(p)->Water_0
            },
        ),
        g.spread_sewage(p, Some(o)).at(o) == Cell::Water(
            if g.at(p)->Water_0 < MAX_PURITY_TO_SPREAD_SEWAGE {
                contaminated(g.at(o)->Water_0)
            } else {
                g.at(o)->Water_0
            },
        ),
        g.spread_sewage(p, Some(o)).at(p) matches Cell::Water(q) && q <= g.at(p)->Water_0 && g.at(
            p,
        )->Water_0 - q <= SEWAGE_SPREAD_RATE,
        g.spread_sewage(p, Some(o)).at(o) matches Cell::Water(q) && q <= g.at(o)->Water_0 && g.at(
            o,
        )->Water_0 - q <= SEWAGE_SPREAD_RATE,
        forall|r: Point|
            g.contains(r) && r != p && r != o ==> #[trigger] g.spread_sewage(p, Some(o)).at(r)
                == g.at(r),
{
    lemma_index_in_range(g, p);
    lemma_index_in_range(g, o);
    lemma_index_injective(g, p, o);
    assert forall|r: Point| g.contains(r) && r != p && r != o implies #[trigger] g.spread_sewage(
        p,
        Some(o),
    ).at(r) == g.at(r) by {
        lemma_index_in_range(g, r);
        lemma_index_injective(g, r, p);
        lemma_index_injective(g, r, o);
    }
}

/// The grid after `n` ticks.
pub open spec fn run(g: Grid, n: nat) -> Grid
    decreases n,
{
    if n == 0 {
        g
    } else {
        run(g, (n - 1) as nat).tick()
    }
}

/// Every cell is empty, static or sand.
pub open spec fn sand_only(cells: Seq<Cell>) -> bool {
    forall|i: int|
        0 <= i < cells.len() ==> match #[trigger] cells[i] {
            Cell::Empty | Cell::Static | Cell::Sand => true,
            Cell::Water(_) => false,
        }
}

/// The number of sand grains among the first `n` cells.
pub open spec fn sand_upto(cells: Seq<Cell>, n: int) -> int
    decreases n,
{
    if n <= 0 {
        0
    } else {
        sand_upto(cells, n - 1) + if cells[n - 1] is Sand {
            1int
        } else {
            0
        }
    }
}

/// The number of sand grains on a grid.
pub open spec fn sand_count(cells: Seq<Cell>) -> int {
    sand_upto(cells, cells.len() as int)
}

/// The row of index `i` in a grid `width` cells wide, for a sand grain;
/// nothing for any other cell.
pub open spec fn sand_row(c: Cell, i: int, width: int) -> int {
    if c is Sand {
        i / width
    } else {
        0
    }
}

/// The sum of the rows of the sand grains among the first `n` cells.
pub open spec fn depth_upto(cells: Seq<Cell>, width: int, n: int) -> int
    decreases n,
{
    if n <= 0 {
        0
    } else {
        depth_upto(cells, width, n - 1) + sand_row(cells[n - 1], n - 1, width)
    }
}

/// How far down the sand of a grid lies: the sum of its grains' rows.
#[verifier::opaque]
pub open spec fn depth(g: Grid) -> int {
    depth_upto(g.cells, g.width, g.cells.len() as int)
}

proof fn lemma_depth_of_cells(a: Grid, b: Grid)
    ensures
        a.cells == b.cells && a.width == b.width ==> depth(a) == depth(b),
{
    reveal(depth);
}

proof fn lemma_depth_update(cells: Seq<Cell>, width: int, n: int, i: int, c: Cell)
    requires
        0 <= i < cells.len(),
        n <= cells.len(),
    ensures
        depth_upto(cells.update(i, c), width, n) == depth_upto(cells, width, n) + (if i < n {
            sand_row(c, i, width) - sand_row(cells[i], i, width)
        } else {
            0
        }),
    decreases n,
{
    if n > 0 {
        lemma_depth_update(cells, width, n - 1, i, c);
    }
}

proof fn lemma_sand_update(cells: Seq<Cell>, n: int, i: int, c: Cell)
    requires
        0 <= i < cells.len(),
        n <= cells.len(),
    ensures
        sand_upto(cells.update(i, c), n) == sand_upto(cells, n) + (if i < n {
            (if c is Sand {
                1int
            } else {
                0
            }) - (if cells[i] is Sand {
                1int
            } else {
                0
            })
        } else {
            0
        }),
    decreases n,
{
    if n > 0 {
        lemma_sand_update(cells, n - 1, i, c);
    }
}

/// Each grain lies at most `height - 1` rows down.
proof fn lemma_depth_bounds(cells: Seq<Cell>, width: int, height: int, n: int)
    requires
        0 < width,
        0 <= n <= cells.len(),
        cells.len() == width * height,
    ensures
        0 <= depth_upto(cells, width, n) <= sand_upto(cells, n) * (height - 1),
        0 <= sand_upto(cells, n),
    decreases n,
{
    if n > 0 {
        lemma_depth_bounds(cells, width, height, n - 1);
        let i = n - 1;
        let r = i / width;
        vstd::arithmetic::div_mod::lemma_fundamental_div_mod(i, width);
        assert(0 <= r < height) by (nonlinear_arith)
            requires
                0 <= i < width * height,
                r == i / width,
                i == width * r + i % width,
                0 <= i % width < width,
                0 < width,
        ;
        let k = sand_upto(cells, n - 1);
        assert((k + 1) * (height - 1) == k * (height - 1) + (height - 1)) by (nonlinear_arith);
    }
}

proof fn lemma_row_of_index(g: Grid, p: Point)
    requires
        g.wf(),
        g.contains(p),
    ensures
        g.index(p) / g.width == p.y,
{
    vstd::arithmetic::div_mod::lemma_fundamental_div_mod_converse(
        g.index(p),
        g.width,
        p.y as int,
        p.x as int,
    );
}

/// Moving a grain of sand down one row into an empty cell raises the depth
/// by one, keeps the number of grains and keeps the grid sand-only.
proof fn lemma_sand_falls(g: Grid, from: Point, to: Point)
    requires
        g.wf(),
        sand_only(g.cells),
        g.contains(from),
        g.contains(to),
        g.at(to) == Cell::Empty,
        g.at(from) == Cell::Sand,
        from.y + 1 == to.y,
    ensures
        sand_only(g.moved(from, to).cells),
        depth(g.moved(from, to)) == depth(g) + 1,
        sand_count(g.moved(from, to).cells) == sand_count(g.cells),
{
    lemma_index_in_range(g, from);
    lemma_index_in_range(g, to);
    lemma_index_injective(g, from, to);
    lemma_row_of_index(g, from);
    lemma_row_of_index(g, to);
    let g1 = g.put(to, Cell::Sand);
    let n = g.cells.len() as int;
    lemma_depth_update(g.cells, g.width, n, g.index(to), Cell::Sand);
    lemma_depth_update(g1.cells, g.width, n, g.index(from), Cell::Empty);
    lemma_sand_update(g.cells, n, g.index(to), Cell::Sand);
    lemma_sand_update(g1.cells, n, g.index(from), Cell::Empty);
    lemma_moved(g, from, to, 0);
    reveal(depth);
}

/// On a sand-only grid one cell's update either changes no cell or lets one
/// grain fall a row; the number of grains stays.
proof fn lemma_sand_tick_point(g: Grid, p: Point)
    requires
        g.wf(),
        sand_only(g.cells),
        g.contains(p),
    ensures
        sand_only(g.tick_point(p).cells),
        sand_count(g.tick_point(p).cells) == sand_count(g.cells),
        depth(g.tick_point(p)) >= depth(g),
        g.tick_point(p).cells != g.cells ==> depth(g.tick_point(p)) == depth(g) + 1,
{
    lemma_index_in_range(g, p);
    lemma_tick_point(g, p, 0);
    lemma_depth_of_cells(g.tick_point(p), g);
    if g.at(p) == Cell::Empty {
        if let Some(a) = p.up() {
            lemma_index_in_range(g, a);
            if g.at(a).is_movable() {
                lemma_sand_falls(g, a, p);
            } else {
                let (take_left, seed) = g.slides_from_left(p, a);
                let g2 = g.with_seed(seed);
                lemma_depth_of_cells(g2, g);
                if take_left {
                    let al = Point { x: (a.x - 1) as u32, y: a.y };
                    lemma_index_in_range(g, al);
                    lemma_sand_falls(g2, al, p);
                } else if let Some(ar) = a.right_within(g.width) {
                    lemma_index_in_range(g, ar);
                    if g2.at(ar).is_movable() {
                        lemma_sand_falls(g2, ar, p);
                    }
                }
            }
        }
    }
}

proof fn lemma_sand_row_pass(g: Grid, y: int, x: int)
    requires
        g.wf(),
        sand_only(g.cells),
        0 <= y < g.height,
        0 <= x,
    ensures
        sand_only(g.row_pass(y, x).cells),
        sand_count(g.row_pass(y, x).cells) == sand_count(g.cells),
        depth(g.row_pass(y, x)) >= depth(g),
        g.row_pass(y, x).cells != g.cells ==> depth(g.row_pass(y, x)) > depth(g),
    decreases g.width - x,
{
    if x < g.width {
        let r = g.row_pass(y, x + 1);
        lemma_sand_row_pass(g, y, x + 1);
        lemma_row_pass(g, y, x + 1, 0);
        lemma_sand_tick_point(r, Point { x: x as u32, y: y as u32 });
    }
}

proof fn lemma_sand_rows_pass(g: Grid, y: int)
    requires
        g.wf(),
        sand_only(g.cells),
        0 <= y,
    ensures
        sand_only(g.rows_pass(y).cells),
        sand_count(g.rows_pass(y).cells) == sand_count(g.cells),
        depth(g.rows_pass(y)) >= depth(g),
        g.rows_pass(y).cells != g.cells ==> depth(g.rows_pass(y)) > depth(g),
    decreases g.height - y,
{
    if y < g.height {
        let r = g.rows_pass(y + 1);
        lemma_sand_rows_pass(g, y + 1);
        lemma_rows_pass(g, y + 1, 0);
        lemma_sand_row_pass(r, y, 0);
    }
}

/// After a flip at column `x` of row `y` that moved nothing: the cell left
/// of `x` is occupied, the one beyond it is empty, and a movable cell sits
/// above the occupied one.
spec fn flip_pending(r: Grid, y: int, x: int) -> bool {
    &&& 2 <= x
    &&& 1 <= y
    &&& r.at(Point { x: (x - 1) as u32, y: y as u32 }) != Cell::Empty
    &&& r.at(Point { x: (x - 2) as u32, y: y as u32 }) == Cell::Empty
    &&& r.at(Point { x: (x - 1) as u32, y: (y - 1) as u32 }).is_movable()
}

/// The cell left of column `x` of row `y` is empty and a movable cell sits
/// above-right of it, so its update will move something.
spec fn move_pending(r: Grid, y: int, x: int) -> bool {
    &&& 1 <= x < r.width
    &&& 1 <= y
    &&& r.at(Point { x: (x - 1) as u32, y: y as u32 }) == Cell::Empty
    &&& r.at(Point { x: x as u32, y: (y - 1) as u32 }).is_movable()
}

/// Gravity into an empty cell of a sand-only grid that moves nothing leaves
/// the tie-break state alone, or drew a false flip at the crest of a mound;
/// and no movable cell sat above-right of it.
proof fn lemma_quiet_gravity(g: Grid, p: Point)
    requires
        g.wf(),
        sand_only(g.cells),
        g.contains(p),
        g.at(p) == Cell::Empty,
        g.gravity(p).cells == g.cells,
    ensures
        g.gravity(p).seed == g.seed || flip_pending(g.gravity(p), p.y as int, p.x as int),
        !(p.y >= 1 && p.x + 1 < g.width && g.at(Point { x: (p.x + 1) as u32, y: (p.y - 1) as u32 }).is_movable()),
{
    lemma_depth_of_cells(g.gravity(p), g);
    if let Some(a) = p.up() {
        lemma_index_in_range(g, a);
        if g.at(a).is_movable() {
            lemma_sand_falls(g, a, p);
        } else {
            let (take_left, seed) = g.slides_from_left(p, a);
            let g2 = g.with_seed(seed);
            lemma_depth_of_cells(g2, g);
            if take_left {
                let al = Point { x: (a.x - 1) as u32, y: a.y };
                lemma_index_in_range(g, al);
                lemma_sand_falls(g2, al, p);
            } else if let Some(ar) = a.right_within(g.width) {
                lemma_index_in_range(g, ar);
                if g2.at(ar).is_movable() {
                    lemma_sand_falls(g2, ar, p);
                }
            }
        }
    }
}

/// Along a row pass of a sand-only grid that has changed no cell, the
/// tie-break state is untouched unless a flip or a move is still pending.
proof fn lemma_quiet_row(g: Grid, y: int, x: int)
    requires
        g.wf(),
        sand_only(g.cells),
        0 <= y < g.height,
        0 <= x <= g.width,
    ensures
        g.row_pass(y, x).cells == g.cells ==> g.row_pass(y, x).seed == g.seed || flip_pending(
            g.row_pass(y, x),
            y,
            x,
        ) || move_pending(g.row_pass(y, x), y, x),
    decreases g.width - x,
{
    if x < g.width {
        let r1 = g.row_pass(y, x + 1);
        let p = Point { x: x as u32, y: y as u32 };
        let r = r1.tick_point(p);
        lemma_quiet_row(g, y, x + 1);
        lemma_sand_row_pass(g, y, x + 1);
        lemma_row_pass(g, y, x + 1, 0);
        lemma_sand_tick_point(r1, p);
        lemma_tick_point(r1, p, 0);
        lemma_index_in_range(r1, p);
        if r.cells == g.cells {
            lemma_depth_of_cells(r, g);
            lemma_depth_of_cells(r1, g);
            assert(r1.cells == g.cells);
            if r1.at(p) == Cell::Empty {
                lemma_quiet_gravity(r1, p);
            }
        }
    }
}

proof fn lemma_quiet_rows(g: Grid, y: int)
    requires
        g.wf(),
        sand_only(g.cells),
        0 <= y,
    ensures
        g.rows_pass(y).cells == g.cells ==> g.rows_pass(y).seed == g.seed,
    decreases g.height - y,
{
    if y < g.height {
        let r1 = g.rows_pass(y + 1);
        lemma_quiet_rows(g, y + 1);
        lemma_rows_pass(g, y + 1, 0);
        lemma_sand_rows_pass(g, y + 1);
        lemma_sand_row_pass(r1, y, 0);
        lemma_quiet_row(r1, y, 0);
        lemma_row_pass(r1, y, 0, 0);
        let r = r1.row_pass(y, 0);
        if r.cells == g.cells {
            lemma_depth_of_cells(r, g);
            lemma_depth_of_cells(r1, g);
        }
    }
}

/// On a sand-only grid a tick that moves no cell draws no flip either, so it
/// leaves the whole state unchanged.
proof fn lemma_quiet_tick(g: Grid)
    requires
        g.wf(),
        sand_only(g.cells),
        g.tick().cells == g.cells,
    ensures
        g.tick() == g,
{
    lemma_quiet_rows(g, 0);
    lemma_rows_pass(g, 0, 0);
}

proof fn lemma_rest_lasts(g: Grid, n: nat, m: nat)
    requires
        run(g, n).tick() == run(g, n),
    ensures
        run(g, n + m) == run(g, n),
    decreases m,
{
    if m > 0 {
        lemma_rest_lasts(g, n, (m - 1) as nat);
        assert(run(g, n + m) == run(g, (n + m - 1) as nat).tick());
    }
}

proof fn lemma_sand_run(g: Grid, n: nat)
    requires
        g.wf(),
        sand_only(g.cells),
    ensures
        run(g, n).wf(),
        run(g, n).width == g.width,
        run(g, n).height == g.height,
        sand_only(run(g, n).cells),
        sand_count(run(g, n).cells) == sand_count(g.cells),
    decreases n,
{
    if n > 0 {
        let m = (n - 1) as nat;
        lemma_sand_run(g, m);
        lemma_rows_pass(run(g, m), 0, 0);
        lemma_sand_rows_pass(run(g, m), 0);
    }
}

proof fn lemma_unsettled_runs_deepen(g: Grid, n: nat)
    requires
        g.wf(),
        sand_only(g.cells),
        forall|k: nat| k < n ==> (#[trigger] run(g, k)).tick().cells != run(g, k).cells,
    ensures
        depth(run(g, n)) >= depth(g) + n,
    decreases n,
{
    if n > 0 {
        let m = (n - 1) as nat;
        lemma_unsettled_runs_deepen(g, m);
        lemma_sand_run(g, m);
        assert(run(g, m).tick().cells != run(g, m).cells);
        lemma_sand_rows_pass(run(g, m), 0);
    }
}

/// A grid of sand and static obstacles comes to rest: within
/// `(number of grains) * (height - 1)` ticks it reaches a tick that changes
/// nothing, tie-break state included, and from then on every tick changes
/// nothing.
pub proof fn lemma_sand_settles(g: Grid)
    requires
        g.wf(),
        sand_only(g.cells),
    ensures
        exists|n: nat|
            n <= sand_count(g.cells) * (g.height - 1) && (#[trigger] run(g, n)).tick() == run(g, n)
                && forall|m: nat| #[trigger] run(g, n + m) == run(g, n),
{
    let bound = sand_count(g.cells) * (g.height - 1);
    if g.width == 0 || g.height == 0 {
        assert(g.cells.len() == 0) by (nonlinear_arith)
            requires
                g.cells.len() == g.width * g.height,
                g.width == 0 || g.height == 0,
        ;
        lemma_rows_pass(g, 0, 0);
        assert(run(g, 0).tick().cells =~= run(g, 0).cells);
        assert(sand_count(g.cells) == 0);
    } else {
        lemma_depth_bounds(g.cells, g.width, g.height, g.cells.len() as int);
        if !exists|n: nat| n <= bound && (#[trigger] run(g, n)).tick().cells == run(g, n).cells {
            let n = (bound + 1) as nat;
            assert forall|k: nat| k < n implies (#[trigger] run(g, k)).tick().cells != run(
                g,
                k,
            ).cells by {
                assert(k <= bound);
            }
            lemma_unsettled_runs_deepen(g, n);
            let r = run(g, n);
            lemma_sand_run(g, n);
            lemma_depth_bounds(r.cells, r.width, r.height, r.cells.len() as int);
            reveal(depth);
        }
    }
    let n = choose|n: nat| n <= bound && (#[trigger] run(g, n)).tick().cells == run(g, n).cells;
    lemma_sand_run(g, n);
    lemma_quiet_tick(run(g, n));
    assert forall|m: nat| #[trigger] run(g, n + m) == run(g, n) by {
        lemma_rest_lasts(g, n, m);
    }
}

/// Runs are reproducible: two engines that start from the same grid and the
/// same tie-break state are in the same state after any number of ticks.
pub proof fn lemma_runs_deterministic(a: Grid, b: Grid, n: nat)
    requires
        a == b,
    ensures
        run(a, n) == run(b, n),
    decreases n,
{
    if n > 0 {
        lemma_runs_deterministic(a, b, (n - 1) as nat);
    }
}

/// Neighbour queries never leave the grid: from any position inside it,
/// each of the four neighbours is absent exactly at the matching edge and
/// lies inside the grid otherwise.
pub proof fn lemma_neighbours_stay_inside(g: Grid, p: Point)
    requires
        g.wf(),
        g.contains(p),
    ensures
        p.up() is None <==> p.y == 0,
        p.left_of() is None <==> p.x == 0,
        p.right_within(g.width) is None <==> p.x == g.width - 1,
        p.down_within(g.height) is None <==> p.y == g.height - 1,
        p.up() matches Some(q) ==> g.contains(q),
        p.left_of() matches Some(q) ==> g.contains(q),
        p.right_within(g.width) matches Some(q) ==> g.contains(q),
        p.down_within(g.height) matches Some(q) ==> g.contains(q),
{
}

/// Each cell's update keeps the multiset of cell kinds: no move rule
/// creates or destroys sand, water or obstacles.
pub proof fn lemma_tick_point_conserves_kinds(g: Grid, p: Point)
    requires
        g.wf(),
        g.contains(p),
    ensures
        kinds(g.tick_point(p).cells) == kinds(g.cells),
{
    lemma_tick_point(g, p, MAX_PURITY);
}

/// Water in the bottom row has nowhere to drop: the search finds no step
/// and draws no flip.
pub proof fn lemma_no_drop_from_bottom_row(g: Grid, p: Point)
    requires
        g.wf(),
        g.contains(p),
        p.y == g.height - 1,
    ensures
        g.path_down(p) == (None::<Point>, g.seed),
{
}

} // verus!
