use vstd::prelude::*;

use crate::cso::{Cell, Grid, CSO, MAX_PURITY, SEWAGE_PURITY};
use crate::point::Point;
use crate::random::Random;

verus! {

/// Seed of the tie-break source of a level built from a layout.
pub const LEVEL_SEED: u64 = 5;

/// Frames between two runs of a factory.
pub const FACTORY_INTERVAL: u8 = 8;

/// Cells a clean-water factory stamps per run of frames.
pub const WATER_FACTORY_COUNT: u8 = 2;

/// Cells a sewage factory stamps per run of frames.
pub const SEWAGE_FACTORY_COUNT: u8 = 1;

/// Frames between two emptyings of a drain.
pub const DRAIN_INTERVAL: u8 = 12;

/// The frame counter wraps to zero here.
pub const FRAME_PERIOD: u8 = 255;

/// A layout pixel's color.
#[derive(PartialEq, Eq, Structural, Clone, Copy, Debug)]
pub struct Rgb {
    pub r: u8,
    pub g: u8,
    pub b: u8,
}

/// What a layout pixel asks for at its position.
#[derive(PartialEq, Eq, Structural, Clone, Copy, Debug)]
pub enum Paint {
    Static,
    WaterFactory,
    SewageFactory,
    Drain,
    Water,
    Nothing,
}

/// The layout palette: white is a static obstacle, light blue a clean-water
/// factory, brown a sewage factory, green a drain, blue clean water; any
/// other color is empty space.
pub open spec fn paint_of(c: Rgb) -> Paint {
    if c == (Rgb { r: 255, g: 255, b: 255 }) {
        Paint::Static
    } else if c == (Rgb { r: 95, g: 205, b: 228 }) {
        Paint::WaterFactory
    } else if c == (Rgb { r: 143, g: 86, b: 59 }) {
        Paint::SewageFactory
    } else if c == (Rgb { r: 153, g: 229, b: 80 }) {
        Paint::Drain
    } else if c == (Rgb { r: 91, g: 110, b: 225 }) {
        Paint::Water
    } else {
        Paint::Nothing
    }
}

/// Reads a layout pixel's color.
pub fn paint_at(c: &Rgb) -> (r: Paint)
    ensures
        r == paint_of(*c),
{
    if c.r == 255 && c.g == 255 && c.b == 255 {
        Paint::Static
    } else if c.r == 95 && c.g == 205 && c.b == 228 {
        Paint::WaterFactory
    } else if c.r == 143 && c.g == 86 && c.b == 59 {
        Paint::SewageFactory
    } else if c.r == 153 && c.g == 229 && c.b == 80 {
        Paint::Drain
    } else if c.r == 91 && c.g == 110 && c.b == 225 {
        Paint::Water
    } else {
        Paint::Nothing
    }
}

/// `value` clamped into the range of a `u8`.
pub fn clamped_u8(value: i32) -> (r: u8)
    ensures
        r == (if value < 0 {
            0
        } else if value > 255 {
            255
        } else {
            value
        }),
{
    if value < u8::MIN as i32 {
        u8::MIN
    } else if value > u8::MAX as i32 {
        u8::MAX
    } else {
        value as u8
    }
}

/// Stamps `cell` at `point` on some frames, where that position is empty.
#[derive(PartialEq, Eq, Structural, Clone, Copy, Debug)]
pub struct CellFactory {
    pub point: Point,
    pub cell: Cell,
    pub interval: u8,
    pub count: u8,
}

/// Empties `point` every `interval` frames.
#[derive(PartialEq, Eq, Structural, Clone, Copy, Debug)]
pub struct CellDrain {
    pub point: Point,
    pub interval: u8,
}

/// The abstract state of a level.
pub struct LevelState {
    pub factories: Seq<CellFactory>,
    pub drains: Seq<CellDrain>,
    pub frame_number: u8,
    pub enable_water_factories: bool,
    pub override_water_factory_count: Option<u8>,
    pub grid: Grid,
}

/// Whether `f` stamps its cell on frame `frame`: on the first `count`
/// frames of every `interval`. Clean-water factories run only when enabled,
/// and then with the override count if one is set.
pub open spec fn factory_fires(
    f: CellFactory,
    frame: u8,
    enable_water: bool,
    override_count: Option<u8>,
) -> bool {
    if f.cell == Cell::Water(MAX_PURITY) {
        enable_water && frame % f.interval < override_count.unwrap_or(f.count)
    } else {
        frame % f.interval < f.count
    }
}

/// The grid after the factories `fs` ran in order on frame `frame`.
pub open spec fn feed(
    g: Grid,
    fs: Seq<CellFactory>,
    frame: u8,
    enable_water: bool,
    override_count: Option<u8>,
) -> Grid
    decreases fs.len(),
{
    if fs.len() == 0 {
        g
    } else {
        let g1 = feed(g, fs.drop_last(), frame, enable_water, override_count);
        let f = fs.last();
        if factory_fires(f, frame, enable_water, override_count) && g1.at(f.point) == Cell::Empty {
            g1.put(f.point, f.cell)
        } else {
            g1
        }
    }
}

/// The grid after the drains `ds` ran in order on frame `frame`.
pub open spec fn drain(g: Grid, ds: Seq<CellDrain>, frame: u8) -> Grid
    decreases ds.len(),
{
    if ds.len() == 0 {
        g
    } else {
        let g1 = drain(g, ds.drop_last(), frame);
        let d = ds.last();
        if frame % d.interval == 0 {
            g1.put(d.point, Cell::Empty)
        } else {
            g1
        }
    }
}

impl LevelState {
    pub open spec fn wf(self) -> bool {
        &&& self.grid.wf()
        &&& self.frame_number < FRAME_PERIOD
        &&& forall|i: int|
            0 <= i < self.factories.len() ==> {
                let f = #[trigger] self.factories[i];
                self.grid.contains(f.point) && f.cell.valid() && f.interval > 0
            }
        &&& forall|i: int|
            0 <= i < self.drains.len() ==> {
                let d = #[trigger] self.drains[i];
                self.grid.contains(d.point) && d.interval > 0
            }
    }

    /// One frame: the counter advances, the factories and then the drains
    /// run, and the grid ticks.
    pub open spec fn ticked(self) -> LevelState {
        let frame = ((self.frame_number + 1) % (FRAME_PERIOD as int)) as u8;
        let fed = feed(
            self.grid,
            self.factories,
            frame,
            self.enable_water_factories,
            self.override_water_factory_count,
        );
        LevelState { frame_number: frame, grid: drain(fed, self.drains, frame).tick(), ..self }
    }
}

/// The cell a layout pixel places: a static obstacle, clean water, or
/// nothing.
pub open spec fn cell_of_paint(p: Paint) -> Cell {
    match p {
        Paint::Static => Cell::Static,
        Paint::Water => Cell::Water(MAX_PURITY),
        _ => Cell::Empty,
    }
}

/// The position of the `i`-th pixel of a row-major layout `width` wide.
pub open spec fn point_of_index(i: int, width: int) -> Point {
    Point { x: (i % width) as u32, y: (i / width) as u32 }
}

/// The factories of the first `n` pixels of a layout, in pixel order.
pub open spec fn layout_factories(pixels: Seq<Rgb>, width: int, n: int) -> Seq<CellFactory>
    decreases n,
{
    if n <= 0 {
        Seq::empty()
    } else {
        let prev = layout_factories(pixels, width, n - 1);
        let point = point_of_index(n - 1, width);
        match paint_of(pixels[n - 1]) {
            Paint::WaterFactory => prev.push(
                CellFactory {
                    point,
                    cell: Cell::Water(MAX_PURITY),
                    interval: FACTORY_INTERVAL,
                    count: WATER_FACTORY_COUNT,
                },
            ),
            Paint::SewageFactory => prev.push(
                CellFactory {
                    point,
                    cell: Cell::Water(SEWAGE_PURITY),
                    interval: FACTORY_INTERVAL,
                    count: SEWAGE_FACTORY_COUNT,
                },
            ),
            _ => prev,
        }
    }
}

/// The drains of the first `n` pixels of a layout, in pixel order.
pub open spec fn layout_drains(pixels: Seq<Rgb>, width: int, n: int) -> Seq<CellDrain>
    decreases n,
{
    if n <= 0 {
        Seq::empty()
    } else {
        let prev = layout_drains(pixels, width, n - 1);
        match paint_of(pixels[n - 1]) {
            Paint::Drain => prev.push(
                CellDrain { point: point_of_index(n - 1, width), interval: DRAIN_INTERVAL },
            ),
            _ => prev,
        }
    }
}

/// The level a row-major layout of `width` by `height` pixels describes,
/// at frame zero with clean-water factories off.
pub open spec fn layout(width: int, height: int, pixels: Seq<Rgb>) -> LevelState {
    LevelState {
        factories: layout_factories(pixels, width, pixels.len() as int),
        drains: layout_drains(pixels, width, pixels.len() as int),
        frame_number: 0,
        enable_water_factories: false,
        override_water_factory_count: None,
        grid: Grid {
            width,
            height,
            cells: pixels.map_values(|c: Rgb| cell_of_paint(paint_of(c))),
            seed: LEVEL_SEED,
        },
    }
}

/// A simulation with the factories and drains of its layout.
pub struct Level {
    pub(crate) factories: Vec<CellFactory>,
    pub(crate) drains: Vec<CellDrain>,
    pub(crate) frame_number: u8,
    pub enable_water_factories: bool,
    pub override_water_factory_count: Option<u8>,
    pub sim: CSO,
}

impl View for Level {
    type V = LevelState;

    closed spec fn view(&self) -> LevelState {
        LevelState {
            factories: self.factories@,
            drains: self.drains@,
            frame_number: self.frame_number,
            enable_water_factories: self.enable_water_factories,
            override_water_factory_count: self.override_water_factory_count,
            grid: self.sim@,
        }
    }
}

impl Level {
    pub closed spec fn wf(&self) -> bool {
        self.sim.wf() && self@.wf()
    }

    /// Builds a level from a row-major layout of `width` by `height`
    /// pixels.
    pub fn from_pixels(width: u32, height: u32, pixels: &Vec<Rgb>) -> (r: Level)
        requires
            width * height <= u32::MAX,
            pixels.len() == width * height,
        ensures
            r.wf(),
            r@ == layout(width as int, height as int, pixels@),
    {
        let mut sim = CSO::new(width, height, Random { seed: LEVEL_SEED });
        let mut factories: Vec<CellFactory> = Vec::new();
        let mut drains: Vec<CellDrain> = Vec::new();
        let ghost w = width as int;
        let n = pixels.len();
        let mut i: usize = 0;
        while i < n
            invariant
                sim.wf(),
                n == pixels.len(),
                n == width * height,
                w == width as int,
                width * height <= u32::MAX,
                i <= n,
                sim@.width == width,
                sim@.height == height,
                sim@.seed == LEVEL_SEED,
                sim@.cells == Seq::new(
                    n as nat,
                    |j: int|
                        if j < i {
                            cell_of_paint(paint_of(pixels@[j]))
                        } else {
                            Cell::Empty
                        },
                ),
                factories@ == layout_factories(pixels@, w, i as int),
                drains@ == layout_drains(pixels@, w, i as int),
                forall|j: int|
                    0 <= j < factories@.len() ==> {
                        let f = #[trigger] factories@[j];
                        sim@.contains(f.point) && f.cell.valid() && f.interval > 0
                    },
                forall|j: int|
                    0 <= j < drains@.len() ==> {
                        let d = #[trigger] drains@[j];
                        sim@.contains(d.point) && d.interval > 0
                    },
            decreases n - i,
        {
            let x = (i as u32) % width;
            let y = (i as u32) / width;
            let point = Point::at(x, y);
            proof {
                assert(w > 0) by (nonlinear_arith)
                    requires
                        i < w * height,
                        w >= 0,
                        height >= 0,
                ;
                vstd::arithmetic::div_mod::lemma_fundamental_div_mod(i as int, w);
                let (ii, yy, xx) = (i as int, y as int, x as int);
                assert(yy < height) by (nonlinear_arith)
                    requires
                        0 <= ii < w * height,
                        ii == w * yy + xx,
                        0 <= xx < w,
                        0 <= yy,
                        height >= 0,
                ;
                assert(point == point_of_index(i as int, w));
                assert(yy * w + xx == ii) by (nonlinear_arith)
                    requires
                        ii == w * yy + xx,
                ;
                assert(sim@.index(point) == i as int);
            }
            match paint_at(&pixels[i]) {
                Paint::Static => {
                    sim.set(&point, Cell::Static);
                },
                Paint::Water => {
                    sim.set(&point, Cell::Water(MAX_PURITY));
                },
                Paint::WaterFactory => {
                    factories.push(
                        CellFactory {
                            point,
                            cell: Cell::Water(MAX_PURITY),
                            interval: FACTORY_INTERVAL,
                            count: WATER_FACTORY_COUNT,
                        },
                    );
                },
                Paint::SewageFactory => {
                    factories.push(
                        CellFactory {
                            point,
                            cell: Cell::Water(SEWAGE_PURITY),
                            interval: FACTORY_INTERVAL,
                            count: SEWAGE_FACTORY_COUNT,
                        },
                    );
                },
                Paint::Drain => {
                    drains.push(CellDrain { point, interval: DRAIN_INTERVAL });
                },
                Paint::Nothing => {},
            }
            i = i + 1;
            assert(sim@.cells =~= Seq::new(
                n as nat,
                |j: int|
                    if j < i {
                        cell_of_paint(paint_of(pixels@[j]))
                    } else {
                        Cell::Empty
                    },
            ));
        }
        assert(sim@.cells =~= pixels@.map_values(|c: Rgb| cell_of_paint(paint_of(c))));
        proof {
            sim.lemma_grid_wf();
        }
        Level {
            sim,
            factories,
            drains,
            enable_water_factories: false,
            frame_number: 0,
            override_water_factory_count: None,
        }
    }

    /// Advances the level by one frame.
    pub fn tick(&mut self)
        requires
            old(self).wf(),
        ensures
            final(self).wf(),
            final(self)@ == old(self)@.ticked(),
    {
        let ghost g0 = self@;
        self.frame_number = (self.frame_number + 1) % FRAME_PERIOD;
        let i = self.frame_number;
        let mut k: usize = 0;
        while k < self.factories.len()
            invariant
                self.sim.wf(),
                self.factories@ == g0.factories,
                self.drains@ == g0.drains,
                self.enable_water_factories == g0.enable_water_factories,
                self.override_water_factory_count == g0.override_water_factory_count,
                self.frame_number == i,
                i == ((g0.frame_number + 1) % (FRAME_PERIOD as int)) as u8,
                g0.wf(),
                k <= self.factories.len(),
                self.sim@.width == g0.grid.width,
                self.sim@.height == g0.grid.height,
                self.sim@ == feed(
                    g0.grid,
                    g0.factories.take(k as int),
                    i,
                    g0.enable_water_factories,
                    g0.override_water_factory_count,
                ),
            decreases self.factories.len() - k,
        {
            let factory = self.factories[k];
            assert(g0.factories.take(k as int + 1).drop_last() =~= g0.factories.take(k as int));
            let mut count = factory.count;
            let mut runs = true;
            if factory.cell == Cell::Water(MAX_PURITY) {
                if !self.enable_water_factories {
                    runs = false;
                }
                count = self.override_water_factory_count.unwrap_or(count);
            }
            if runs && i % factory.interval < count && self.sim.is_empty_at(&factory.point) {
                self.sim.set(&factory.point, factory.cell);
            }
            k = k + 1;
        }
        assert(g0.factories.take(g0.factories.len() as int) =~= g0.factories);
        let ghost fed = self.sim@;
        let mut k: usize = 0;
        while k < self.drains.len()
            invariant
                self.sim.wf(),
                self.factories@ == g0.factories,
                self.drains@ == g0.drains,
                self.enable_water_factories == g0.enable_water_factories,
                self.override_water_factory_count == g0.override_water_factory_count,
                self.frame_number == i,
                i == ((g0.frame_number + 1) % (FRAME_PERIOD as int)) as u8,
                g0.wf(),
                k <= self.drains.len(),
                self.sim@.width == g0.grid.width,
                self.sim@.height == g0.grid.height,
                self.sim@ == drain(fed, g0.drains.take(k as int), i),
            decreases self.drains.len() - k,
        {
            let d = self.drains[k];
            assert(g0.drains.take(k as int + 1).drop_last() =~= g0.drains.take(k as int));
            if i % d.interval == 0 {
                self.sim.set(&d.point, Cell::Empty);
            }
            k = k + 1;
        }
        assert(g0.drains.take(g0.drains.len() as int) =~= g0.drains);
        self.sim.tick();
        assert forall|j: int| 0 <= j < self@.factories.len() implies self@.grid.contains(
            #[trigger] self@.factories[j].point,
        ) by {
            assert(g0.grid.contains(g0.factories[j].point));
        }
        assert forall|j: int| 0 <= j < self@.drains.len() implies self@.grid.contains(
            #[trigger] self@.drains[j].point,
        ) by {
            assert(g0.grid.contains(g0.drains[j].point));
        }
        proof {
            self.sim.lemma_grid_wf();
        }
    }
}

} // verus!
