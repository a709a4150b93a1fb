use csolib::cso::Cell;
use csolib::level::{clamped_u8, paint_at, Level, Paint, Rgb};
use csolib::point::Point;
use csolib::random::Random;

const EMPTY: Rgb = Rgb { r: 0, g: 0, b: 0 };
const WHITE: Rgb = Rgb { r: 255, g: 255, b: 255 };
const WATER: Rgb = Rgb { r: 91, g: 110, b: 225 };
const WATER_FACTORY: Rgb = Rgb { r: 95, g: 205, b: 228 };
const SEWAGE_FACTORY: Rgb = Rgb { r: 143, g: 86, b: 59 };
const DRAIN: Rgb = Rgb { r: 153, g: 229, b: 80 };

#[test]
fn palette() {
    assert_eq!(paint_at(&WHITE), Paint::Static);
    assert_eq!(paint_at(&WATER), Paint::Water);
    assert_eq!(paint_at(&WATER_FACTORY), Paint::WaterFactory);
    assert_eq!(paint_at(&SEWAGE_FACTORY), Paint::SewageFactory);
    assert_eq!(paint_at(&DRAIN), Paint::Drain);
    assert_eq!(paint_at(&EMPTY), Paint::Nothing);
    assert_eq!(paint_at(&Rgb { r: 91, g: 110, b: 224 }), Paint::Nothing);
}

#[test]
fn clamping() {
    assert_eq!(clamped_u8(-5), 0);
    assert_eq!(clamped_u8(0), 0);
    assert_eq!(clamped_u8(42), 42);
    assert_eq!(clamped_u8(255), 255);
    assert_eq!(clamped_u8(300), 255);
}

#[test]
fn layout_places_static_and_water() {
    let pixels = vec![WHITE, WATER, EMPTY, DRAIN, SEWAGE_FACTORY, WHITE];
    let level = Level::from_pixels(3, 2, &pixels);
    assert_eq!(level.sim.width, 3);
    assert_eq!(level.sim.height, 2);
    assert_eq!(level.sim.get(&Point::at(0, 0)), Cell::Static);
    assert_eq!(level.sim.get(&Point::at(1, 0)), Cell::Water(100));
    assert_eq!(level.sim.get(&Point::at(2, 0)), Cell::Empty);
    assert_eq!(level.sim.get(&Point::at(0, 1)), Cell::Empty);
    assert_eq!(level.sim.get(&Point::at(1, 1)), Cell::Empty);
    assert_eq!(level.sim.get(&Point::at(2, 1)), Cell::Static);
    assert!(!level.enable_water_factories);
    assert_eq!(level.override_water_factory_count, None);
}

#[test]
fn water_factory_runs_only_when_enabled() {
    let pixels = vec![WATER_FACTORY, EMPTY, WHITE];
    let mut off = Level::from_pixels(1, 3, &pixels);
    off.tick();
    assert_eq!(off.sim.get(&Point::at(0, 0)), Cell::Empty);
    assert_eq!(off.sim.get(&Point::at(0, 1)), Cell::Empty);
    let mut level = Level::from_pixels(1, 3, &pixels);
    level.enable_water_factories = true;
    level.tick();
    assert_eq!(level.sim.get(&Point::at(0, 0)), Cell::Empty);
    assert_eq!(level.sim.get(&Point::at(0, 1)), Cell::Water(100));
}

#[test]
fn water_factory_override_count() {
    let pixels = vec![WATER_FACTORY, EMPTY, WHITE];
    let mut level = Level::from_pixels(1, 3, &pixels);
    level.enable_water_factories = true;
    level.override_water_factory_count = Some(0);
    level.tick();
    assert_eq!(level.sim.get(&Point::at(0, 1)), Cell::Empty);
}

#[test]
fn sewage_factory_runs_every_eighth_frame() {
    let pixels = vec![SEWAGE_FACTORY, EMPTY, EMPTY, WHITE];
    let mut level = Level::from_pixels(1, 4, &pixels);
    for _ in 0..7 {
        level.tick();
        assert_eq!(level.sim.get(&Point::at(0, 1)), Cell::Empty);
    }
    level.tick();
    assert_eq!(level.sim.get(&Point::at(0, 1)), Cell::Water(0));
}

#[test]
fn drain_empties_every_twelfth_frame() {
    let pixels = vec![WHITE, DRAIN, WHITE];
    let mut level = Level::from_pixels(3, 1, &pixels);
    for frame in 1..=12u32 {
        level.sim.set(&Point::at(1, 0), Cell::Sand);
        level.tick();
        let expected = if frame == 12 { Cell::Empty } else { Cell::Sand };
        assert_eq!(level.sim.get(&Point::at(1, 0)), expected);
    }
}

#[test]
fn same_seed_same_flips() {
    let mut a = Random { seed: 5 };
    let mut b = Random { seed: 5 };
    for _ in 0..50 {
        assert_eq!(a.next_bool(), b.next_bool());
        assert_eq!(a.seed, b.seed);
    }
}

#[test]
fn flips_from_seed_five() {
    let mut r = Random { seed: 5 };
    assert!(!r.next_bool());
    assert_eq!(r.seed, 6);
    let flips: Vec<bool> = (0..64).map(|_| r.next_bool()).collect();
    assert!(flips.iter().any(|f| *f));
    assert!(flips.iter().any(|f| !*f));
}

#[test]
fn counter_wraps_at_the_top() {
    let mut r = Random { seed: u64::MAX };
    r.next_bool();
    assert_eq!(r.seed, 0);
}
