use csolib::cso::{Cell, CSO};
use csolib::point::Point;
use csolib::random::Random;

fn grid(width: u32, height: u32, rows: &[&str], purities: &[u8]) -> CSO {
    // 'S' sand, '#' static, 'W' water (purities taken in order), '.' empty
    let mut sim = CSO::new(width, height, Random { seed: 5 });
    let mut next_purity = 0;
    for (y, row) in rows.iter().enumerate() {
        for (x, ch) in row.chars().enumerate() {
            let cell = match ch {
                'S' => Cell::Sand,
                '#' => Cell::Static,
                'W' => {
                    let p = purities[next_purity];
                    next_purity += 1;
                    Cell::Water(p)
                }
                _ => Cell::Empty,
            };
            sim.set(&Point::at(x as u32, y as u32), cell);
        }
    }
    sim
}

fn cells(sim: &CSO) -> Vec<Cell> {
    let mut out = Vec::new();
    for y in 0..sim.height {
        for x in 0..sim.width {
            out.push(sim.get(&Point::at(x, y)));
        }
    }
    out
}

fn kind_counts(sim: &CSO) -> [usize; 4] {
    let mut counts = [0usize; 4];
    for c in cells(sim) {
        let k = match c {
            Cell::Empty => 0,
            Cell::Static => 1,
            Cell::Sand => 2,
            Cell::Water(_) => 3,
        };
        counts[k] += 1;
    }
    counts
}

#[test]
fn new_grid_is_empty() {
    let sim = CSO::new(4, 3, Random { seed: 1 });
    assert_eq!(sim.width, 4);
    assert_eq!(sim.height, 3);
    assert!(cells(&sim).iter().all(|c| *c == Cell::Empty));
}

#[test]
fn set_then_get_and_queries() {
    let mut sim = CSO::new(3, 2, Random { seed: 5 });
    sim.set(&Point::at(2, 1), Cell::Water(40));
    sim.set(&Point::at(0, 0), Cell::Static);
    sim.set(&Point::at(1, 0), Cell::Sand);
    assert_eq!(sim.get(&Point::at(2, 1)), Cell::Water(40));
    assert!(sim.is_liquid_at(&Point::at(2, 1)));
    assert!(sim.is_movable_at(&Point::at(2, 1)));
    assert!(sim.is_movable_at(&Point::at(1, 0)));
    assert!(!sim.is_liquid_at(&Point::at(1, 0)));
    assert!(sim.is_occupied_at(&Point::at(0, 0)));
    assert!(!sim.is_movable_at(&Point::at(0, 0)));
    assert!(sim.is_empty_at(&Point::at(0, 1)));
    assert!(!sim.is_occupied_at(&Point::at(0, 1)));
    assert!(!sim.is_movable_at(&Point::at(0, 1)));
}

#[test]
fn single_grain_falls_one_row_per_tick() {
    let mut sim = grid(3, 3, &["...", "...", "..."], &[]);
    sim.set(&Point::at(1, 0), Cell::Sand);
    sim.tick();
    assert_eq!(sim.get(&Point::at(1, 1)), Cell::Sand);
    assert_eq!(sim.get(&Point::at(1, 0)), Cell::Empty);
    sim.tick();
    assert_eq!(sim.get(&Point::at(1, 2)), Cell::Sand);
    assert_eq!(sim.get(&Point::at(1, 1)), Cell::Empty);
}

#[test]
fn grains_beside_a_gap_settle() {
    let mut sim = grid(3, 2, &["S.S", "#.#"], &[]);
    sim.tick();
    assert_eq!(sim.get(&Point::at(1, 1)), Cell::Sand);
    assert_eq!(sim.get(&Point::at(0, 0)), Cell::Empty);
    assert_eq!(sim.get(&Point::at(2, 0)), Cell::Sand);
    let before = cells(&sim);
    for _ in 0..5 {
        sim.tick();
    }
    assert_eq!(cells(&sim), before);
}

#[test]
fn crest_grain_follows_the_coin() {
    let mut sim = grid(3, 2, &[".S.", ".#."], &[]);
    let mut coin = Random { seed: 5 };
    let goes_right = coin.next_bool();
    sim.tick();
    if goes_right {
        assert_eq!(sim.get(&Point::at(2, 1)), Cell::Sand);
        assert_eq!(sim.get(&Point::at(0, 1)), Cell::Empty);
    } else {
        assert_eq!(sim.get(&Point::at(0, 1)), Cell::Sand);
        assert_eq!(sim.get(&Point::at(2, 1)), Cell::Empty);
    }
    assert_eq!(sim.get(&Point::at(1, 0)), Cell::Empty);
}

#[test]
fn clean_water_on_water_leaves_instead_of_mixing() {
    let mut sim = grid(3, 2, &["W..", "W.."], &[100, 10]);
    sim.tick();
    assert_eq!(sim.get(&Point::at(0, 0)), Cell::Empty);
    assert_eq!(sim.get(&Point::at(1, 1)), Cell::Water(100));
    assert_eq!(sim.get(&Point::at(0, 1)), Cell::Water(10));
}

#[test]
fn clean_water_steps_toward_far_drop_column() {
    let mut sim = grid(4, 2, &["#W..", "#W#."], &[100, 50]);
    sim.tick();
    assert_eq!(sim.get(&Point::at(1, 0)), Cell::Empty);
    assert_eq!(sim.get(&Point::at(2, 0)), Cell::Water(100));
    assert_eq!(sim.get(&Point::at(1, 1)), Cell::Water(50));
    sim.tick();
    assert_eq!(sim.get(&Point::at(3, 1)), Cell::Water(100));
    assert_eq!(sim.get(&Point::at(2, 0)), Cell::Empty);
}

#[test]
fn displacement_pushes_water_chain_aside() {
    let mut sim = grid(4, 2, &["#W##", "#WW."], &[50, 20, 30]);
    sim.tick();
    assert_eq!(sim.get(&Point::at(1, 0)), Cell::Empty);
    assert_eq!(sim.get(&Point::at(1, 1)), Cell::Water(50));
    assert_eq!(sim.get(&Point::at(2, 1)), Cell::Water(20));
    assert_eq!(sim.get(&Point::at(3, 1)), Cell::Water(25));
}

#[test]
fn boxed_water_diffuses_one_way() {
    let mut sim = grid(4, 3, &["####", "#WW#", "####"], &[10, 90]);
    sim.tick();
    assert_eq!(sim.get(&Point::at(1, 1)), Cell::Water(10));
    assert_eq!(sim.get(&Point::at(2, 1)), Cell::Water(85));
}

#[test]
fn contaminated_neighbours_pull_each_other_down() {
    let mut sim = grid(4, 3, &["####", "#WW#", "####"], &[20, 24]);
    sim.tick();
    assert_eq!(sim.get(&Point::at(1, 1)), Cell::Water(15));
    assert_eq!(sim.get(&Point::at(2, 1)), Cell::Water(19));
}

#[test]
fn purity_floors_at_zero() {
    let mut sim = grid(4, 3, &["####", "#WW#", "####"], &[3, 10]);
    sim.tick();
    assert_eq!(sim.get(&Point::at(1, 1)), Cell::Water(0));
    assert_eq!(sim.get(&Point::at(2, 1)), Cell::Water(5));
}

#[test]
fn vertical_diffusion_with_water_above() {
    let mut sim = grid(3, 3, &["#W#", "#W#", "###"], &[50, 10]);
    sim.tick();
    // the displacement search finds no room, so the two cells exchange
    assert_eq!(sim.get(&Point::at(1, 1)), Cell::Water(10));
    assert_eq!(sim.get(&Point::at(1, 0)), Cell::Water(45));
}

#[test]
fn ticks_conserve_cell_kinds() {
    let mut sim = grid(
        6,
        5,
        &["SW.WS.", ".S.W..", "W..S.W", "..#...", "#.W..#"],
        &[100, 10, 60, 90, 30, 5],
    );
    let before = kind_counts(&sim);
    for _ in 0..20 {
        sim.tick();
        assert_eq!(kind_counts(&sim), before);
    }
}

#[test]
fn purities_stay_in_range() {
    let mut sim = grid(5, 4, &["WWWWW", "W.W.W", "WW.WW", "#W#W#"], &[0, 100, 3, 97, 24, 25, 74, 75, 1, 99, 50, 2, 100, 12, 0]);
    for _ in 0..15 {
        sim.tick();
        for c in cells(&sim) {
            if let Cell::Water(p) = c {
                assert!(p <= 100);
            }
        }
    }
}

#[test]
fn sand_pile_reaches_rest() {
    let mut sim = grid(5, 4, &["SSSSS", "S.S.S", ".....", "#...#"], &[]);
    let grains = cells(&sim).iter().filter(|c| **c == Cell::Sand).count();
    let bound = grains * (sim.height as usize - 1);
    let mut ticks = 0;
    loop {
        let before = cells(&sim);
        sim.tick();
        if cells(&sim) == before {
            break;
        }
        ticks += 1;
        assert!(ticks <= bound);
    }
    let rest = cells(&sim);
    for _ in 0..10 {
        sim.tick();
        assert_eq!(cells(&sim), rest);
    }
    for x in 0..5 {
        assert_eq!(sim.get(&Point::at(x, 0)), Cell::Empty);
    }
}

#[test]
fn equal_seeds_give_equal_runs() {
    let rows = &["S.W.S.S", ".SW.S..", "..S.W..", "...#...", "......."];
    let purities = &[100, 80, 40];
    let mut a = grid(7, 5, rows, purities);
    let mut b = grid(7, 5, rows, purities);
    for _ in 0..12 {
        a.tick();
        b.tick();
        assert_eq!(cells(&a), cells(&b));
    }
}

#[test]
fn water_reaches_rightmost_column() {
    let mut sim = grid(3, 2, &["..W", "..."], &[100]);
    sim.tick();
    assert_eq!(sim.get(&Point::at(2, 1)), Cell::Water(100));
    assert_eq!(sim.get(&Point::at(2, 0)), Cell::Empty);
}

#[test]
fn grain_slides_down_from_the_right() {
    let mut sim = grid(3, 2, &["..S", "..#"], &[]);
    sim.tick();
    assert_eq!(sim.get(&Point::at(1, 1)), Cell::Sand);
    assert_eq!(sim.get(&Point::at(2, 0)), Cell::Empty);
}

#[test]
fn empty_grid_ticks() {
    let mut sim = CSO::new(0, 0, Random { seed: 5 });
    sim.tick();
    assert_eq!(sim.width, 0);
}

#[test]
fn displacement_tie_goes_right() {
    // the crest flip at (3,1) draws false from seed 5, so nothing slides
    let mut sim = grid(5, 2, &["##W##", "#.W.#"], &[50, 20]);
    sim.tick();
    assert_eq!(sim.get(&Point::at(1, 1)), Cell::Empty);
    assert_eq!(sim.get(&Point::at(2, 1)), Cell::Water(50));
    assert_eq!(sim.get(&Point::at(3, 1)), Cell::Water(20));
    assert_eq!(sim.get(&Point::at(2, 0)), Cell::Empty);
}

#[test]
fn diffusion_tests_purities_from_before_the_exchange() {
    // 10 lowers its neighbour from 27 to 22; the 27 it had before is not
    // below the threshold, so 10 stays 10
    let mut sim = grid(4, 3, &["####", "#WW#", "####"], &[27, 10]);
    sim.tick();
    assert_eq!(sim.get(&Point::at(1, 1)), Cell::Water(22));
    assert_eq!(sim.get(&Point::at(2, 1)), Cell::Water(10));
}
