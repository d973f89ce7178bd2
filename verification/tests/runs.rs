use std::f64::consts::TAU;

use circle_mosaic::color::Color;
use circle_mosaic::grid::{Cell, Record};
use circle_mosaic::point::{Location, Point};
use circle_mosaic::ranking::rank_nearest;
use circle_mosaic::render::render;
use circle_mosaic::run::{plan_circle, Plan, Run, Step};
use circle_mosaic::vertices::{
    first_step, heading_from_comparisons, heading_from_keys, neighbours, Vertex,
};
use circle_mosaic::walk::{WalkEnd, MAX_BUDGET};
use noisy_float::prelude::n64;

fn bearing(center: Point, p: Point) -> f64 {
    ((center.x - p.x) as f64).atan2((center.y - p.y) as f64)
}

fn normed(f: f64) -> f64 {
    [f + TAU, f, f - TAU].map(|f| f.abs()).into_iter().min_by_key(|&f| n64(f)).expect("present")
}

fn key(f: f64) -> u64 {
    n64(f).raw().to_bits()
}

fn walk_circle(run: &mut Run, plan: &Plan, circle_frac: f64) -> WalkEnd {
    let ang_a = bearing(plan.center, plan.a);
    let ang_b = bearing(plan.center, plan.b);
    let ang_c = bearing(plan.center, plan.c);
    let diff_ab = normed(ang_a - ang_b);
    let diff_ac = normed(ang_a - ang_c);
    let diff_bc = normed(ang_b - ang_c);
    let heading = heading_from_keys(key(diff_ab), key(diff_ac), key(diff_bc));
    assert_eq!(
        heading_from_comparisons(diff_ab <= diff_ac, diff_ab <= diff_bc, diff_ac <= diff_bc),
        Some(heading)
    );
    let middle = plan.vertex(heading.middle);
    let second = plan.vertex(heading.second);
    let ang_second = bearing(plan.center, second);
    let keys = neighbours(middle).map(|p| key(normed(ang_second - bearing(plan.center, p))));
    let (_, first) = first_step(middle, second, &keys);
    let radius = (plan.center.distance_squared(middle) as f64).sqrt();
    let budget = (radius * TAU * circle_frac) as u64;
    assert!(budget <= MAX_BUDGET);
    assert_eq!(run.plan(), Some(*plan));
    let end = run.walk(heading.middle, first, budget).expect("the attempt has its plan");
    assert!(end.steps <= budget);
    assert_eq!(run.plan(), None);
    end
}

fn finish(run: &mut Run, circle_frac: f64) -> Vec<Step> {
    let mut steps = Vec::new();
    loop {
        let step = run.advance();
        steps.push(step);
        match step {
            Step::Finished => return steps,
            Step::Circle(plan) => {
                walk_circle(run, &plan, circle_frac);
            }
            _ => {}
        }
    }
}

fn filled_cells(run: &Run) -> usize {
    let grid = run.grid();
    let mut filled: usize = 0;
    for x in 0..grid.size() {
        for y in 0..grid.size() {
            if !grid.cell(Location { x, y }).is_empty() {
                filled += 1;
            }
        }
    }
    filled
}

fn assert_consistent(run: &Run) {
    let grid = run.grid();
    assert_eq!(filled_cells(run), grid.count());
    for (i, record) in grid.placed().iter().enumerate() {
        assert!(record.location.x < grid.size());
        assert!(record.location.y < grid.size());
        assert_eq!(grid.cell(record.location), Cell::Filled(record.color));
        for earlier in &grid.placed()[..i] {
            assert_ne!(earlier.location, record.location);
        }
    }
}

fn ink(level: u8) -> Color {
    Color { r: level, g: 0, b: 0 }
}

#[test]
fn new_run_has_made_no_attempt() {
    let run = Run::new(5, 3, 2, 7, 0);
    assert_eq!(run.attempts(), 0);
    assert_eq!(run.misses(), 0);
    assert_eq!(run.max_misses(), 0);
    assert!(!run.is_finished());
    assert!(run.is_seeding());
    assert_eq!(run.grid().size(), 5);
    assert_eq!(run.grid().count(), 0);
}

#[test]
fn run_without_timeout_is_finished_at_once() {
    let mut run = Run::new(5, 3, 2, 0, 0);
    assert!(run.is_finished());
    assert_eq!(run.advance(), Step::Finished);
    assert_eq!(run.attempts(), 0);
    assert_eq!(run.grid().count(), 0);
}

#[test]
fn supported_parameters() {
    assert!(Run::supports(1, 0));
    assert!(Run::supports(1000, 10_000));
    assert!(!Run::supports(0, 10));
    assert!(Run::supports(1, u64::MAX / 2));
    assert!(!Run::supports(1, u64::MAX / 2 + 1));
    // the cells must be countable in 32 bits
    assert!(Run::supports(65_535, 1));
    assert!(!Run::supports(65_536, 1));
    assert!(!Run::supports(1_048_576, 10));
    assert!(!Run::supports(1_048_577, 10));
    // and the attempts of the longest run in 64 bits
    assert!(Run::supports(65_535, 4_295_098_369));
    assert!(!Run::supports(65_535, 4_295_098_370));
}

#[test]
fn seeding_fills_an_empty_cell() {
    let mut run = Run::new(4, 3, 5, 10, 0);
    let loc = Location { x: 1, y: 3 };
    let step = run.seed_with(ink(9), loc);
    assert_eq!(step, Step::Seeded(Record { color: ink(9), location: loc }));
    assert_eq!(run.grid().cell(loc), Cell::Filled(ink(9)));
    assert_eq!(run.attempts(), 1);
    assert_eq!(run.misses(), 0);
    assert_eq!(run.max_misses(), 1);
}

#[test]
fn seeding_on_a_filled_cell_is_a_miss() {
    let mut run = Run::new(4, 3, 5, 10, 0);
    let loc = Location { x: 1, y: 3 };
    run.seed_with(ink(9), loc);
    let step = run.seed_with(ink(70), loc);
    assert_eq!(step, Step::Collision(Record { color: ink(70), location: loc }));
    assert_eq!(run.grid().cell(loc), Cell::Filled(ink(9)));
    assert_eq!(run.grid().count(), 1);
    assert_eq!(run.attempts(), 2);
    assert_eq!(run.misses(), 1);
    run.seed_with(ink(71), loc);
    run.seed_with(ink(72), loc);
    assert_eq!(run.misses(), 3);
    assert_eq!(run.max_misses(), 3);
    assert_eq!(run.seed_with(ink(73), Location { x: 0, y: 0 }), Step::Seeded(Record {
        color: ink(73),
        location: Location { x: 0, y: 0 },
    }));
    // the attempt itself was counted in the row before it succeeded
    assert_eq!(run.misses(), 0);
    assert_eq!(run.max_misses(), 4);
    assert_eq!(run.attempts(), 5);
}

#[test]
fn phase_goes_by_attempts_not_by_placements() {
    let mut run = Run::new(4, 3, 2, 10, 0);
    let loc = Location { x: 2, y: 2 };
    assert!(run.is_seeding());
    run.seed_with(ink(1), loc);
    assert!(run.is_seeding());
    run.seed_with(ink(2), loc);
    assert_eq!(run.grid().count(), 1);
    assert!(!run.is_seeding());
}

#[test]
fn growth_with_fewer_than_three_samples_is_a_miss() {
    let mut run = Run::new(4, 3, 0, 10, 0);
    let samples = vec![
        Record { color: ink(1), location: Location { x: 0, y: 0 } },
        Record { color: ink(2), location: Location { x: 1, y: 2 } },
    ];
    assert_eq!(run.grow_with(ink(5), &samples), Step::Starved);
    assert_eq!(run.grow_with(ink(5), &vec![]), Step::Starved);
    assert_eq!(run.attempts(), 2);
    assert_eq!(run.misses(), 2);
    assert_eq!(run.grid().count(), 0);
}

#[test]
fn growth_on_collinear_samples_is_a_miss() {
    let mut run = Run::new(8, 3, 0, 10, 0);
    let samples = vec![
        Record { color: ink(1), location: Location { x: 0, y: 0 } },
        Record { color: ink(2), location: Location { x: 2, y: 2 } },
        Record { color: ink(3), location: Location { x: 5, y: 5 } },
    ];
    assert_eq!(run.grow_with(ink(5), &samples), Step::Collinear);
    assert_eq!(run.misses(), 1);
}

#[test]
fn growth_with_center_on_a_vertex_is_a_miss() {
    let mut run = Run::new(8, 3, 0, 10, 0);
    let samples = vec![
        Record { color: ink(1), location: Location { x: 0, y: 0 } },
        Record { color: ink(2), location: Location { x: 1, y: 0 } },
        Record { color: ink(3), location: Location { x: 0, y: 1 } },
    ];
    assert_eq!(run.grow_with(ink(5), &samples), Step::Coincident);
    assert_eq!(run.misses(), 1);
    assert_eq!(run.grid().count(), 0);
}

#[test]
fn growth_plans_the_circle_of_the_three_nearest_samples() {
    let mut run = Run::new(16, 4, 0, 10, 0);
    let samples = vec![
        Record { color: ink(200), location: Location { x: 9, y: 9 } },
        Record { color: ink(40), location: Location { x: 0, y: 4 } },
        Record { color: ink(60), location: Location { x: 0, y: 0 } },
        Record { color: ink(50), location: Location { x: 4, y: 0 } },
    ];
    let step = run.grow_with(ink(55), &samples);
    assert_eq!(step, Step::Circle(Plan {
        color: ink(55),
        a: Point { x: 0, y: 0 },
        b: Point { x: 4, y: 0 },
        c: Point { x: 0, y: 4 },
        center: Point { x: 2, y: 2 },
    }));
    assert_eq!(run.attempts(), 1);
    assert_eq!(run.misses(), 1);
}

#[test]
fn plan_circle_names_each_outcome() {
    let at = |x: usize, y: usize| Location { x, y };
    assert_eq!(plan_circle(ink(1), at(1, 1), at(2, 2), at(3, 3)), Step::Collinear);
    assert_eq!(plan_circle(ink(1), at(0, 0), at(1, 0), at(0, 1)), Step::Coincident);
    assert_eq!(plan_circle(ink(1), at(10, 5), at(8, 9), at(1, 8)), Step::Circle(Plan {
        color: ink(1),
        a: Point { x: 10, y: 5 },
        b: Point { x: 8, y: 9 },
        c: Point { x: 1, y: 8 },
        center: Point { x: 5, y: 5 },
    }));
}

fn corner_samples() -> Vec<Record> {
    vec![
        Record { color: ink(60), location: Location { x: 0, y: 0 } },
        Record { color: ink(50), location: Location { x: 4, y: 0 } },
        Record { color: ink(40), location: Location { x: 0, y: 4 } },
    ]
}

fn corner_plan(color: Color) -> Plan {
    Plan {
        color,
        a: Point { x: 0, y: 0 },
        b: Point { x: 4, y: 0 },
        c: Point { x: 0, y: 4 },
        center: Point { x: 2, y: 2 },
    }
}

#[test]
fn growth_keeps_its_circle_as_the_plan() {
    let mut run = Run::new(8, 3, 0, 10, 0);
    assert_eq!(run.plan(), None);
    assert_eq!(run.grow_with(ink(55), &corner_samples()), Step::Circle(corner_plan(ink(55))));
    assert_eq!(run.plan(), Some(corner_plan(ink(55))));
}

#[test]
fn next_attempt_drops_a_plan_that_was_not_walked() {
    let mut run = Run::new(8, 3, 5, 10, 0);
    run.grow_with(ink(55), &corner_samples());
    assert!(run.plan().is_some());
    assert_eq!(run.grow_with(ink(55), &vec![]), Step::Starved);
    assert_eq!(run.plan(), None);
    run.grow_with(ink(55), &corner_samples());
    assert!(run.plan().is_some());
    run.seed_with(ink(3), Location { x: 5, y: 5 });
    assert_eq!(run.plan(), None);
    assert_eq!(run.walk(Vertex::A, Point { x: 1, y: -1 }, 5), None);
}

#[test]
fn walk_without_a_plan_does_nothing() {
    let mut run = Run::new(8, 3, 0, 10, 0);
    run.grow_with(ink(1), &vec![]);
    assert_eq!(run.walk(Vertex::A, Point { x: 1, y: 1 }, 5), None);
    assert_eq!(run.grid().count(), 0);
    assert_eq!(run.misses(), 1);
    assert_eq!(run.attempts(), 1);
}

#[test]
fn walk_that_finds_a_cell_ends_the_row_of_misses() {
    let mut run = Run::new(8, 3, 0, 10, 0);
    run.grow_with(ink(1), &vec![]);
    run.grow_with(ink(1), &vec![]);
    run.grow_with(ink(55), &corner_samples());
    assert_eq!(run.misses(), 3);
    // from (0, 0) to (1, -1), which wraps onto (1, 7)
    let end = run.walk(Vertex::A, Point { x: 1, y: -1 }, 5);
    assert_eq!(end, Some(WalkEnd { found: Some(Location { x: 1, y: 7 }), steps: 1 }));
    assert_eq!(run.grid().cell(Location { x: 1, y: 7 }), Cell::Filled(ink(55)));
    assert_eq!(run.misses(), 0);
    assert_eq!(run.max_misses(), 3);
    assert_eq!(run.attempts(), 3);
    assert_eq!(run.plan(), None);
    // the plan is spent: a second walk needs a new attempt
    assert_eq!(run.walk(Vertex::A, Point { x: 1, y: -1 }, 5), None);
    assert_eq!(run.grid().count(), 1);
    run.grow_with(ink(56), &corner_samples());
    // candidates (2,-2), (2,-1), (1,-2) are off the circle by 8, 1, 9
    let end = run.walk(Vertex::A, Point { x: 1, y: -1 }, 5);
    assert_eq!(end, Some(WalkEnd { found: Some(Location { x: 2, y: 7 }), steps: 2 }));
    assert_eq!(run.grid().cell(Location { x: 1, y: 7 }), Cell::Filled(ink(55)));
    assert_eq!(run.grid().cell(Location { x: 2, y: 7 }), Cell::Filled(ink(56)));
    assert_eq!(run.attempts(), 4);
}

#[test]
fn walk_starts_at_the_vertex_it_is_told() {
    let mut run = Run::new(8, 3, 0, 10, 0);
    run.grow_with(ink(55), &corner_samples());
    let end = run.walk(Vertex::B, Point { x: 4, y: 1 }, 5);
    assert_eq!(end, Some(WalkEnd { found: Some(Location { x: 4, y: 1 }), steps: 1 }));
    run.grow_with(ink(55), &corner_samples());
    let end = run.walk(Vertex::C, Point { x: -1, y: 5 }, 5);
    assert_eq!(end, Some(WalkEnd { found: Some(Location { x: 7, y: 5 }), steps: 1 }));
}

#[test]
fn walk_that_finds_nothing_changes_nothing() {
    let mut run = Run::new(8, 3, 0, 10, 0);
    run.seed_with(ink(1), Location { x: 1, y: 7 });
    run.grow_with(ink(55), &corner_samples());
    let end = run.walk(Vertex::A, Point { x: 1, y: -1 }, 1);
    assert_eq!(end, Some(WalkEnd { found: None, steps: 1 }));
    assert_eq!(run.grid().count(), 1);
    assert_eq!(run.grid().cell(Location { x: 1, y: 7 }), Cell::Filled(ink(1)));
    assert_eq!(run.misses(), 1);
    assert_eq!(run.attempts(), 2);
    assert_eq!(run.plan(), None);
}

#[test]
fn walk_without_budget_is_a_miss() {
    let mut run = Run::new(8, 3, 0, 10, 0);
    run.grow_with(ink(55), &corner_samples());
    let end = run.walk(Vertex::A, Point { x: 1, y: -1 }, 0);
    assert_eq!(end, Some(WalkEnd { found: None, steps: 0 }));
    assert_eq!(run.grid().count(), 0);
    assert_eq!(run.misses(), 1);
}

#[test]
fn single_cell_run_ends_after_timeout_misses() {
    let timeout: u64 = 6;
    let mut run = Run::new(1, 3, 2, timeout, 11);
    let first = run.advance();
    match first {
        Step::Seeded(record) => assert_eq!(record.location, Location { x: 0, y: 0 }),
        other => panic!("the only cell was empty, yet the first attempt gave {:?}", other),
    }
    let steps = finish(&mut run, 1.0);
    assert_eq!(steps.len() as u64, timeout + 1);
    assert!(matches!(steps[0], Step::Collision(_)));
    for step in &steps[1..steps.len() - 1] {
        assert_eq!(*step, Step::Starved);
    }
    assert_eq!(steps[steps.len() - 1], Step::Finished);
    assert_eq!(run.attempts(), 1 + timeout);
    assert_eq!(run.misses(), timeout);
    assert_eq!(run.max_misses(), timeout);
    assert_eq!(run.grid().count(), 1);
    assert_eq!(filled_cells(&run), 1);
    assert!(run.is_finished());
    assert_eq!(run.advance(), Step::Finished);
    assert_eq!(run.attempts(), 1 + timeout);
}

#[test]
fn seeds_fall_inside_the_grid() {
    for seed in 0..20 {
        let mut run = Run::new(3, 3, 40, 1000, seed);
        for _ in 0..40 {
            match run.advance() {
                Step::Seeded(record) | Step::Collision(record) => {
                    assert!(record.location.x < 3);
                    assert!(record.location.y < 3);
                }
                other => panic!("a seeding attempt gave {:?}", other),
            }
        }
        assert_consistent(&run);
        assert!(!run.is_seeding());
    }
}

#[test]
fn sampling_more_than_there_is_uses_every_record() {
    let mut run = Run::new(1000, 100, 3, 50, 5);
    for _ in 0..3 {
        assert!(matches!(run.advance(), Step::Seeded(_)));
    }
    assert_eq!(run.grid().count(), 3);
    let placed = run.grid().placed().clone();
    let step = run.advance();
    assert_ne!(step, Step::Starved);
    match step {
        Step::Circle(plan) => {
            let mut corners = vec![plan.a, plan.b, plan.c];
            corners.sort_by_key(|p| (p.x, p.y));
            let mut all: Vec<Point> =
                placed.iter().map(|r| Point { x: r.location.x as i64, y: r.location.y as i64 }).collect();
            all.sort_by_key(|p| (p.x, p.y));
            assert_eq!(corners, all);
        }
        Step::Collinear | Step::Coincident => {}
        other => panic!("a growth attempt on three records gave {:?}", other),
    }
}

#[test]
fn sampling_takes_only_as_many_records_as_asked() {
    let mut run = Run::new(200, 3, 60, 1000, 9);
    for _ in 0..60 {
        run.advance();
    }
    assert!(run.grid().count() > 50);
    let mut differed = false;
    for _ in 0..20 {
        let placed = run.grid().placed().clone();
        if let Step::Circle(plan) = run.advance() {
            let (i, j, k) = rank_nearest(plan.color, &placed).expect("many records");
            let nearest = [placed[i].location, placed[j].location, placed[k].location];
            let planned = [plan.a, plan.b, plan.c];
            for n in 0..3 {
                if nearest[n].x as i64 != planned[n].x || nearest[n].y as i64 != planned[n].y {
                    differed = true;
                }
            }
            for corner in planned {
                assert!(placed.iter().any(|r| r.location.x as i64 == corner.x
                    && r.location.y as i64 == corner.y));
            }
        }
    }
    assert!(differed);
}

#[test]
fn equal_seeds_give_equal_runs() {
    let mut one = Run::new(12, 5, 6, 40, 2024);
    let mut two = Run::new(12, 5, 6, 40, 2024);
    let steps_one = finish(&mut one, 1.0);
    let steps_two = finish(&mut two, 1.0);
    assert_eq!(steps_one, steps_two);
    assert_eq!(one.grid().placed(), two.grid().placed());
    assert_eq!(one.attempts(), two.attempts());
    assert_eq!(one.max_misses(), two.max_misses());
    let picture_one = render(one.grid()).expect("fits");
    let picture_two = render(two.grid()).expect("fits");
    for x in 0..12 {
        for y in 0..12 {
            assert_eq!(picture_one.pixel(x, y), picture_two.pixel(x, y));
        }
    }
}

#[test]
fn different_seeds_give_different_runs() {
    let mut one = Run::new(12, 5, 6, 40, 1);
    let mut two = Run::new(12, 5, 6, 40, 2);
    finish(&mut one, 1.0);
    finish(&mut two, 1.0);
    assert_ne!(one.grid().placed(), two.grid().placed());
}

#[test]
fn full_run_terminates_with_consistent_grid() {
    let timeout: u64 = 60;
    let mut run = Run::new(10, 6, 8, timeout, 3);
    let steps = finish(&mut run, 1.0);
    assert_eq!(steps[steps.len() - 1], Step::Finished);
    assert_eq!(run.misses(), timeout);
    assert!(run.max_misses() == timeout);
    assert_eq!(run.attempts() as usize, steps.len() - 1);
    assert!(run.attempts() >= timeout);
    assert!(run.attempts() <= (10 * 10 + 1) * timeout);
    assert!(run.grid().count() <= 100);
    assert_consistent(&run);
    let picture = render(run.grid()).expect("fits");
    for x in 0..10 {
        for y in 0..10 {
            let shown = match run.grid().cell(Location { x, y }) {
                Cell::Filled(color) => color,
                Cell::Empty => Color::neutral(),
            };
            assert_eq!(picture.pixel(x as u32, y as u32), Some(shown));
        }
    }
}

#[test]
fn filled_cells_never_change_during_a_run() {
    let mut run = Run::new(8, 5, 5, 30, 77);
    let mut seen: Vec<Record> = Vec::new();
    loop {
        let step = run.advance();
        if let Step::Circle(plan) = step {
            walk_circle(&mut run, &plan, 1.0);
        }
        let placed = run.grid().placed();
        assert!(placed.len() >= seen.len());
        assert_eq!(&placed[..seen.len()], &seen[..]);
        for record in &seen {
            assert_eq!(run.grid().cell(record.location), Cell::Filled(record.color));
        }
        seen = placed.clone();
        if step == Step::Finished {
            break;
        }
    }
    assert_consistent(&run);
}

#[test]
fn attempts_rise_by_one_with_every_attempt() {
    let mut run = Run::new(6, 4, 4, 25, 8);
    let mut made: u64 = 0;
    loop {
        let before = run.misses();
        let step = run.advance();
        if step == Step::Finished {
            assert_eq!(run.attempts(), made);
            break;
        }
        made += 1;
        assert_eq!(run.attempts(), made);
        assert!(run.misses() == 0 || run.misses() == before + 1);
        if let Step::Circle(plan) = step {
            let end = walk_circle(&mut run, &plan, 1.0);
            assert_eq!(run.misses() == 0, end.found.is_some());
            assert_eq!(run.attempts(), made);
        }
        assert!(run.misses() <= 25);
    }
    assert_eq!(run.misses(), 25);
}

#[test]
fn small_run_with_two_samples_never_grows() {
    let mut run = Run::new(4, 2, 2, 50, 42);
    let steps = finish(&mut run, 1.0);
    assert!(matches!(steps[0], Step::Seeded(_)));
    assert!(matches!(steps[1], Step::Seeded(_) | Step::Collision(_)));
    for step in &steps[2..steps.len() - 1] {
        assert_eq!(*step, Step::Starved);
    }
    assert_eq!(run.misses(), 50);
    assert_consistent(&run);
    let expected: Vec<Record> = vec![
        Record { color: Color { r: 162, g: 99, b: 125 }, location: Location { x: 2, y: 3 } },
        Record { color: Color { r: 113, g: 178, b: 120 }, location: Location { x: 3, y: 0 } },
    ];
    assert_eq!(run.grid().placed(), &expected);
    assert_eq!(run.attempts(), 52);
    assert_eq!(filled_cells(&run), 2);
}

#[test]
fn recorded_run_is_reproduced() {
    let mut run = Run::new(16, 8, 6, 100, 42);
    finish(&mut run, 1.0);
    assert_consistent(&run);
    let placed = run.grid().placed();
    let digest: u64 = placed.iter().enumerate().fold(0u64, |acc, (i, r)| {
        acc.wrapping_mul(1_000_003).wrapping_add(
            (i as u64 + 1)
                * (r.location.x as u64 * 16 + r.location.y as u64 + 1)
                * (r.color.r as u64 * 65_536 + r.color.g as u64 * 256 + r.color.b as u64 + 1),
        )
    });
    assert_eq!(
        (placed.len(), run.attempts(), run.max_misses(), digest),
        (256, 395, 100, 1_656_273_359_837_815_434)
    );
}
