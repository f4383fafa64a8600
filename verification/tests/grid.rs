use grid_occupancy::grid::{GridOccupancy, Outcome, ARENA_HEIGHT, ARENA_WIDTH};
use grid_occupancy::position::Position;

fn at(x: i32, y: i32) -> Position {
    Position { x, y }
}

#[test]
fn new_grid_is_empty() {
    let grid = GridOccupancy::<4, 4>::new();
    assert_eq!(grid.taken_count(), 0);
    for x in 0..4 {
        for y in 0..4 {
            assert!(!grid.is_taken(at(x, y)));
        }
    }
}

#[test]
fn default_arena_is_32_by_32() {
    assert_eq!(ARENA_HEIGHT, 32);
    assert_eq!(ARENA_WIDTH, 32);
    let mut grid = GridOccupancy::<ARENA_HEIGHT, ARENA_WIDTH>::new();
    assert!(GridOccupancy::<ARENA_HEIGHT, ARENA_WIDTH>::in_bounds(at(31, 31)));
    assert!(!GridOccupancy::<ARENA_HEIGHT, ARENA_WIDTH>::in_bounds(at(32, 0)));
    assert_eq!(grid.occupy(at(31, 31)), Outcome::Success);
    assert_eq!(grid.taken_count(), 1);
}

#[test]
fn occupy_empty_cell_succeeds() {
    let mut grid = GridOccupancy::<4, 4>::new();
    assert_eq!(grid.occupy(at(1, 2)), Outcome::Success);
    assert!(grid.is_taken(at(1, 2)));
    assert!(!grid.is_taken(at(2, 1)));
    assert_eq!(grid.taken_count(), 1);
}

#[test]
fn occupy_taken_cell_is_conflict() {
    let mut grid = GridOccupancy::<4, 4>::new();
    assert_eq!(grid.occupy(at(1, 2)), Outcome::Success);
    assert_eq!(grid.occupy(at(1, 2)), Outcome::Conflict);
    assert!(grid.is_taken(at(1, 2)));
    assert_eq!(grid.taken_count(), 1);
}

#[test]
fn vacate_taken_cell_succeeds() {
    let mut grid = GridOccupancy::<4, 4>::new();
    grid.occupy(at(3, 3));
    assert_eq!(grid.vacate(at(3, 3)), Outcome::Success);
    assert!(!grid.is_taken(at(3, 3)));
    assert_eq!(grid.taken_count(), 0);
}

#[test]
fn vacate_empty_cell_is_already_empty() {
    let mut grid = GridOccupancy::<4, 4>::new();
    assert_eq!(grid.vacate(at(0, 0)), Outcome::AlreadyEmpty);
    assert_eq!(grid.taken_count(), 0);
}

#[test]
fn rejected_occupy_leaves_grid_as_after_one_success() {
    let mut once = GridOccupancy::<4, 4>::new();
    once.occupy(at(2, 3));
    once.occupy(at(0, 1));

    let mut twice = GridOccupancy::<4, 4>::new();
    twice.occupy(at(2, 3));
    twice.occupy(at(0, 1));
    let before = twice.clone();
    assert_eq!(twice.occupy(at(2, 3)), Outcome::Conflict);
    assert_eq!(twice, before);
    assert_eq!(twice.occupy(at(2, 3)), Outcome::Conflict);
    assert_eq!(twice, before);
    assert_eq!(twice, once);
}

#[test]
fn rejected_vacate_leaves_grid_as_after_one_success() {
    let mut once = GridOccupancy::<4, 4>::new();
    once.occupy(at(2, 3));
    once.occupy(at(0, 1));
    assert_eq!(once.vacate(at(2, 3)), Outcome::Success);

    let mut twice = once.clone();
    assert_eq!(twice.vacate(at(2, 3)), Outcome::AlreadyEmpty);
    assert_eq!(twice, once);
    assert_eq!(twice.vacate(at(2, 3)), Outcome::AlreadyEmpty);
    assert_eq!(twice, once);
    assert!(twice.is_taken(at(0, 1)));
    assert_eq!(twice.taken_count(), 1);
}

#[test]
fn cells_do_not_alias() {
    // Every cell has a flag of its own: taking one cell takes no other, in a
    // grid that is not square.
    for x in 0..3 {
        for y in 0..5 {
            let mut grid = GridOccupancy::<3, 5>::new();
            assert_eq!(grid.occupy(at(x, y)), Outcome::Success);
            for a in 0..3 {
                for b in 0..5 {
                    assert_eq!(grid.is_taken(at(a, b)), a == x && b == y);
                }
            }
        }
    }
}

#[test]
fn all_cells_can_be_taken_at_once() {
    let mut grid = GridOccupancy::<3, 5>::new();
    for x in 0..3 {
        for y in 0..5 {
            assert_eq!(grid.occupy(at(x, y)), Outcome::Success);
        }
    }
    assert_eq!(grid.taken_count(), 15);
    for x in 0..3 {
        for y in 0..5 {
            assert_eq!(grid.occupy(at(x, y)), Outcome::Conflict);
        }
    }
    assert_eq!(grid.taken_count(), 15);
}

#[test]
fn in_bounds_matches_arena_edges() {
    assert!(GridOccupancy::<3, 5>::in_bounds(at(0, 0)));
    assert!(GridOccupancy::<3, 5>::in_bounds(at(2, 4)));
    assert!(!GridOccupancy::<3, 5>::in_bounds(at(3, 4)));
    assert!(!GridOccupancy::<3, 5>::in_bounds(at(2, 5)));
    assert!(!GridOccupancy::<3, 5>::in_bounds(at(-1, 0)));
    assert!(!GridOccupancy::<3, 5>::in_bounds(at(0, -1)));
    assert!(!GridOccupancy::<3, 5>::in_bounds(at(i32::MAX, i32::MIN)));
}

#[test]
fn position_outside_arena_is_never_taken() {
    let mut grid = GridOccupancy::<2, 2>::new();
    grid.occupy(at(0, 0));
    grid.occupy(at(1, 1));
    assert!(!grid.is_taken(at(0, 2)));
    assert!(!grid.is_taken(at(2, 0)));
    assert!(!grid.is_taken(at(-1, 1)));
}

#[test]
fn empty_arena_has_no_cells() {
    let grid = GridOccupancy::<0, 7>::new();
    assert_eq!(grid.taken_count(), 0);
    assert!(!GridOccupancy::<0, 7>::in_bounds(at(0, 0)));
    assert!(!grid.is_taken(at(0, 0)));
}

#[test]
fn outcome_diagnostics() {
    assert_eq!(Outcome::Success.diagnostic(), None);
    assert_eq!(Outcome::Conflict.diagnostic(), Some("Moving in conflict"));
    assert_eq!(Outcome::AlreadyEmpty.diagnostic(), Some("Moving out from empty tile"));
}
