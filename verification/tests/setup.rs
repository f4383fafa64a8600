use grid_occupancy::grid::GridOccupancy;
use grid_occupancy::position::Position;
use grid_occupancy::setup::{place, place_all, populate, random_cells, SetupError, AGENT_COUNT};

fn spot(x: i32, y: i32) -> Position {
    Position { x, y }
}

#[test]
fn default_agent_count_is_twenty() {
    assert_eq!(AGENT_COUNT, 20);
}

#[test]
fn place_takes_a_free_cell() {
    let mut grid = GridOccupancy::<4, 4>::new();
    assert_eq!(place(&mut grid, spot(1, 2)), Ok(()));
    assert!(grid.is_taken(spot(1, 2)));
    assert_eq!(grid.taken_count(), 1);
}

#[test]
fn place_on_a_taken_cell_is_an_overlap() {
    let mut grid = GridOccupancy::<4, 4>::new();
    assert_eq!(place(&mut grid, spot(1, 2)), Ok(()));
    let before = grid.clone();
    assert_eq!(place(&mut grid, spot(1, 2)), Err(SetupError::Overlap(spot(1, 2))));
    assert_eq!(grid, before);
}

#[test]
fn place_outside_the_arena_is_out_of_bounds() {
    let mut grid = GridOccupancy::<4, 4>::new();
    let before = grid.clone();
    assert_eq!(place(&mut grid, spot(4, 0)), Err(SetupError::OutOfBounds(spot(4, 0))));
    assert_eq!(place(&mut grid, spot(0, -1)), Err(SetupError::OutOfBounds(spot(0, -1))));
    assert_eq!(grid, before);
}

#[test]
fn place_all_takes_every_cell() {
    let mut grid = GridOccupancy::<4, 4>::new();
    let cells = vec![spot(0, 0), spot(3, 3), spot(1, 2)];
    assert_eq!(place_all(&mut grid, &cells), Ok(()));
    assert_eq!(grid.taken_count(), 3);
    for c in &cells {
        assert!(grid.is_taken(*c));
    }
}

#[test]
fn place_all_stops_at_the_first_duplicate() {
    let mut grid = GridOccupancy::<4, 4>::new();
    let cells = vec![spot(0, 0), spot(3, 3), spot(0, 0), spot(1, 1)];
    assert_eq!(place_all(&mut grid, &cells), Err(SetupError::Overlap(spot(0, 0))));
    assert!(grid.is_taken(spot(0, 0)));
    assert!(grid.is_taken(spot(3, 3)));
    assert!(!grid.is_taken(spot(1, 1)));
    assert_eq!(grid.taken_count(), 2);
}

#[test]
fn place_all_reports_the_first_of_several_faults() {
    let mut grid = GridOccupancy::<4, 4>::new();
    let cells = vec![spot(0, 0), spot(9, 9), spot(0, 0)];
    assert_eq!(place_all(&mut grid, &cells), Err(SetupError::OutOfBounds(spot(9, 9))));
    assert_eq!(grid.taken_count(), 1);
}

#[test]
fn place_all_refuses_a_cell_taken_beforehand() {
    let mut grid = GridOccupancy::<4, 4>::new();
    grid.occupy(spot(2, 2));
    assert_eq!(
        place_all(&mut grid, &vec![spot(1, 1), spot(2, 2)]),
        Err(SetupError::Overlap(spot(2, 2)))
    );
}

#[test]
fn place_all_of_nothing_succeeds() {
    let mut grid = GridOccupancy::<4, 4>::new();
    assert_eq!(place_all(&mut grid, &Vec::new()), Ok(()));
    assert_eq!(grid.taken_count(), 0);
}

#[test]
fn random_cells_lie_inside_the_arena() {
    let cells = random_cells::<3, 5>(500);
    assert_eq!(cells.len(), 500);
    for c in &cells {
        assert!(0 <= c.x && c.x < 3);
        assert!(0 <= c.y && c.y < 5);
    }
    // A source that handed back one of its bounds would give a single cell.
    let first = cells[0];
    assert!(cells.iter().any(|c| c.x != first.x));
    assert!(cells.iter().any(|c| c.y != first.y));
}

#[test]
fn random_cells_in_a_single_cell_arena() {
    let cells = random_cells::<1, 1>(10);
    assert_eq!(cells, vec![spot(0, 0); 10]);
}

#[test]
fn random_cells_of_count_zero_is_empty() {
    assert!(random_cells::<4, 4>(0).is_empty());
    // Nothing is drawn, so even an arena without cells will do.
    assert!(random_cells::<0, 0>(0).is_empty());
}

#[test]
fn populate_agrees_with_placing_the_drawn_cells() {
    for _ in 0..50 {
        let mut grid = GridOccupancy::<8, 8>::new();
        let (cells, result) = populate(&mut grid, 6);
        assert_eq!(cells.len(), 6);

        let mut replay = GridOccupancy::<8, 8>::new();
        assert_eq!(place_all(&mut replay, &cells), result);
        assert_eq!(replay, grid);

        let mut distinct = cells.clone();
        distinct.sort_by_key(|c| (c.x, c.y));
        distinct.dedup();
        assert_eq!(result.is_ok(), distinct.len() == cells.len());
        if result.is_ok() {
            assert_eq!(grid.taken_count(), 6);
        }
    }
}

#[test]
fn populate_with_no_agents_succeeds() {
    let mut grid = GridOccupancy::<4, 4>::new();
    let (cells, result) = populate(&mut grid, 0);
    assert!(cells.is_empty());
    assert_eq!(result, Ok(()));
    assert_eq!(grid.taken_count(), 0);
}

#[test]
fn populate_beyond_capacity_overlaps() {
    let mut grid = GridOccupancy::<1, 2>::new();
    let (cells, result) = populate(&mut grid, 3);
    assert_eq!(cells.len(), 3);
    assert!(matches!(result, Err(SetupError::Overlap(_))));
}
