use game_of_life::model::cell::Cell;
use game_of_life::model::cell::CellState;
use game_of_life::model::coord::CoordSet;
use game_of_life::model::grid::CellGrid;
use game_of_life::model::grid::DEFAULT_UPPER_SCALE;

fn set_of(coords: &[(i32, i32)]) -> CoordSet {
    let mut set = CoordSet::new();
    for c in coords {
        set.insert(*c);
    }
    set
}

fn sorted(set: &CoordSet) -> Vec<(i32, i32)> {
    let mut coords = set.to_vec();
    coords.sort();
    coords
}

fn row(states: &[bool]) -> Vec<Cell> {
    states
        .iter()
        .map(|alive| Cell { state: if *alive { CellState::Alive } else { CellState::Dead } })
        .collect()
}

#[test]
fn cell_alive_is_alive_and_not_dead() {
    let cell = Cell { state: CellState::Alive };
    assert!(cell.is_alive());
    assert!(!cell.is_dead());
}

#[test]
fn cell_dead_is_dead_and_not_alive() {
    let cell = Cell { state: CellState::Dead };
    assert!(cell.is_dead());
    assert!(!cell.is_alive());
}

#[test]
fn cell_states_compare() {
    assert_eq!(CellState::Alive, CellState::Alive);
    assert_ne!(CellState::Alive, CellState::Dead);
}

#[test]
fn coord_set_starts_empty() {
    let set = CoordSet::new();
    assert!(set.is_empty());
    assert_eq!(set.len(), 0);
    assert_eq!(set.to_vec(), Vec::<(i32, i32)>::new());
    assert!(!set.contains(&(0, 0)));
}

#[test]
fn coord_set_insert_reports_new_members() {
    let mut set = CoordSet::new();
    assert!(set.insert((3, -4)));
    assert!(!set.insert((3, -4)));
    assert!(set.insert((-4, 3)));
    assert_eq!(set.len(), 2);
    assert!(!set.is_empty());
    assert!(set.contains(&(3, -4)));
    assert!(set.contains(&(-4, 3)));
    assert!(!set.contains(&(3, 4)));
    assert!(!set.contains(&(-3, -4)));
}

#[test]
fn coord_set_to_vec_lists_each_member_once() {
    let set = set_of(&[(1, 2), (2, 1), (1, 2), (0, 0), (-1, -2), (2, 1)]);
    assert_eq!(sorted(&set), vec![(-1, -2), (0, 0), (1, 2), (2, 1)]);
}

#[test]
fn coord_set_tells_the_axes_apart() {
    let set = set_of(&[(0, 1)]);
    assert!(set.contains(&(0, 1)));
    assert!(!set.contains(&(1, 0)));
    assert!(!set.contains(&(0, -1)));
    assert!(!set.contains(&(-1, 0)));
}

#[test]
fn coord_set_holds_the_extreme_coordinates() {
    let corners = [
        (i32::MIN, i32::MIN),
        (i32::MIN, i32::MAX),
        (i32::MAX, i32::MIN),
        (i32::MAX, i32::MAX),
        (i32::MIN, 0),
        (0, i32::MIN),
        (i32::MAX, 0),
        (0, i32::MAX),
        (-1, -1),
        (-1, 0),
        (0, -1),
        (0, 0),
    ];
    let set = set_of(&corners);
    assert_eq!(set.len(), corners.len());
    for c in corners.iter() {
        assert!(set.contains(c));
    }
    let mut expected = corners.to_vec();
    expected.sort();
    assert_eq!(sorted(&set), expected);
    assert!(!set.contains(&(i32::MIN + 1, i32::MIN)));
    assert!(!set.contains(&(i32::MAX, i32::MAX - 1)));
    assert!(!set.contains(&(1, 0)));
}

#[test]
fn new_grid_is_empty_with_its_bound() {
    let grid = CellGrid::new(1000);
    assert_eq!(grid.upper_scale(), 1000);
    assert!(grid.alive_cells().is_empty());
    assert_eq!(grid.alive_cells().len(), 0);
    assert!(!grid.is_alive(&(0, 0)));
}

#[test]
fn is_valid_inside_the_window() {
    let grid = CellGrid::new(10);
    assert!(grid.is_valid(&(0, 0)));
    assert!(grid.is_valid(&(9, 0)));
    assert!(grid.is_valid(&(-9, 0)));
    assert!(grid.is_valid(&(0, 9)));
    assert!(grid.is_valid(&(0, -9)));
    assert!(grid.is_valid(&(9, -9)));
    assert!(grid.is_valid(&(-9, 9)));
}

#[test]
fn is_valid_rejects_the_bound_itself() {
    let grid = CellGrid::new(10);
    assert!(!grid.is_valid(&(10, 0)));
    assert!(!grid.is_valid(&(-10, 0)));
    assert!(!grid.is_valid(&(0, 10)));
    assert!(!grid.is_valid(&(0, -10)));
    assert!(!grid.is_valid(&(10, 10)));
    assert!(!grid.is_valid(&(9, 10)));
    assert!(!grid.is_valid(&(-10, 9)));
    assert!(!grid.is_valid(&(11, 0)));
    assert!(!grid.is_valid(&(i32::MAX, 0)));
    assert!(!grid.is_valid(&(0, i32::MIN)));
}

#[test]
fn is_valid_with_bound_one_admits_the_origin_only() {
    let grid = CellGrid::new(1);
    assert!(grid.is_valid(&(0, 0)));
    assert!(!grid.is_valid(&(1, 0)));
    assert!(!grid.is_valid(&(-1, 0)));
    assert!(!grid.is_valid(&(0, 1)));
    assert!(!grid.is_valid(&(0, -1)));
}

#[test]
fn is_valid_with_the_largest_bound() {
    let grid = CellGrid::new(i32::MAX);
    assert!(grid.is_valid(&(i32::MAX - 1, -(i32::MAX - 1))));
    assert!(!grid.is_valid(&(i32::MAX, 0)));
    assert!(!grid.is_valid(&(0, -i32::MAX)));
    assert!(!grid.is_valid(&(i32::MIN, 0)));
}

#[test]
fn is_valid_is_never_true_without_a_positive_bound() {
    for bound in [0, -1, -10, i32::MIN] {
        let grid = CellGrid::new(bound);
        assert_eq!(grid.upper_scale(), bound);
        for c in [(0, 0), (1, 0), (-1, 0), (0, 5), (9, 9), (i32::MAX, i32::MIN), (i32::MIN, 0)] {
            assert!(!grid.is_valid(&c));
        }
    }
}

#[test]
fn is_alive_is_plain_membership() {
    let grid = CellGrid::from_alive_cells(set_of(&[(1, 1), (50, -50)]), 10);
    assert!(grid.is_alive(&(1, 1)));
    assert!(grid.is_alive(&(50, -50)));
    assert!(!grid.is_valid(&(50, -50)));
    assert!(!grid.is_alive(&(1, 0)));
    assert!(!grid.is_alive(&(-50, 50)));
}

#[test]
fn from_alive_cells_keeps_the_set_and_the_bound() {
    let grid = CellGrid::from_alive_cells(set_of(&[(0, 0), (2, 3), (100, 100), (-7, 7)]), 5);
    assert_eq!(grid.upper_scale(), 5);
    assert_eq!(grid.alive_cells().len(), 4);
    assert_eq!(sorted(grid.alive_cells()), vec![(-7, 7), (0, 0), (2, 3), (100, 100)]);
}

#[test]
fn matrix_two_by_three_with_one_alive_cell() {
    let matrix = vec![row(&[false, true, false]), row(&[false, false, false])];
    let grid = CellGrid::from(matrix);
    assert_eq!(grid.upper_scale(), 3);
    assert_eq!(grid.alive_cells().len(), 1);
    assert_eq!(grid.alive_cells().to_vec(), vec![(0, 1)]);
    assert!(grid.is_alive(&(0, 1)));
    assert!(!grid.is_alive(&(1, 0)));
}

#[test]
fn matrix_empty_gives_the_default_grid() {
    let grid = CellGrid::from(Vec::<Vec<Cell>>::new());
    assert_eq!(DEFAULT_UPPER_SCALE, 1024);
    assert_eq!(grid.upper_scale(), 1024);
    assert!(grid.alive_cells().is_empty());
}

#[test]
fn matrix_bound_is_the_row_count_when_that_is_larger() {
    let matrix = vec![
        row(&[true, false]),
        row(&[false, false]),
        row(&[false, true]),
        row(&[true, true]),
    ];
    let grid = CellGrid::from(matrix);
    assert_eq!(grid.upper_scale(), 4);
    assert_eq!(sorted(grid.alive_cells()), vec![(0, 0), (2, 1), (3, 0), (3, 1)]);
}

#[test]
fn matrix_of_dead_cells_gives_no_alive_coordinate() {
    let matrix = vec![row(&[false, false]), row(&[false, false])];
    let grid = CellGrid::from(matrix);
    assert_eq!(grid.upper_scale(), 2);
    assert!(grid.alive_cells().is_empty());
}

#[test]
fn matrix_with_empty_rows_has_the_row_count_as_bound() {
    let matrix = vec![row(&[]), row(&[]), row(&[])];
    let grid = CellGrid::from(matrix);
    assert_eq!(grid.upper_scale(), 3);
    assert!(grid.alive_cells().is_empty());
}

#[test]
fn matrix_bound_comes_from_the_first_row_only() {
    let matrix = vec![row(&[false]), row(&[false, false, false, false, true])];
    let grid = CellGrid::from(matrix);
    assert_eq!(grid.upper_scale(), 2);
    assert_eq!(grid.alive_cells().to_vec(), vec![(1, 4)]);
    assert!(grid.is_alive(&(1, 4)));
    assert!(!grid.is_valid(&(1, 4)));
}

#[test]
fn matrix_import_can_place_a_cell_on_the_bound() {
    let matrix = vec![row(&[false, false]), row(&[false, true])];
    let grid = CellGrid::from(matrix);
    assert_eq!(grid.upper_scale(), 2);
    assert!(grid.is_alive(&(1, 1)));
    assert!(grid.is_valid(&(1, 1)));
    let wide = CellGrid::from(vec![row(&[false, false, true])]);
    assert_eq!(wide.upper_scale(), 3);
    assert!(wide.is_alive(&(0, 2)));
    assert!(wide.is_valid(&(0, 2)));
}
