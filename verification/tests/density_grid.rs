use megadodge_mayhem::grid2::{Cell, Grid2, GridShape};
use megadodge_mayhem::occupancy_grid::{NeighborCounts, OccupancyGrid, BLOCKED};

fn interior_total(grid: &OccupancyGrid) -> u64 {
    let shape = grid.players_in_cell.dimensions();
    let mut total = 0u64;
    for y in 1..shape.y as i32 - 1 {
        for x in 1..shape.x as i32 - 1 {
            total += u64::from(*grid.players_in_cell.index(Cell::new(x, y)));
        }
    }
    total
}

#[test]
fn shape_validity_has_its_limits() {
    assert!(GridShape::new(1, 1).is_valid());
    assert!(GridShape::new(46_340, 46_340).is_valid());
    assert!(GridShape::new(1, 0x7fff_ffff).is_valid());
    assert!(!GridShape::new(0, 5).is_valid());
    assert!(!GridShape::new(5, 0).is_valid());
    assert!(!GridShape::new(2, 0x4000_0000).is_valid());
    assert!(!GridShape::new(u32::MAX, u32::MAX).is_valid());
}

#[test]
fn new_fill_puts_the_value_everywhere() {
    let grid = Grid2::new_fill(GridShape::new(3, 2), 7u8);
    assert_eq!(grid.dimensions(), GridShape::new(3, 2));
    for y in 0..2 {
        for x in 0..3 {
            assert_eq!(*grid.index(Cell::new(x, y)), 7);
        }
    }
}

#[test]
fn set_changes_one_cell() {
    let mut grid = Grid2::new_fill(GridShape::new(3, 3), 0u8);
    grid.set(Cell::new(2, 1), 9);
    for y in 0..3 {
        for x in 0..3 {
            let expected = if (x, y) == (2, 1) { 9 } else { 0 };
            assert_eq!(*grid.index(Cell::new(x, y)), expected);
        }
    }
}

#[test]
fn places_beside_the_grid_name_the_nearest_cell() {
    let mut grid = Grid2::new_fill(GridShape::new(3, 2), 0u8);
    grid.set(Cell::new(0, 0), 1);
    grid.set(Cell::new(2, 0), 2);
    grid.set(Cell::new(0, 1), 3);
    grid.set(Cell::new(2, 1), 4);
    assert_eq!(*grid.index(Cell::new(-5, -1)), 1);
    assert_eq!(*grid.index(Cell::new(i32::MIN, i32::MIN)), 1);
    assert_eq!(*grid.index(Cell::new(3, -1)), 2);
    assert_eq!(*grid.index(Cell::new(i32::MAX, 0)), 2);
    assert_eq!(*grid.index(Cell::new(-1, 2)), 3);
    assert_eq!(*grid.index(Cell::new(i32::MAX, i32::MAX)), 4);
    grid.set(Cell::new(100, 100), 8);
    assert_eq!(*grid.index(Cell::new(2, 1)), 8);
}

#[test]
fn fill_overwrites_every_cell() {
    let mut grid = Grid2::new_fill(GridShape::new(2, 2), 1u8);
    grid.set(Cell::new(1, 1), 5);
    grid.fill(3);
    for y in 0..2 {
        for x in 0..2 {
            assert_eq!(*grid.index(Cell::new(x, y)), 3);
        }
    }
}

#[test]
fn fill_boundary_spares_the_inside() {
    let mut grid = Grid2::new_fill(GridShape::new(5, 4), 1u8);
    grid.fill_boundary(9);
    for y in 0..4 {
        for x in 0..5 {
            let on_ring = x == 0 || y == 0 || x == 4 || y == 3;
            assert_eq!(*grid.index(Cell::new(x, y)), if on_ring { 9 } else { 1 });
        }
    }
}

#[test]
fn fill_boundary_covers_a_thin_grid() {
    let mut row = Grid2::new_fill(GridShape::new(4, 1), 0u8);
    row.fill_boundary(9);
    for x in 0..4 {
        assert_eq!(*row.index(Cell::new(x, 0)), 9);
    }
    let mut two = Grid2::new_fill(GridShape::new(2, 2), 0u8);
    two.fill_boundary(9);
    for y in 0..2 {
        for x in 0..2 {
            assert_eq!(*two.index(Cell::new(x, y)), 9);
        }
    }
    let mut one = Grid2::new_fill(GridShape::new(1, 1), 0u8);
    one.fill_boundary(9);
    assert_eq!(*one.index(Cell::new(0, 0)), 9);
}

#[test]
fn new_occupancy_grid_is_empty() {
    let grid = OccupancyGrid::new(GridShape::new(3, 3));
    for y in 0..3 {
        for x in 0..3 {
            assert_eq!(*grid.players_in_cell.index(Cell::new(x, y)), 0);
        }
    }
}

#[test]
fn interior_counts_sum_to_the_number_of_agents() {
    let mut grid = OccupancyGrid::new(GridShape::new(6, 5));
    let agents = vec![
        Cell::new(1, 1),
        Cell::new(1, 1),
        Cell::new(4, 3),
        Cell::new(2, 2),
        Cell::new(3, 1),
        Cell::new(1, 1),
        Cell::new(4, 3),
    ];
    grid.update(&agents);
    assert_eq!(interior_total(&grid), 7);
    assert_eq!(*grid.players_in_cell.index(Cell::new(1, 1)), 3);
    assert_eq!(*grid.players_in_cell.index(Cell::new(4, 3)), 2);
    assert_eq!(*grid.players_in_cell.index(Cell::new(2, 2)), 1);
    assert_eq!(*grid.players_in_cell.index(Cell::new(3, 1)), 1);
    assert_eq!(*grid.players_in_cell.index(Cell::new(2, 1)), 0);
}

#[test]
fn border_cells_stay_blocked() {
    let mut grid = OccupancyGrid::new(GridShape::new(4, 4));
    grid.update(&vec![Cell::new(0, 0), Cell::new(3, 2), Cell::new(-7, 9), Cell::new(1, 2)]);
    assert_eq!(BLOCKED, 255);
    for y in 0..4 {
        for x in 0..4 {
            let on_ring = x == 0 || y == 0 || x == 3 || y == 3;
            let expected = if on_ring {
                BLOCKED
            } else if (x, y) == (1, 2) {
                1
            } else {
                0
            };
            assert_eq!(*grid.players_in_cell.index(Cell::new(x, y)), expected);
        }
    }
    assert_eq!(interior_total(&grid), 1);
}

#[test]
fn update_counts_from_scratch() {
    let mut grid = OccupancyGrid::new(GridShape::new(4, 4));
    grid.update(&vec![Cell::new(1, 1), Cell::new(1, 1)]);
    assert_eq!(*grid.players_in_cell.index(Cell::new(1, 1)), 2);
    grid.update(&vec![Cell::new(2, 2)]);
    assert_eq!(*grid.players_in_cell.index(Cell::new(1, 1)), 0);
    assert_eq!(*grid.players_in_cell.index(Cell::new(2, 2)), 1);
    grid.update(&Vec::new());
    assert_eq!(interior_total(&grid), 0);
    assert_eq!(*grid.players_in_cell.index(Cell::new(0, 0)), BLOCKED);
}

#[test]
fn cell_counts_saturate() {
    let mut grid = OccupancyGrid::new(GridShape::new(3, 3));
    let crowd = vec![Cell::new(1, 1); 254];
    grid.update(&crowd);
    assert_eq!(*grid.players_in_cell.index(Cell::new(1, 1)), 254);
    let crowd = vec![Cell::new(1, 1); 255];
    grid.update(&crowd);
    assert_eq!(*grid.players_in_cell.index(Cell::new(1, 1)), 255);
    let crowd = vec![Cell::new(1, 1); 300];
    grid.update(&crowd);
    assert_eq!(*grid.players_in_cell.index(Cell::new(1, 1)), 255);
}

#[test]
fn nearby_players_reads_the_four_neighbours() {
    let mut grid = OccupancyGrid::new(GridShape::new(5, 5));
    grid.update(&vec![
        Cell::new(1, 2),
        Cell::new(3, 2),
        Cell::new(3, 2),
        Cell::new(2, 1),
        Cell::new(2, 1),
        Cell::new(2, 1),
        Cell::new(2, 2),
        Cell::new(1, 1),
    ]);
    let near = grid.nearby_players(Cell::new(2, 2));
    assert_eq!(
        near,
        NeighborCounts { lower_x: 1, upper_x: 2, lower_y: 3, upper_y: 0 }
    );
    assert_eq!(near.total(), 6);
}

#[test]
fn nearby_players_sees_the_blocked_edge() {
    let mut grid = OccupancyGrid::new(GridShape::new(4, 4));
    grid.update(&Vec::new());
    let near = grid.nearby_players(Cell::new(1, 1));
    assert_eq!(
        near,
        NeighborCounts { lower_x: 255, upper_x: 0, lower_y: 255, upper_y: 0 }
    );
    assert_eq!(near.total(), 510);
    let corner = grid.nearby_players(Cell::new(i32::MAX, i32::MIN));
    assert_eq!(
        corner,
        NeighborCounts { lower_x: 255, upper_x: 255, lower_y: 255, upper_y: 255 }
    );
    assert_eq!(corner.total(), 1020);
}
