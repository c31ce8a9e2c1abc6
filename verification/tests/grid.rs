use involute_helicoid::grid::Cell;
use involute_helicoid::grid::SampleGrid;

fn at(sweep: usize, roll: usize) -> Cell {
    Cell { sweep, roll }
}

#[test]
fn new_keeps_both_counts() {
    let grid = SampleGrid::new(50, 20);
    assert_eq!(grid.sweep_count, 50);
    assert_eq!(grid.roll_count, 20);
}

#[test]
fn divisions_give_one_sample_more_than_intervals() {
    let grid = SampleGrid::with_divisions(10, 50).unwrap();
    assert_eq!(grid.sweep_count, 11);
    assert_eq!(grid.roll_count, 51);
    assert_eq!(grid.checked_len(), Some(561));
    assert_eq!(grid.enumerate().len(), 561);
}

#[test]
fn no_divisions_still_give_one_sample() {
    let grid = SampleGrid::with_divisions(0, 0).unwrap();
    assert_eq!(grid, SampleGrid::new(1, 1));
    assert_eq!(grid.enumerate(), vec![at(0, 0)]);
}

#[test]
fn divisions_that_do_not_fit_give_no_grid() {
    assert_eq!(SampleGrid::with_divisions(usize::MAX, 3), None);
    assert_eq!(SampleGrid::with_divisions(3, usize::MAX), None);
    assert_eq!(
        SampleGrid::with_divisions(usize::MAX - 1, 0),
        Some(SampleGrid::new(usize::MAX, 1))
    );
}

#[test]
fn checked_len_is_the_product_of_the_counts() {
    assert_eq!(SampleGrid::new(50, 20).checked_len(), Some(1000));
    assert_eq!(SampleGrid::new(0, 20).checked_len(), Some(0));
    assert_eq!(SampleGrid::new(7, 0).checked_len(), Some(0));
    assert_eq!(SampleGrid::new(usize::MAX, 1).checked_len(), Some(usize::MAX));
}

#[test]
fn checked_len_is_none_when_the_product_does_not_fit() {
    assert_eq!(SampleGrid::new(usize::MAX, 2).checked_len(), None);
    assert_eq!(SampleGrid::new(usize::MAX / 2 + 1, 2).checked_len(), None);
}

#[test]
fn enumerate_is_sweep_major() {
    let grid = SampleGrid::new(2, 3);
    assert_eq!(
        grid.enumerate(),
        vec![at(0, 0), at(0, 1), at(0, 2), at(1, 0), at(1, 1), at(1, 2)]
    );
}

#[test]
fn enumerate_of_an_empty_grid_is_empty() {
    assert!(SampleGrid::new(0, 5).enumerate().is_empty());
    assert!(SampleGrid::new(5, 0).enumerate().is_empty());
    assert!(SampleGrid::new(0, 0).enumerate().is_empty());
}

#[test]
fn cell_finds_the_place_in_sweep_major_order() {
    let grid = SampleGrid::new(11, 51);
    assert_eq!(grid.cell(0), Some(at(0, 0)));
    assert_eq!(grid.cell(50), Some(at(0, 50)));
    assert_eq!(grid.cell(51), Some(at(1, 0)));
    assert_eq!(grid.cell(52), Some(at(1, 1)));
    assert_eq!(grid.cell(560), Some(at(10, 50)));
}

#[test]
fn cell_is_none_past_the_last_place() {
    let grid = SampleGrid::new(11, 51);
    assert_eq!(grid.cell(561), None);
    assert_eq!(grid.cell(usize::MAX), None);
    assert_eq!(SampleGrid::new(4, 0).cell(0), None);
    assert_eq!(SampleGrid::new(0, 4).cell(0), None);
}

#[test]
fn index_is_the_place_of_a_cell() {
    let grid = SampleGrid::new(11, 51);
    assert_eq!(grid.index(at(0, 0)), Some(0));
    assert_eq!(grid.index(at(1, 1)), Some(52));
    assert_eq!(grid.index(at(10, 50)), Some(560));
}

#[test]
fn index_is_none_outside_the_grid() {
    let grid = SampleGrid::new(11, 51);
    assert_eq!(grid.index(at(11, 0)), None);
    assert_eq!(grid.index(at(0, 51)), None);
    assert_eq!(SampleGrid::new(0, 0).index(at(0, 0)), None);
}

#[test]
fn index_is_none_when_the_place_does_not_fit() {
    let grid = SampleGrid::new(usize::MAX, usize::MAX);
    assert_eq!(grid.index(at(2, 0)), None);
    assert_eq!(grid.index(at(1, 1)), None);
    assert_eq!(grid.index(at(1, 0)), Some(usize::MAX));
    assert_eq!(grid.index(at(0, 7)), Some(7));
}

#[test]
fn index_and_cell_undo_each_other() {
    let grid = SampleGrid::new(7, 5);
    for k in 0..35 {
        let cell = grid.cell(k).unwrap();
        assert!(cell.sweep < 7 && cell.roll < 5);
        assert_eq!(grid.index(cell), Some(k));
    }
    for sweep in 0..7 {
        for roll in 0..5 {
            let k = grid.index(at(sweep, roll)).unwrap();
            assert_eq!(k, sweep * 5 + roll);
            assert_eq!(grid.cell(k), Some(at(sweep, roll)));
        }
    }
}

#[test]
fn places_order_cells_by_sweep_then_roll() {
    let grid = SampleGrid::new(4, 6);
    let cells = grid.enumerate();
    for (i, a) in cells.iter().enumerate() {
        for (j, b) in cells.iter().enumerate() {
            let before = a.sweep < b.sweep || (a.sweep == b.sweep && a.roll < b.roll);
            assert_eq!(i < j, before);
            assert_eq!(i == j, a == b);
        }
    }
}

#[test]
fn first_is_the_cell_at_place_zero() {
    assert_eq!(SampleGrid::new(3, 4).first(), Some(at(0, 0)));
    assert_eq!(SampleGrid::new(1, 1).first(), Some(at(0, 0)));
}

#[test]
fn first_of_an_empty_grid_is_none() {
    assert_eq!(SampleGrid::new(0, 4).first(), None);
    assert_eq!(SampleGrid::new(3, 0).first(), None);
}

#[test]
fn next_steps_along_the_roll_axis_and_wraps_to_the_next_sweep() {
    let grid = SampleGrid::new(11, 51);
    assert_eq!(grid.next(at(0, 0)), Some(at(0, 1)));
    assert_eq!(grid.next(at(0, 49)), Some(at(0, 50)));
    assert_eq!(grid.next(at(0, 50)), Some(at(1, 0)));
    assert_eq!(grid.next(at(9, 50)), Some(at(10, 0)));
}

#[test]
fn next_is_none_after_the_last_cell_and_outside_the_grid() {
    let grid = SampleGrid::new(11, 51);
    assert_eq!(grid.next(at(10, 50)), None);
    assert_eq!(grid.next(at(11, 0)), None);
    assert_eq!(grid.next(at(0, 51)), None);
    assert_eq!(SampleGrid::new(1, 1).next(at(0, 0)), None);
}

#[test]
fn walking_with_first_and_next_gives_enumerate() {
    let grid = SampleGrid::new(5, 3);
    let mut walked = Vec::new();
    let mut here = grid.first();
    while let Some(cell) = here {
        walked.push(cell);
        here = grid.next(cell);
    }
    assert_eq!(walked, grid.enumerate());
    assert_eq!(walked.len(), 15);
}

#[test]
fn walking_can_start_again_from_any_cell() {
    let grid = SampleGrid::new(3, 3);
    let mut walked = Vec::new();
    let mut here = Some(at(1, 2));
    while let Some(cell) = here {
        walked.push(cell);
        here = grid.next(cell);
    }
    assert_eq!(walked, vec![at(1, 2), at(2, 0), at(2, 1), at(2, 2)]);
}

#[test]
fn sample_collects_one_point_per_cell_in_order() {
    let grid = SampleGrid::new(50, 20);
    let points = grid.sample(|cell: Cell| cell.sweep * 100 + cell.roll);
    assert_eq!(points.len(), 1000);
    assert_eq!(points[0], 0);
    assert_eq!(points[19], 19);
    assert_eq!(points[20], 100);
    assert_eq!(points[21], 101);
    assert_eq!(points[999], 4919);
    for (k, point) in points.iter().enumerate() {
        assert_eq!(*point, (k / 20) * 100 + k % 20);
    }
}

#[test]
fn sample_calls_the_point_function_once_per_cell() {
    let calls = std::cell::Cell::new(0usize);
    let grid = SampleGrid::new(6, 7);
    let points = grid.sample(|cell: Cell| {
        calls.set(calls.get() + 1);
        cell
    });
    assert_eq!(calls.get(), 42);
    assert_eq!(points, grid.enumerate());
}

#[test]
fn sample_of_an_empty_grid_calls_nothing() {
    let calls = std::cell::Cell::new(0usize);
    let points = SampleGrid::new(0, 9).sample(|_cell: Cell| {
        calls.set(calls.get() + 1);
        1u8
    });
    assert!(points.is_empty());
    assert_eq!(calls.get(), 0);
}

#[test]
fn try_sample_collects_every_point_when_none_fails() {
    let grid = SampleGrid::new(4, 5);
    let outcome: Result<Vec<usize>, String> =
        grid.try_sample(|cell: Cell| Ok(cell.sweep * 5 + cell.roll));
    assert_eq!(outcome, Ok((0..20).collect::<Vec<usize>>()));
}

#[test]
fn try_sample_returns_the_first_error_in_sweep_major_order() {
    let grid = SampleGrid::new(4, 5);
    let outcome: Result<Vec<usize>, (usize, usize)> = grid.try_sample(|cell: Cell| {
        if cell.sweep >= 2 || cell.roll == 4 {
            Err((cell.sweep, cell.roll))
        } else {
            Ok(0)
        }
    });
    assert_eq!(outcome, Err((0, 4)));
}

#[test]
fn try_sample_visits_no_cell_after_the_failing_one() {
    let visited = std::cell::RefCell::new(Vec::new());
    let grid = SampleGrid::new(3, 4);
    let outcome: Result<Vec<u8>, Cell> = grid.try_sample(|cell: Cell| {
        visited.borrow_mut().push(cell);
        if cell == at(1, 2) {
            Err(cell)
        } else {
            Ok(7)
        }
    });
    assert_eq!(outcome, Err(at(1, 2)));
    assert_eq!(
        visited.into_inner(),
        vec![at(0, 0), at(0, 1), at(0, 2), at(0, 3), at(1, 0), at(1, 1), at(1, 2)]
    );
}

#[test]
fn try_sample_of_an_empty_grid_succeeds_with_no_points() {
    let outcome: Result<Vec<u8>, u8> = SampleGrid::new(5, 0).try_sample(|_cell: Cell| Err(1));
    assert_eq!(outcome, Ok(Vec::new()));
}
