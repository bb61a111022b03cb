use cube_plasma::raster::{line_cells, triangle_outline, Cell, TriangleError};

fn cell(x: i32, y: i32) -> Cell {
    Cell { x, y }
}

fn coords(cells: &[Cell]) -> Vec<(i32, i32)> {
    cells.iter().map(|c| (c.x, c.y)).collect()
}

#[test]
fn point_segment_plots_one_cell() {
    let cells = line_cells(cell(0, 0), cell(0, 0));
    assert_eq!(coords(&cells), vec![(0, 0)]);
}

#[test]
fn horizontal_segment_plots_each_column_once() {
    let cells = line_cells(cell(0, 0), cell(3, 0));
    assert_eq!(coords(&cells), vec![(0, 0), (1, 0), (2, 0), (3, 0)]);
}

#[test]
fn vertical_segment_plots_each_row_once() {
    let cells = line_cells(cell(0, 0), cell(0, 3));
    assert_eq!(coords(&cells), vec![(0, 0), (0, 1), (0, 2), (0, 3)]);
}

#[test]
fn backward_segments_walk_toward_the_start() {
    assert_eq!(coords(&line_cells(cell(3, 0), cell(0, 0))), vec![(3, 0), (2, 0), (1, 0), (0, 0)]);
    assert_eq!(coords(&line_cells(cell(0, 2), cell(0, 0))), vec![(0, 2), (0, 1), (0, 0)]);
}

#[test]
fn diagonal_segment_steps_both_axes_at_once() {
    let cells = line_cells(cell(0, 0), cell(3, 3));
    assert_eq!(coords(&cells), vec![(0, 0), (1, 1), (2, 2), (3, 3)]);
    let cells = line_cells(cell(2, -1), cell(-1, 2));
    assert_eq!(coords(&cells), vec![(2, -1), (1, 0), (0, 1), (-1, 2)]);
}

#[test]
fn shallow_segment_matches_bresenham() {
    let cells = line_cells(cell(0, 0), cell(4, 2));
    assert_eq!(coords(&cells), vec![(0, 0), (1, 1), (2, 1), (3, 2), (4, 2)]);
    let cells = line_cells(cell(1, 1), cell(6, 3));
    assert_eq!(coords(&cells), vec![(1, 1), (2, 1), (3, 2), (4, 2), (5, 3), (6, 3)]);
}

#[test]
fn steep_segment_matches_bresenham() {
    let cells = line_cells(cell(0, 0), cell(2, 5));
    assert_eq!(coords(&cells), vec![(0, 0), (0, 1), (1, 2), (1, 3), (2, 4), (2, 5)]);
}

#[test]
fn segments_are_connected_distinct_and_end_at_target() {
    let ends = [
        (cell(0, 0), cell(17, -5)),
        (cell(-8, 3), cell(4, 29)),
        (cell(40, 20), cell(-3, -11)),
        (cell(5, 5), cell(5, -9)),
    ];
    for (a, b) in ends.iter() {
        let cells = coords(&line_cells(*a, *b));
        assert_eq!(cells[0], (a.x, a.y));
        assert_eq!(*cells.last().unwrap(), (b.x, b.y));
        let longest = (b.x - a.x).abs().max((b.y - a.y).abs());
        assert_eq!(cells.len() as i32, longest + 1);
        for w in cells.windows(2) {
            assert!(w[0] != w[1]);
            assert!((w[0].0 - w[1].0).abs() <= 1 && (w[0].1 - w[1].1).abs() <= 1);
        }
        for i in 0..cells.len() {
            for j in (i + 1)..cells.len() {
                assert_ne!(cells[i], cells[j]);
            }
        }
    }
}

#[test]
fn extreme_coordinates_do_not_overflow() {
    let cells = line_cells(cell(i32::MAX, i32::MIN), cell(i32::MAX - 2, i32::MIN + 1));
    assert_eq!(
        coords(&cells),
        vec![(i32::MAX, i32::MIN), (i32::MAX - 1, i32::MIN + 1), (i32::MAX - 2, i32::MIN + 1)]
    );
}

#[test]
fn triangle_outline_draws_three_edges_in_order() {
    let corners = vec![cell(0, 0), cell(2, 0), cell(2, 2)];
    let cells = coords(&triangle_outline(&corners).unwrap());
    assert_eq!(
        cells,
        vec![
            (0, 0), (1, 0), (2, 0),
            (2, 0), (2, 1), (2, 2),
            (0, 0), (1, 1), (2, 2),
        ]
    );
}

#[test]
fn triangle_with_two_corners_is_missing_one() {
    let corners = vec![cell(0, 0), cell(2, 0)];
    assert_eq!(triangle_outline(&corners), Err(TriangleError::MissingVertices(1)));
    assert_eq!(triangle_outline(&Vec::new()), Err(TriangleError::MissingVertices(3)));
}

#[test]
fn triangle_with_four_corners_has_one_extra() {
    let corners = vec![cell(0, 0), cell(2, 0), cell(2, 2), cell(0, 2)];
    assert_eq!(triangle_outline(&corners), Err(TriangleError::ExtraVertices(1)));
}
