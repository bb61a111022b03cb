use vstd::prelude::*;

verus! {

/// A character cell of the terminal grid: `x` is the column, `y` the row.
#[derive(Clone, Copy, Debug, PartialEq, Eq, Structural)]
pub struct Cell {
    pub x: i32,
    pub y: i32,
}

impl Cell {
    /// The cell as a pair of mathematical integers `(column, row)`.
    pub open spec fn pos(self) -> (int, int) {
        (self.x as int, self.y as int)
    }
}

/// The positions of a sequence of cells, in order.
pub open spec fn positions(cells: Seq<Cell>) -> Seq<(int, int)> {
    cells.map_values(|c: Cell| c.pos())
}

/// Absolute value.
pub open spec fn abs(v: int) -> int {
    if v < 0 {
        -v
    } else {
        v
    }
}

/// One unit step from `a` toward `target`.
pub open spec fn step_toward(a: int, target: int) -> int {
    if a < target {
        a + 1
    } else {
        a - 1
    }
}

/// The cells visited from `(x, y)` with error term `err` on the way to
/// `(x1, y1)`, for a segment whose extents are `dx` columns and `dy` rows.
///
/// Each round plots the current cell, stops at the target, and otherwise
/// takes a column step when `2 * err >= -dy` and a row step when
/// `2 * err <= dx`; both may happen in one round. A step that is due on an
/// axis already at its target ends the walk.
pub open spec fn line_walk(x: int, y: int, err: int, x1: int, y1: int, dx: nat, dy: nat) -> Seq<(int, int)>
    decreases abs(x1 - x) + abs(y1 - y),
{
    let moves_x = 2 * err >= -dy;
    let moves_y = 2 * err <= dx;
    if x == x1 && y == y1 {
        seq![(x, y)]
    } else if moves_x && x == x1 {
        seq![(x, y)]
    } else if moves_y && y == y1 {
        seq![(x, y)]
    } else {
        let nx = if moves_x { step_toward(x, x1) } else { x };
        let ny = if moves_y { step_toward(y, y1) } else { y };
        let nerr = err - (if moves_x { dy as int } else { 0 }) + (if moves_y { dx as int } else { 0 });
        seq![(x, y)] + line_walk(nx, ny, nerr, x1, y1, dx, dy)
    }
}

/// The cells of the segment from `(x0, y0)` to `(x1, y1)`, in drawing order.
pub open spec fn line_path(x0: int, y0: int, x1: int, y1: int) -> Seq<(int, int)> {
    let dx = abs(x1 - x0);
    let dy = abs(y1 - y0);
    line_walk(x0, y0, dx - dy, x1, y1, dx as nat, dy as nat)
}

/// Scan-converts the segment from `from` to `to` into the cells to plot,
/// in drawing order, starting at `from`.
pub fn line_cells(from: Cell, to: Cell) -> (cells: Vec<Cell>)
    ensures
        positions(cells@) == line_path(from.x as int, from.y as int, to.x as int, to.y as int),
{
    let ghost path = line_path(from.x as int, from.y as int, to.x as int, to.y as int);
    let x1: i64 = to.x as i64;
    let y1: i64 = to.y as i64;
    let mut x: i64 = from.x as i64;
    let mut y: i64 = from.y as i64;
    let dx: i64 = if x1 >= x { x1 - x } else { x - x1 };
    // the row extent is kept as a magnitude: a column step is due when
    // `2 * err >= -dy`
    let dy: i64 = if y1 >= y { y1 - y } else { y - y1 };
    let sx: i64 = if x < x1 { 1 } else { -1 };
    let sy: i64 = if y < y1 { 1 } else { -1 };
    let mut err: i64 = dx - dy;
    let mut cells: Vec<Cell> = Vec::new();
    loop
        invariant_except_break
            positions(cells@) + line_walk(x as int, y as int, err as int, x1 as int, y1 as int, dx as nat, dy as nat) == path,
        invariant
            x1 == to.x,
            y1 == to.y,
            dx == abs(to.x - from.x),
            dy == abs(to.y - from.y),
            (sx == 1 && from.x <= x <= x1) || (sx == -1 && x1 <= x <= from.x),
            (sy == 1 && from.y <= y <= y1) || (sy == -1 && y1 <= y <= from.y),
            -2 * dy <= err <= 2 * dx,
            path == line_path(from.x as int, from.y as int, to.x as int, to.y as int),
        ensures
            positions(cells@) == path,
        decreases abs(x1 - x) + abs(y1 - y),
    {
        let ghost prev_cells = cells@;
        let ghost (px, py, perr) = (x as int, y as int, err as int);
        let cell = Cell { x: x as i32, y: y as i32 };
        cells.push(cell);
        assert(positions(cells@) =~= positions(prev_cells).push(cell.pos()));
        if x == x1 && y == y1 {
            break;
        }
        let e2 = 2 * err;
        if e2 >= -dy {
            if x == x1 {
                break;
            }
            err = err - dy;
            x = x + sx;
        }
        if e2 <= dx {
            if y == y1 {
                break;
            }
            err = err + dx;
            y = y + sy;
        }
        assert(line_walk(px, py, perr, x1 as int, y1 as int, dx as nat, dy as nat)
            == seq![(px, py)] + line_walk(x as int, y as int, err as int, x1 as int, y1 as int, dx as nat, dy as nat));
        assert(positions(cells@) + line_walk(x as int, y as int, err as int, x1 as int, y1 as int, dx as nat, dy as nat)
            =~= positions(prev_cells) + line_walk(px, py, perr, x1 as int, y1 as int, dx as nat, dy as nat));
    }
    cells
}

/// Two cells are neighbours on the grid (sharing a side or a corner) and differ.
pub open spec fn touching(a: (int, int), b: (int, int)) -> bool {
    &&& a != b
    &&& abs(a.0 - b.0) <= 1
    &&& abs(a.1 - b.1) <= 1
}

/// Distance from `p` to `(x1, y1)` counted in unit steps along each axis.
pub open spec fn steps_left(p: (int, int), x1: int, y1: int) -> int {
    abs(x1 - p.0) + abs(y1 - p.1)
}

proof fn lemma_walk_shape(x: int, y: int, err: int, x1: int, y1: int, dx: nat, dy: nat)
    ensures
        ({
            let w = line_walk(x, y, err, x1, y1, dx, dy);
            &&& w.len() >= 1
            &&& w[0] == (x, y)
            &&& forall|i: int| 0 <= i < w.len() - 1 ==> #[trigger] touching(w[i], w[i + 1])
            &&& forall|i: int, j: int|
                0 <= i < j < w.len() ==> steps_left(#[trigger] w[j], x1, y1) < steps_left(
                    #[trigger] w[i],
                    x1,
                    y1,
                )
        }),
    decreases abs(x1 - x) + abs(y1 - y),
{
    let w = line_walk(x, y, err, x1, y1, dx, dy);
    let moves_x = 2 * err >= -dy;
    let moves_y = 2 * err <= dx;
    if x == x1 && y == y1 {
    } else if moves_x && x == x1 {
    } else if moves_y && y == y1 {
    } else {
        let nx = if moves_x { step_toward(x, x1) } else { x };
        let ny = if moves_y { step_toward(y, y1) } else { y };
        let nerr = err - (if moves_x { dy as int } else { 0 }) + (if moves_y { dx as int } else { 0 });
        let rest = line_walk(nx, ny, nerr, x1, y1, dx, dy);
        lemma_walk_shape(nx, ny, nerr, x1, y1, dx, dy);
        assert(w == seq![(x, y)] + rest);
        assert forall|i: int| 0 <= i < w.len() - 1 implies #[trigger] touching(w[i], w[i + 1]) by {
            if i > 0 {
                let k = i - 1;
                assert(touching(rest[k], rest[k + 1]));
                assert(w[i] == rest[k] && w[i + 1] == rest[k + 1]);
            } else {
                assert(w[0] == (x, y) && w[1] == rest[0]);
                assert(moves_x || moves_y);
            }
        }
        assert forall|i: int, j: int| 0 <= i < j < w.len() implies steps_left(#[trigger] w[j], x1, y1)
            < steps_left(#[trigger] w[i], x1, y1) by {
            assert(w[j] == rest[j - 1]);
            if i > 0 {
                assert(w[i] == rest[i - 1]);
            } else if j > 1 {
                assert(steps_left(rest[j - 1], x1, y1) < steps_left(rest[0], x1, y1));
            }
        }
    }
}

/// The larger of `a` and `b`.
pub open spec fn max(a: int, b: int) -> int {
    if a >= b {
        a
    } else {
        b
    }
}

/// On a walk whose error term agrees with its position (the relation that
/// holds from the start of every segment) and whose position stays near
/// the ideal segment, no early stop fires: the walk reaches its target, and
/// the axis with the longer extent takes a step in every round.
proof fn lemma_walk_reaches_target(x: int, y: int, err: int, x1: int, y1: int, dx: nat, dy: nat)
    requires
        abs(x1 - x) <= dx,
        abs(y1 - y) <= dy,
        err == dx - dy + dy * abs(x1 - x) - dx * abs(y1 - y),
        -max(dx as int, dy as int) <= 2 * (dy * abs(x1 - x) - dx * abs(y1 - y)) <= max(dx as int, dy as int),
    ensures
        line_walk(x, y, err, x1, y1, dx, dy).last() == (x1, y1),
        line_walk(x, y, err, x1, y1, dx, dy).len() == (if dx >= dy { abs(x1 - x) } else { abs(y1 - y) }) + 1,
    decreases abs(x1 - x) + abs(y1 - y),
{
    let a = abs(x1 - x);
    let b = abs(y1 - y);
    let d = dy * a - dx * b;
    let m = max(dx as int, dy as int);
    let moves_x = 2 * err >= -dy;
    let moves_y = 2 * err <= dx;
    if dx >= dy {
        assert(moves_x);
    } else {
        assert(moves_y);
    }
    if moves_x && a == 0 {
        assert(b == 0) by (nonlinear_arith)
            requires
                0 <= b <= dy,
                0 <= dx,
                a == 0,
                err == dx - dy + dy * a - dx * b,
                2 * err >= -dy,
        ;
    }
    if moves_y && b == 0 {
        assert(a == 0) by (nonlinear_arith)
            requires
                0 <= a <= dx,
                0 <= dy,
                b == 0,
                err == dx - dy + dy * a - dx * b,
                2 * err <= dx,
        ;
    }
    if x == x1 && y == y1 {
    } else {
        let nx = if moves_x { step_toward(x, x1) } else { x };
        let ny = if moves_y { step_toward(y, y1) } else { y };
        let nerr = err - (if moves_x { dy as int } else { 0 }) + (if moves_y { dx as int } else { 0 });
        let mx: int = if moves_x { 1 } else { 0 };
        let my: int = if moves_y { 1 } else { 0 };
        assert(abs(x1 - nx) == a - mx);
        assert(abs(y1 - ny) == b - my);
        assert(dy * (a - mx) == dy * a - dy * mx && dx * (b - my) == dx * b - dx * my) by (nonlinear_arith);
        assert(dy * mx == (if moves_x { dy as int } else { 0 }) && dx * my == (if moves_y { dx as int } else { 0 }))
            by (nonlinear_arith)
            requires
                mx == (if moves_x { 1int } else { 0 }),
                my == (if moves_y { 1int } else { 0 }),
        ;
        lemma_walk_reaches_target(nx, ny, nerr, x1, y1, dx, dy);
        let rest = line_walk(nx, ny, nerr, x1, y1, dx, dy);
        lemma_walk_shape(nx, ny, nerr, x1, y1, dx, dy);
        assert(line_walk(x, y, err, x1, y1, dx, dy) == seq![(x, y)] + rest);
    }
}

/// A drawn segment begins with the cell of its first end point and ends
/// with the cell of its second.
pub proof fn line_path_ends(x0: int, y0: int, x1: int, y1: int)
    ensures
        line_path(x0, y0, x1, y1).len() >= 1,
        line_path(x0, y0, x1, y1)[0] == (x0, y0),
        line_path(x0, y0, x1, y1).last() == (x1, y1),
{
    let dx = abs(x1 - x0);
    let dy = abs(y1 - y0);
    assert(dy * dx - dx * dy == 0) by (nonlinear_arith);
    lemma_walk_shape(x0, y0, dx - dy, x1, y1, dx as nat, dy as nat);
    lemma_walk_reaches_target(x0, y0, dx - dy, x1, y1, dx as nat, dy as nat);
}

/// A drawn segment has one cell per unit of its longer extent, plus one:
/// the longer axis advances in every round.
pub proof fn line_path_len(x0: int, y0: int, x1: int, y1: int)
    ensures
        line_path(x0, y0, x1, y1).len() == max(abs(x1 - x0), abs(y1 - y0)) + 1,
{
    let dx = abs(x1 - x0);
    let dy = abs(y1 - y0);
    assert(dy * dx - dx * dy == 0) by (nonlinear_arith);
    lemma_walk_reaches_target(x0, y0, dx - dy, x1, y1, dx as nat, dy as nat);
}

/// A drawn segment has no gaps: each cell touches the one before it by a
/// side or a corner, and is a different cell.
pub proof fn line_path_connected(x0: int, y0: int, x1: int, y1: int)
    ensures
        forall|i: int|
            0 <= i < line_path(x0, y0, x1, y1).len() - 1 ==> #[trigger] touching(
                line_path(x0, y0, x1, y1)[i],
                line_path(x0, y0, x1, y1)[i + 1],
            ),
{
    let dx = abs(x1 - x0);
    let dy = abs(y1 - y0);
    lemma_walk_shape(x0, y0, dx - dy, x1, y1, dx as nat, dy as nat);
}

/// A drawn segment plots no cell twice.
pub proof fn line_path_distinct(x0: int, y0: int, x1: int, y1: int)
    ensures
        forall|i: int, j: int|
            0 <= i < j < line_path(x0, y0, x1, y1).len() ==> line_path(x0, y0, x1, y1)[i]
                != line_path(x0, y0, x1, y1)[j],
{
    let dx = abs(x1 - x0);
    let dy = abs(y1 - y0);
    let w = line_path(x0, y0, x1, y1);
    lemma_walk_shape(x0, y0, dx - dy, x1, y1, dx as nat, dy as nat);
    assert forall|i: int, j: int| 0 <= i < j < w.len() implies w[i] != w[j] by {
        assert(steps_left(w[j], x1, y1) < steps_left(w[i], x1, y1));
    }
}

/// Why a polygon handed to the triangle rasterizer was refused.
#[derive(Clone, Copy, Debug, PartialEq, Eq, Structural)]
pub enum TriangleError {
    /// Fewer than three corners; holds how many are missing.
    MissingVertices(usize),
    /// More than three corners; holds how many are surplus.
    ExtraVertices(usize),
}

/// Number of corners of a triangle.
pub const TRIANGLE_VERTEX_COUNT: usize = 3;

/// The outline of the triangle with corners `a`, `b`, `c`: the edges
/// `a`-`b`, `b`-`c` and `a`-`c`, drawn in that order.
pub open spec fn triangle_path(a: (int, int), b: (int, int), c: (int, int)) -> Seq<(int, int)> {
    line_path(a.0, a.1, b.0, b.1) + line_path(b.0, b.1, c.0, c.1) + line_path(a.0, a.1, c.0, c.1)
}

/// Scan-converts the outline of a triangle given by its corners in screen
/// cells. A corner list of any length but three is refused, with the count
/// of missing or surplus corners.
pub fn triangle_outline(corners: &Vec<Cell>) -> (r: Result<Vec<Cell>, TriangleError>)
    ensures
        match r {
            Ok(cells) => corners@.len() == 3 && positions(cells@) == triangle_path(
                corners@[0].pos(),
                corners@[1].pos(),
                corners@[2].pos(),
            ),
            Err(TriangleError::MissingVertices(n)) => corners@.len() < 3 && n == 3 - corners@.len(),
            Err(TriangleError::ExtraVertices(n)) => corners@.len() > 3 && n == corners@.len() - 3,
        },
{
    let count = corners.len();
    if count < TRIANGLE_VERTEX_COUNT {
        return Err(TriangleError::MissingVertices(TRIANGLE_VERTEX_COUNT - count));
    }
    if count > TRIANGLE_VERTEX_COUNT {
        return Err(TriangleError::ExtraVertices(count - TRIANGLE_VERTEX_COUNT));
    }
    let a = corners[0];
    let b = corners[1];
    let c = corners[2];
    let mut cells = line_cells(a, b);
    let mut second = line_cells(b, c);
    let mut third = line_cells(a, c);
    let ghost (p1, p2, p3) = (cells@, second@, third@);
    cells.append(&mut second);
    cells.append(&mut third);
    assert(positions(cells@) =~= positions(p1) + positions(p2) + positions(p3));
    Ok(cells)
}

} // verus!
