use vstd::prelude::*;

verus! {

/// A point of model space with integer coordinates.
#[derive(Clone, Copy, Debug, PartialEq, Eq, Structural)]
pub struct Point3 {
    pub x: i32,
    pub y: i32,
    pub z: i32,
}

impl Point3 {
    pub open spec fn coords(self) -> (int, int, int) {
        (self.x as int, self.y as int, self.z as int)
    }
}

/// The corners of a triangle, in order.
pub open spec fn triangle_coords(t: [Point3; 3]) -> Seq<(int, int, int)> {
    t@.map_values(|p: Point3| p.coords())
}

/// The cube of side 2 centred on the origin as twelve triangles, two per
/// face, faces in the order south (z = -1), east (x = 1), north (z = 1),
/// west (x = -1), top (y = 1), bottom (y = -1).
pub open spec fn unit_cube() -> Seq<Seq<(int, int, int)>> {
    seq![
        seq![(-1, -1, -1), (-1, 1, -1), (1, 1, -1)],
        seq![(-1, -1, -1), (1, 1, -1), (1, -1, -1)],
        seq![(1, -1, -1), (1, 1, -1), (1, 1, 1)],
        seq![(1, -1, -1), (1, 1, 1), (1, -1, 1)],
        seq![(1, -1, 1), (1, 1, 1), (-1, 1, 1)],
        seq![(1, -1, 1), (-1, 1, 1), (-1, -1, 1)],
        seq![(-1, -1, 1), (-1, 1, 1), (-1, 1, -1)],
        seq![(-1, -1, 1), (-1, 1, -1), (-1, -1, -1)],
        seq![(-1, 1, -1), (-1, 1, 1), (1, 1, 1)],
        seq![(-1, 1, -1), (1, 1, 1), (1, 1, -1)],
        seq![(1, -1, 1), (-1, -1, 1), (-1, -1, -1)],
        seq![(1, -1, 1), (-1, -1, -1), (1, -1, -1)],
    ]
}

fn corner(x: i32, y: i32, z: i32) -> (p: Point3)
    ensures
        p.coords() == (x as int, y as int, z as int),
{
    Point3 { x, y, z }
}

/// Builds the cube mesh of `unit_cube`.
pub fn create_cube() -> (mesh: Vec<[Point3; 3]>)
    ensures
        mesh@.len() == unit_cube().len(),
        forall|i: int| 0 <= i < mesh@.len() ==> triangle_coords(#[trigger] mesh@[i]) == unit_cube()[i],
{
    let mut mesh: Vec<[Point3; 3]> = Vec::new();
    // south
    mesh.push([corner(-1, -1, -1), corner(-1, 1, -1), corner(1, 1, -1)]);
    mesh.push([corner(-1, -1, -1), corner(1, 1, -1), corner(1, -1, -1)]);
    // east
    mesh.push([corner(1, -1, -1), corner(1, 1, -1), corner(1, 1, 1)]);
    mesh.push([corner(1, -1, -1), corner(1, 1, 1), corner(1, -1, 1)]);
    // north
    mesh.push([corner(1, -1, 1), corner(1, 1, 1), corner(-1, 1, 1)]);
    mesh.push([corner(1, -1, 1), corner(-1, 1, 1), corner(-1, -1, 1)]);
    // west
    mesh.push([corner(-1, -1, 1), corner(-1, 1, 1), corner(-1, 1, -1)]);
    mesh.push([corner(-1, -1, 1), corner(-1, 1, -1), corner(-1, -1, -1)]);
    // top
    mesh.push([corner(-1, 1, -1), corner(-1, 1, 1), corner(1, 1, 1)]);
    mesh.push([corner(-1, 1, -1), corner(1, 1, 1), corner(1, 1, -1)]);
    // bottom
    mesh.push([corner(1, -1, 1), corner(-1, -1, 1), corner(-1, -1, -1)]);
    mesh.push([corner(1, -1, 1), corner(-1, -1, -1), corner(1, -1, -1)]);
    assert forall|i: int| 0 <= i < mesh@.len() implies triangle_coords(#[trigger] mesh@[i]) == unit_cube()[i] by {
        assert(triangle_coords(mesh@[i]) =~= unit_cube()[i]);
    }
    mesh
}

/// Each coordinate of `p` is 1 or -1: `p` is a corner of the cube.
pub open spec fn is_cube_corner(p: (int, int, int)) -> bool {
    &&& (p.0 == 1 || p.0 == -1)
    &&& (p.1 == 1 || p.1 == -1)
    &&& (p.2 == 1 || p.2 == -1)
}

/// The face plane a triangle lies in, as the axis (0 for x, 1 for y, 2 for
/// z) and the coordinate its three corners share on it; `(3, 0)` when they
/// share none.
pub open spec fn face_of(t: Seq<(int, int, int)>) -> (int, int) {
    if t[0].0 == t[1].0 && t[1].0 == t[2].0 {
        (0, t[0].0)
    } else if t[0].1 == t[1].1 && t[1].1 == t[2].1 {
        (1, t[0].1)
    } else if t[0].2 == t[1].2 && t[1].2 == t[2].2 {
        (2, t[0].2)
    } else {
        (3, 0)
    }
}

/// The cube mesh has twelve triangles of three corners each, every corner
/// at (±1, ±1, ±1); each triangle lies in a face plane, triangles `2k` and
/// `2k + 1` share a face, and the six faces so formed are distinct.
pub proof fn unit_cube_faces()
    ensures
        unit_cube().len() == 12,
        forall|i: int, j: int|
            0 <= i < 12 && 0 <= j < 3 ==> unit_cube()[i].len() == 3 && is_cube_corner(
                #[trigger] unit_cube()[i][j],
            ),
        forall|i: int| 0 <= i < 12 ==> (#[trigger] face_of(unit_cube()[i])).0 < 3,
        forall|k: int| 0 <= k < 6 ==> #[trigger] face_of(unit_cube()[2 * k]) == face_of(unit_cube()[2 * k + 1]),
        forall|k: int, l: int|
            0 <= k < l < 6 ==> #[trigger] face_of(unit_cube()[2 * k]) != #[trigger] face_of(unit_cube()[2 * l]),
{
    let u = unit_cube();
    assert forall|i: int, j: int| 0 <= i < 12 && 0 <= j < 3 implies u[i].len() == 3 && is_cube_corner(
        #[trigger] u[i][j],
    ) by {
        assert(0 <= i < 12);
    }
}

} // verus!
