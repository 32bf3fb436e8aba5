//! Hexagonal grid geometry: axial and cube coordinates, distances,
//! directions and a board of tiles addressed by axial position.

use vstd::prelude::*;

verus! {

/// Cube coordinates of a hexagon: `x + y + z == 0`.
#[derive(Debug, Clone, Copy, PartialEq, Eq, Structural)]
pub struct PosCube {
    pub x: i32,
    pub y: i32,
    pub z: i32,
}

/// Axial coordinates of a hexagon: column `q` and row `r`.
#[derive(Debug, Clone, Copy, PartialEq, Eq, Hash, Structural)]
pub struct PosHex {
    /// column
    pub q: i32,
    /// row
    pub r: i32,
}

impl PosHex {
    pub fn new(q: i32, r: i32) -> (pos: PosHex)
        ensures
            pos == (PosHex { q, r }),
    {
        PosHex { q, r }
    }
}

/// Absolute value of an integer.
pub open spec fn abs_int(v: int) -> int {
    if v < 0 {
        -v
    } else {
        v
    }
}

/// Number of steps between two cells given in cube coordinates.
pub open spec fn cube_distance(a: PosCube, b: PosCube) -> int {
    (abs_int(a.x - b.x) + abs_int(a.y - b.y) + abs_int(a.z - b.z)) / 2
}

/// Number of steps between two cells given in axial coordinates.
pub open spec fn hex_distance(a: PosHex, b: PosHex) -> int {
    (abs_int(a.q - b.q) + abs_int((a.q - b.q) + (a.r - b.r)) + abs_int(a.r - b.r)) / 2
}

/// A distance as the `i32` functions report it: exact wherever it fits,
/// and the largest `i32` otherwise.
pub open spec fn reported_distance(d: int) -> int {
    if d > i32::MAX {
        i32::MAX as int
    } else {
        d
    }
}

/// The hexagon distance is the largest of the three axis differences.
pub proof fn lemma_hex_distance_is_max(a: PosHex, b: PosHex)
    ensures
        hex_distance(a, b) >= abs_int(a.q - b.q),
        hex_distance(a, b) >= abs_int(a.r - b.r),
        hex_distance(a, b) >= abs_int((a.q - b.q) + (a.r - b.r)),
        hex_distance(a, b) == abs_int(a.q - b.q) || hex_distance(a, b) == abs_int(a.r - b.r)
            || hex_distance(a, b) == abs_int((a.q - b.q) + (a.r - b.r)),
        hex_distance(a, b) == hex_distance(b, a),
        (hex_distance(a, b) == 0) == (a == b),
{
}

/// Converts axial to cube coordinates.
pub fn hex_to_cube(hex: PosHex) -> (cube: PosCube)
    requires
        i32::MIN <= -(hex.q as int) - hex.r as int <= i32::MAX,
    ensures
        cube.x == hex.q,
        cube.z == hex.r,
        cube.x + cube.y + cube.z == 0,
{
    let y: i64 = -(hex.q as i64) - (hex.r as i64);
    PosCube { x: hex.q, y: y as i32, z: hex.r }
}

/// Converts cube to axial coordinates.
pub fn cube_to_hex(cube: PosCube) -> (hex: PosHex)
    ensures
        hex == (PosHex { q: cube.x, r: cube.z }),
{
    PosHex { q: cube.x, r: cube.z }
}

fn abs_wide(v: i64) -> (r: i64)
    requires
        v > i64::MIN,
    ensures
        r == abs_int(v as int),
{
    if v < 0 {
        -v
    } else {
        v
    }
}

fn report_distance(d: i64) -> (r: i32)
    requires
        d >= 0,
    ensures
        r == reported_distance(d as int),
{
    if d > 0x7fff_ffffi64 {
        0x7fff_ffffi32
    } else {
        d as i32
    }
}

/// Distance between two cells in cube coordinates.
pub fn distance_cube(a: PosCube, b: PosCube) -> (d: i32)
    ensures
        d == reported_distance(cube_distance(a, b)),
{
    let dx: i64 = abs_wide(a.x as i64 - b.x as i64);
    let dy: i64 = abs_wide(a.y as i64 - b.y as i64);
    let dz: i64 = abs_wide(a.z as i64 - b.z as i64);
    report_distance((dx + dy + dz) / 2)
}

/// Distance between two cells in axial coordinates.
pub fn distance_hex(a: PosHex, b: PosHex) -> (d: i32)
    ensures
        d == reported_distance(hex_distance(a, b)),
        d >= 0,
{
    let dq: i64 = a.q as i64 - b.q as i64;
    let dr: i64 = a.r as i64 - b.r as i64;
    let sum: i64 = abs_wide(dq) + abs_wide(dq + dr) + abs_wide(dr);
    report_distance(sum / 2)
}

/// Whether `pos` lies on a board of the given radius around the origin.
pub open spec fn on_board(radius: int, pos: PosHex) -> bool {
    hex_distance(PosHex { q: 0, r: 0 }, pos) <= radius
}

fn is_inboard(radius: i32, pos: PosHex) -> (r: bool)
    ensures
        r == on_board(radius as int, pos),
{
    let dq: i64 = -(pos.q as i64);
    let dr: i64 = -(pos.r as i64);
    let sum: i64 = abs_wide(dq) + abs_wide(dq + dr) + abs_wide(dr);
    sum / 2 <= radius as i64
}

/// Number of rows of a board of the given radius.
pub fn radius_to_diameter(radius: i32) -> (d: i32)
    requires
        -0x4000_0000 <= radius < 0x3fff_ffff,
    ensures
        d == radius * 2 + 1,
{
    radius * 2 + 1
}

/// Largest radius a board can have.
pub const MAX_RADIUS: i32 = 10_000;

/// A hexagonal board of tiles around the origin.
///
/// ```text
///     [-1, 0]  [0, -1]
/// [-1, 1]  [0, 0]  [1, -1]
///     [ 0, 1]  [ 1, 0]
/// ```
#[derive(Debug, Clone, PartialEq)]
pub struct HexMap<T: Copy> {
    pub tiles: Vec<T>,
    pub size: i32,
    pub radius: i32,
}

impl<T: Copy> HexMap<T> {
    /// The board is consistent: one tile for every cell of the bounding square.
    pub open spec fn wf(&self) -> bool {
        &&& 0 <= self.radius <= MAX_RADIUS
        &&& self.size == self.radius * 2 + 1
        &&& self.tiles@.len() == self.size * self.size
    }

    /// Whether `pos` is a cell of this board.
    pub open spec fn contains(&self, pos: PosHex) -> bool {
        on_board(self.radius as int, pos)
    }

    /// Place of the tile of `pos` in `tiles`.
    pub open spec fn index_of(&self, pos: PosHex) -> int {
        (pos.r + self.radius) + (pos.q + self.radius) * self.size
    }

    /// The tile at `pos`.
    pub open spec fn tile_at(&self, pos: PosHex) -> T {
        self.tiles@[self.index_of(pos)]
    }

    /// Every cell of the board has its own place in `tiles`.
    pub proof fn lemma_index_in_bounds(&self, pos: PosHex)
        requires
            self.wf(),
            self.contains(pos),
        ensures
            0 <= self.index_of(pos) < self.tiles@.len(),
            -self.radius <= pos.q <= self.radius,
            -self.radius <= pos.r <= self.radius,
    {
        lemma_hex_distance_is_max(PosHex { q: 0, r: 0 }, pos);
        let size = self.size as int;
        let col = pos.q + self.radius;
        let row = pos.r + self.radius;
        assert(0 <= col <= size - 1);
        assert(0 <= row <= size - 1);
        assert(col * size <= (size - 1) * size) by (nonlinear_arith)
            requires
                0 <= col <= size - 1,
                size >= 1,
        ;
        assert(0 <= col * size) by (nonlinear_arith)
            requires
                0 <= col,
                size >= 1,
        ;
        assert((size - 1) * size + size == size * size) by (nonlinear_arith);
    }

    /// A board of the given radius with every tile set to `tile`.
    pub fn filled(radius: i32, tile: T) -> (map: HexMap<T>)
        requires
            0 <= radius <= MAX_RADIUS,
        ensures
            map.wf(),
            map.radius == radius,
            forall|i: int| 0 <= i < map.tiles@.len() ==> map.tiles@[i] == tile,
    {
        let size: i32 = radius * 2 + 1;
        assert(size * size <= 20_001 * 20_001) by (nonlinear_arith)
            requires
                0 <= size <= 20_001,
        ;
        let tiles_count: usize = (size * size) as usize;
        let mut tiles: Vec<T> = Vec::new();
        let mut i: usize = 0;
        while i < tiles_count
            invariant
                i <= tiles_count,
                tiles@.len() == i,
                forall|j: int| 0 <= j < i ==> tiles@[j] == tile,
            decreases tiles_count - i,
        {
            tiles.push(tile);
            i += 1;
        }
        HexMap { tiles, size, radius }
    }

    pub fn radius(&self) -> (r: i32)
        ensures
            r == self.radius,
    {
        self.radius
    }

    /// Number of rows of the board.
    pub fn height(&self) -> (h: i32)
        requires
            -0x4000_0000 <= self.radius < 0x3fff_ffff,
        ensures
            h == self.radius * 2 + 1,
    {
        radius_to_diameter(self.radius())
    }

    /// Walks the cells of the board row by row. The walk starts at the
    /// first cell of the board after the corner of the square around it,
    /// and so finds no cell on a board of radius 0.
    pub fn iter(&self) -> (it: HexIter)
        requires
            0 <= self.radius <= MAX_RADIUS,
        ensures
            it.wf(),
            it.radius == self.radius,
            walked_before(corner(self.radius as int), it.cursor),
            none_between(
                self.radius as int,
                corner(self.radius as int),
                it.cursor,
            ),
    {
        HexIter::new(self.radius)
    }

    pub fn is_inboard(&self, pos: PosHex) -> (r: bool)
        ensures
            r == self.contains(pos),
    {
        is_inboard(self.radius, pos)
    }

    fn hex_to_index(&self, hex: PosHex) -> (i: usize)
        requires
            self.wf(),
            self.contains(hex),
        ensures
            i == self.index_of(hex),
            i < self.tiles@.len(),
    {
        proof {
            self.lemma_index_in_bounds(hex);
            assert(self.size * self.size <= 20_001 * 20_001) by (nonlinear_arith)
                requires
                    0 <= self.size <= 20_001,
            ;
        }
        let i: i32 = (hex.r + self.radius) + (hex.q + self.radius) * self.size;
        i as usize
    }

    /// The tile at `pos`, which must be a cell of the board.
    pub fn tile(&self, pos: PosHex) -> (t: T)
        requires
            self.wf(),
            self.contains(pos),
        ensures
            t == self.tile_at(pos),
    {
        self.tiles[self.hex_to_index(pos)]
    }

    /// Replaces the tile at `pos`, which must be a cell of the board.
    pub fn set_tile(&mut self, pos: PosHex, tile: T)
        requires
            old(self).wf(),
            old(self).contains(pos),
        ensures
            final(self).wf(),
            final(self).radius == old(self).radius,
            final(self).size == old(self).size,
            final(self).tiles@ == old(self).tiles@.update(old(self).index_of(pos), tile),
    {
        let index: usize = self.hex_to_index(pos);
        self.tiles.set(index, tile);
    }
}

impl<T: Copy + Default> HexMap<T> {
    /// A board of the given radius with one value, the default of the
    /// tiles' type, on every tile.
    pub fn new(radius: i32) -> (map: HexMap<T>)
        requires
            0 <= radius <= MAX_RADIUS,
        ensures
            map.wf(),
            map.radius == radius,
            forall|i: int, j: int|
                0 <= i < map.tiles@.len() && 0 <= j < map.tiles@.len() ==> map.tiles@[i]
                    == map.tiles@[j],
    {
        HexMap::filled(radius, T::default())
    }
}

/// Whether `b` comes after `a` on a walk row by row and, within a row,
/// column by column.
pub open spec fn walked_before(a: PosHex, b: PosHex) -> bool {
    a.r < b.r || (a.r == b.r && a.q < b.q)
}

/// Whether a walk from `from` to `to` passes no cell of the board of
/// the given radius on its way.
pub open spec fn none_between(radius: int, from: PosHex, to: PosHex) -> bool {
    forall|p: PosHex|
        walked_before(from, p) && walked_before(p, to) ==> !#[trigger] on_board(radius, p)
}

/// The corner of the square around a board at which a walk sets out.
pub open spec fn corner(radius: int) -> PosHex {
    PosHex { q: (-radius) as i32, r: (-radius) as i32 }
}

/// A cell of the board lies within the square around it.
pub proof fn lemma_board_in_square(radius: int, pos: PosHex)
    requires
        on_board(radius, pos),
    ensures
        -radius <= pos.q <= radius,
        -radius <= pos.r <= radius,
{
}

/// Cursor over the cells of a board, row by row and column by column.
#[derive(Clone, Debug)]
pub struct HexIter {
    pub cursor: PosHex,
    pub radius: i32,
}

impl HexIter {
    /// The cursor stands on a cell of the board, or one row past its end.
    pub open spec fn wf(&self) -> bool {
        &&& 0 <= self.radius <= MAX_RADIUS
        &&& -self.radius <= self.cursor.q <= self.radius
        &&& -self.radius <= self.cursor.r <= self.radius + 1
        &&& (self.cursor.r <= self.radius ==> on_board(self.radius as int, self.cursor))
    }

    /// Cells of the bounding square that the cursor has still to pass.
    pub open spec fn remaining(&self) -> int {
        (self.radius + 1 - self.cursor.r) * (2 * self.radius + 1) + (self.radius - self.cursor.q)
    }

    fn new(radius: i32) -> (it: HexIter)
        requires
            0 <= radius <= MAX_RADIUS,
        ensures
            it.wf(),
            it.radius == radius,
            walked_before(corner(radius as int), it.cursor),
            none_between(radius as int, corner(radius as int), it.cursor),
    {
        let mut iter = HexIter { cursor: PosHex { q: -radius, r: -radius }, radius };
        iter.inc_cursor_with_hex_bounds();
        iter
    }

    fn inc_cursor(&mut self)
        requires
            0 <= old(self).radius <= MAX_RADIUS,
            -old(self).radius <= old(self).cursor.q <= old(self).radius,
            -old(self).radius <= old(self).cursor.r <= old(self).radius,
        ensures
            final(self).radius == old(self).radius,
            -final(self).radius <= final(self).cursor.q <= final(self).radius,
            -final(self).radius <= final(self).cursor.r <= final(self).radius + 1,
            final(self).remaining() < old(self).remaining(),
            final(self).remaining() >= 0,
            walked_before(old(self).cursor, final(self).cursor),
            none_between(old(self).radius as int, old(self).cursor, final(self).cursor),
    {
        self.cursor.q += 1;
        if self.cursor.q > self.radius {
            self.cursor.q = -self.radius;
            self.cursor.r += 1;
        }
        proof {
            assert forall|p: PosHex|
                walked_before(old(self).cursor, p) && walked_before(
                    p,
                    self.cursor,
                ) implies !#[trigger] on_board(self.radius as int, p) by {
                if on_board(self.radius as int, p) {
                    lemma_board_in_square(self.radius as int, p);
                }
            }
            let w = 2 * self.radius + 1;
            assert((self.radius + 1 - self.cursor.r) * w >= 0) by (nonlinear_arith)
                requires
                    self.radius + 1 - self.cursor.r >= 0,
                    w >= 1,
            ;
            let rows = old(self).radius + 1 - old(self).cursor.r;
            assert(rows * w == (rows - 1) * w + w) by (nonlinear_arith);
        }
    }

    fn inc_cursor_with_hex_bounds(&mut self)
        requires
            0 <= old(self).radius <= MAX_RADIUS,
            -old(self).radius <= old(self).cursor.q <= old(self).radius,
            -old(self).radius <= old(self).cursor.r <= old(self).radius,
        ensures
            final(self).wf(),
            final(self).radius == old(self).radius,
            final(self).remaining() < old(self).remaining(),
            walked_before(old(self).cursor, final(self).cursor),
            none_between(old(self).radius as int, old(self).cursor, final(self).cursor),
    {
        self.inc_cursor();
        while !is_inboard(self.radius, self.cursor) && self.cursor.r < self.radius + 1
            invariant
                self.radius == old(self).radius,
                0 <= self.radius <= MAX_RADIUS,
                -self.radius <= self.cursor.q <= self.radius,
                -self.radius <= self.cursor.r <= self.radius + 1,
                self.remaining() < old(self).remaining(),
                self.remaining() >= 0,
                walked_before(old(self).cursor, self.cursor),
                none_between(self.radius as int, old(self).cursor, self.cursor),
            decreases self.remaining(),
        {
            let ghost at = self.cursor;
            self.inc_cursor();
            proof {
                assert forall|p: PosHex|
                    walked_before(old(self).cursor, p) && walked_before(
                        p,
                        self.cursor,
                    ) implies !#[trigger] on_board(self.radius as int, p) by {
                    if walked_before(p, at) {
                    } else if walked_before(at, p) {
                    } else {
                        assert(p == at);
                    }
                }
            }
        }
    }

    /// The cell under the cursor, which then moves on to the next cell of
    /// the board and passes none on its way; `None` once every row has
    /// been walked.
    pub fn next(&mut self) -> (r: Option<PosHex>)
        requires
            old(self).wf(),
        ensures
            final(self).wf(),
            final(self).radius == old(self).radius,
            old(self).cursor.r > old(self).radius ==> r.is_none() && *final(self) == *old(self),
            old(self).cursor.r <= old(self).radius ==> {
                &&& r == Some(old(self).cursor)
                &&& on_board(old(self).radius as int, old(self).cursor)
                &&& final(self).remaining() < old(self).remaining()
                &&& walked_before(old(self).cursor, final(self).cursor)
                &&& none_between(old(self).radius as int, old(self).cursor, final(self).cursor)
            },
    {
        if self.cursor.r > self.radius {
            None
        } else {
            let current = self.cursor;
            self.inc_cursor_with_hex_bounds();
            Some(current)
        }
    }
}

/// The six directions to the neighbours of a cell.
#[derive(Clone, Copy, Debug, PartialEq, Eq, Structural)]
pub enum Dir {
    SouthEast,
    East,
    NorthEast,
    NorthWest,
    West,
    SouthWest,
}

/// Change of the column and of the row on one step in direction `dir`.
pub open spec fn dir_diff(dir: Dir) -> (int, int) {
    match dir {
        Dir::SouthEast => (1, 0),
        Dir::East => (1, -1),
        Dir::NorthEast => (0, -1),
        Dir::NorthWest => (-1, 0),
        Dir::West => (-1, 1),
        Dir::SouthWest => (0, 1),
    }
}

/// A coordinate moved by `d`, wrapping around at the ends of `i32`.
pub open spec fn shifted(v: i32, d: int) -> i32 {
    if v + d > i32::MAX {
        (v + d - 0x1_0000_0000) as i32
    } else if v + d < i32::MIN {
        (v + d + 0x1_0000_0000) as i32
    } else {
        (v + d) as i32
    }
}

/// The cell next to `pos` in direction `dir`.
pub open spec fn neighbor(pos: PosHex, dir: Dir) -> PosHex {
    PosHex { q: shifted(pos.q, dir_diff(dir).0), r: shifted(pos.r, dir_diff(dir).1) }
}

/// The direction with the given number, counted from `SouthEast`.
pub open spec fn dir_of_int(n: int) -> Dir {
    if n == 0 {
        Dir::SouthEast
    } else if n == 1 {
        Dir::East
    } else if n == 2 {
        Dir::NorthEast
    } else if n == 3 {
        Dir::NorthWest
    } else if n == 4 {
        Dir::West
    } else {
        Dir::SouthWest
    }
}

/// The number of a direction, counted from `SouthEast`.
pub open spec fn int_of_dir(dir: Dir) -> int {
    match dir {
        Dir::SouthEast => 0,
        Dir::East => 1,
        Dir::NorthEast => 2,
        Dir::NorthWest => 3,
        Dir::West => 4,
        Dir::SouthWest => 5,
    }
}

/// Numbering the directions loses nothing, and a step in any of them
/// leads to a cell at distance one (away from the ends of `i32`).
pub proof fn lemma_dirs(dir: Dir, pos: PosHex)
    ensures
        0 <= int_of_dir(dir) < 6,
        dir_of_int(int_of_dir(dir)) == dir,
        i32::MIN < pos.q < i32::MAX && i32::MIN < pos.r < i32::MAX ==> hex_distance(
            pos,
            neighbor(pos, dir),
        ) == 1,
{
}

/// The direction in which `to` lies from `from`, for two tiles one step
/// apart.
pub open spec fn dir_from_to(from: PosHex, to: PosHex) -> Dir {
    let dq = to.q - from.q;
    let dr = to.r - from.r;
    if dq == 1 && dr == 0 {
        Dir::SouthEast
    } else if dq == 1 && dr == -1 {
        Dir::East
    } else if dq == 0 && dr == -1 {
        Dir::NorthEast
    } else if dq == -1 && dr == 0 {
        Dir::NorthWest
    } else if dq == -1 && dr == 1 {
        Dir::West
    } else {
        Dir::SouthWest
    }
}

/// The six neighbours of a cell differ from the cell and from each other.
pub proof fn lemma_neighbors_differ(pos: PosHex, a: Dir, b: Dir)
    ensures
        neighbor(pos, a) != pos,
        a != b ==> neighbor(pos, a) != neighbor(pos, b),
{
}

fn shift(v: i32, d: i32) -> (r: i32)
    requires
        -1 <= d <= 1,
    ensures
        r == shifted(v, d as int),
{
    if d == 1 && v == i32::MAX {
        i32::MIN
    } else if d == -1 && v == i32::MIN {
        i32::MAX
    } else {
        v + d
    }
}

fn diff_of(dir: Dir) -> (d: (i32, i32))
    ensures
        d.0 == dir_diff(dir).0,
        d.1 == dir_diff(dir).1,
{
    match dir {
        Dir::SouthEast => (1, 0),
        Dir::East => (1, -1),
        Dir::NorthEast => (0, -1),
        Dir::NorthWest => (-1, 0),
        Dir::West => (-1, 1),
        Dir::SouthWest => (0, 1),
    }
}

impl Dir {
    pub fn from_int(n: i32) -> (dir: Dir)
        requires
            0 <= n < 6,
        ensures
            dir == dir_of_int(n as int),
            int_of_dir(dir) == n,
    {
        if n == 0 {
            Dir::SouthEast
        } else if n == 1 {
            Dir::East
        } else if n == 2 {
            Dir::NorthEast
        } else if n == 3 {
            Dir::NorthWest
        } else if n == 4 {
            Dir::West
        } else {
            Dir::SouthWest
        }
    }

    pub fn to_int(self) -> (n: i32)
        ensures
            n == int_of_dir(self),
            0 <= n < 6,
    {
        match self {
            Dir::SouthEast => 0,
            Dir::East => 1,
            Dir::NorthEast => 2,
            Dir::NorthWest => 3,
            Dir::West => 4,
            Dir::SouthWest => 5,
        }
    }

    /// The direction of the single step that leads from `from` to `to`.
    pub fn get_dir_from_to(from: PosHex, to: PosHex) -> (dir: Dir)
        requires
            hex_distance(from, to) == 1,
        ensures
            dir == dir_from_to(from, to),
            to.q - from.q == dir_diff(dir).0,
            to.r - from.r == dir_diff(dir).1,
            neighbor(from, dir) == to,
    {
        let dq: i64 = to.q as i64 - from.q as i64;
        let dr: i64 = to.r as i64 - from.r as i64;
        if dq == 1 && dr == 0 {
            Dir::SouthEast
        } else if dq == 1 && dr == -1 {
            Dir::East
        } else if dq == 0 && dr == -1 {
            Dir::NorthEast
        } else if dq == -1 && dr == 0 {
            Dir::NorthWest
        } else if dq == -1 && dr == 1 {
            Dir::West
        } else {
            Dir::SouthWest
        }
    }

    /// The cell one step from `pos` in direction `dir`.
    pub fn get_neighbor_pos(pos: PosHex, dir: Dir) -> (n: PosHex)
        ensures
            n == neighbor(pos, dir),
    {
        let diff = diff_of(dir);
        PosHex { q: shift(pos.q, diff.0), r: shift(pos.r, diff.1) }
    }

    /// The cell one step beyond `to`, seen from the adjacent cell `from`.
    pub fn get_dir_pos(from: PosHex, to: PosHex) -> (beyond: PosHex)
        requires
            hex_distance(from, to) == 1,
        ensures
            beyond == neighbor(to, dir_from_to(from, to)),
            beyond.q == shifted(to.q, to.q - from.q),
            beyond.r == shifted(to.r, to.r - from.r),
    {
        let dir = Dir::get_dir_from_to(from, to);
        Dir::get_neighbor_pos(to, dir)
    }
}

/// Cursor over the six directions, starting at `SouthEast`.
#[derive(Clone, Debug)]
pub struct DirIter {
    pub index: i32,
}

/// A cursor that stands before the first direction.
pub fn dirs() -> (it: DirIter)
    ensures
        it.index == 0,
{
    DirIter { index: 0 }
}

impl DirIter {
    /// The next direction, or `None` after the sixth.
    pub fn next(&mut self) -> (r: Option<Dir>)
        requires
            0 <= old(self).index,
        ensures
            old(self).index < 6 ==> r == Some(dir_of_int(old(self).index as int))
                && final(self).index == old(self).index + 1,
            old(self).index >= 6 ==> r.is_none() && final(self).index == old(self).index,
    {
        if self.index >= 6 {
            None
        } else {
            let dir = Dir::from_int(self.index);
            self.index += 1;
            Some(dir)
        }
    }
}

} // verus!
