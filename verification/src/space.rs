//! The tile grid of the apartment: which cells are open floor and which
//! are walls of which room.

use vstd::prelude::*;

verus! {

/// One cell of the grid: 0 is open floor, anything else is a wall.
#[derive(Debug, Clone, Copy, PartialEq, Eq, Structural)]
pub struct Tile(pub u8);

impl Tile {
    /// Open floor.
    pub fn floor() -> (t: Tile)
        ensures
            t == Tile(0),
    {
        Tile(0)
    }

    /// A bedroom wall (also everything outside the grid).
    pub fn bedroom() -> (t: Tile)
        ensures
            t == Tile(1),
    {
        Tile(1)
    }

    /// A kitchen wall.
    pub fn kitchen() -> (t: Tile)
        ensures
            t == Tile(2),
    {
        Tile(2)
    }

    /// A door frame.
    pub fn doorframe() -> (t: Tile)
        ensures
            t == Tile(3),
    {
        Tile(3)
    }

    /// A bathroom wall.
    pub fn bathroom() -> (t: Tile)
        ensures
            t == Tile(4),
    {
        Tile(4)
    }

    /// Whether the tile blocks movement and rays.
    pub fn is_solid(self) -> (b: bool)
        ensures
            b == (self.0 != 0),
    {
        self.0 != 0
    }
}

/// The characters a grid row may hold: '.', 'R' and 'P' are floor (the last
/// two mark where the roommate and the player start), '1' to '4' are walls.
pub open spec fn is_tile_char(c: char) -> bool {
    c == '.' || c == 'R' || c == 'P' || c == '1' || c == '2' || c == '3' || c == '4'
}

/// The tile a grid character stands for.
pub open spec fn tile_of_char(c: char) -> Tile {
    if c == '1' {
        Tile(1)
    } else if c == '2' {
        Tile(2)
    } else if c == '3' {
        Tile(3)
    } else if c == '4' {
        Tile(4)
    } else {
        Tile(0)
    }
}

/// The cells of a grid given by rows, row after row.
pub open spec fn grid_cells(rows: Seq<Seq<char>>) -> Seq<Tile>
    decreases rows.len(),
{
    if rows.len() == 0 {
        Seq::empty()
    } else {
        grid_cells(rows.drop_last()) + rows.last().map_values(|c: char| tile_of_char(c))
    }
}

/// Every row has `width` characters, all of them tile characters.
pub open spec fn rows_ok(rows: Seq<Seq<char>>, width: nat) -> bool {
    forall|i: int|
        0 <= i < rows.len() ==> (#[trigger] rows[i]).len() == width && forall|j: int|
            0 <= j < rows[i].len() ==> is_tile_char(rows[i][j])
}

/// Which grid line a ray crossed when it hit a wall.
#[derive(Debug, Clone, Copy, PartialEq, Eq, Structural)]
pub enum RaySide {
    /// The last step was along x (a vertical grid line).
    NorthSouth,
    /// The last step was along y (a horizontal grid line).
    EastWest,
}

/// A rectangular grid of tiles.
pub struct TileGrid {
    pub width: usize,
    pub height: usize,
    pub cells: Vec<Tile>,
}

impl TileGrid {
    /// The cells, row after row.
    pub open spec fn cells(&self) -> Seq<Tile> {
        self.cells@
    }

    /// The grid holds `width * height` cells, each floor or one of the four
    /// wall tiles, and a grid without rows has no columns either.
    pub open spec fn wf(&self) -> bool {
        &&& self.cells@.len() == self.width * self.height
        &&& forall|i: int| 0 <= i < self.cells@.len() ==> (#[trigger] self.cells@[i]).0 <= 4
        &&& (self.height == 0 ==> self.width == 0)
    }

    /// The grid of rows of equal length: its width is that of the rows (0
    /// where there are none), its cells the rows' tiles in order.
    pub(crate) fn from_rows(rows: &Vec<Vec<char>>) -> (g: TileGrid)
        requires
            rows@.len() > 0 ==> rows_ok(rows@.map_values(|r: Vec<char>| r@), rows@[0]@.len()),
        ensures
            g.wf(),
            g.height == rows@.len(),
            g.width == (if rows@.len() == 0 {
                0
            } else {
                rows@[0]@.len()
            }),
            g.cells() == grid_cells(rows@.map_values(|r: Vec<char>| r@)),
    {
        let ghost rv = rows@.map_values(|r: Vec<char>| r@);
        let height = rows.len();
        let width = if height == 0 {
            0
        } else {
            rows[0].len()
        };
        let mut cells: Vec<Tile> = Vec::new();
        let mut i: usize = 0;
        assert(rv.subrange(0, 0) =~= Seq::<Seq<char>>::empty());
        while i < height
            invariant
                i <= height,
                height == rows@.len(),
                rv == rows@.map_values(|r: Vec<char>| r@),
                height > 0 ==> rows_ok(rv, width as nat),
                height > 0 ==> width == rows@[0]@.len(),
                cells@ == grid_cells(rv.subrange(0, i as int)),
                cells@.len() == i * width,
                forall|k: int| 0 <= k < cells@.len() ==> (#[trigger] cells@[k]).0 <= 4,
            decreases height - i,
        {
            let row = &rows[i];
            assert(rv[i as int] == row@);
            assert(row@.len() == width);
            let mut j: usize = 0;
            let ghost before = cells@;
            while j < row.len()
                invariant
                    j <= row.len(),
                    cells@ == before + row@.subrange(0, j as int).map_values(
                        |c: char| tile_of_char(c),
                    ),
                    forall|k: int| 0 <= k < cells@.len() ==> (#[trigger] cells@[k]).0 <= 4,
                decreases row.len() - j,
            {
                let c = row[j];
                let t = if c == '1' {
                    Tile::bedroom()
                } else if c == '2' {
                    Tile::kitchen()
                } else if c == '3' {
                    Tile::doorframe()
                } else if c == '4' {
                    Tile::bathroom()
                } else {
                    Tile::floor()
                };
                cells.push(t);
                assert(row@.subrange(0, j + 1).map_values(|c: char| tile_of_char(c))
                    =~= row@.subrange(0, j as int).map_values(|c: char| tile_of_char(c)).push(
                    tile_of_char(c),
                ));
                j = j + 1;
            }
            assert(row@.subrange(0, row@.len() as int) =~= row@);
            assert(rv.subrange(0, i + 1).drop_last() =~= rv.subrange(0, i as int));
            assert((i + 1) * width == i * width + width) by (nonlinear_arith);
            i = i + 1;
        }
        assert(rv.subrange(0, height as int) =~= rv);
        assert(height * width == width * height) by (nonlinear_arith);
        TileGrid { width, height, cells }
    }

    /// The grid drawn by rows of characters ('.', 'R', 'P' floor; '1' to '4'
    /// walls). All rows have the same length, and every character is one of
    /// these.
    pub fn from_ascii(rows: &[&str]) -> (g: TileGrid)
        requires
            rows@.len() > 0 ==> rows_ok(rows@.map_values(|r: &str| r@), rows@[0]@.len()),
        ensures
            g.wf(),
            g.height == rows@.len(),
            g.width == (if rows@.len() == 0 {
                0
            } else {
                rows@[0]@.len()
            }),
            g.cells() == grid_cells(rows@.map_values(|r: &str| r@)),
    {
        let mut v: Vec<Vec<char>> = Vec::new();
        let mut i: usize = 0;
        while i < rows.len()
            invariant
                i <= rows.len(),
                v@.map_values(|r: Vec<char>| r@) == rows@.subrange(0, i as int).map_values(
                    |r: &str| r@,
                ),
            decreases rows.len() - i,
        {
            let r = rows[i];
            let n = r.unicode_len();
            let mut chars: Vec<char> = Vec::new();
            let mut j: usize = 0;
            while j < n
                invariant
                    j <= n,
                    n == r@.len(),
                    chars@ == r@.subrange(0, j as int),
                decreases n - j,
            {
                chars.push(r.get_char(j));
                assert(chars@ =~= r@.subrange(0, j + 1));
                j = j + 1;
            }
            assert(r@.subrange(0, n as int) =~= r@);
            let ghost before = v@.map_values(|r: Vec<char>| r@);
            v.push(chars);
            assert(v@.map_values(|r: Vec<char>| r@) =~= before.push(r@));
            assert(rows@.subrange(0, i + 1).map_values(|r: &str| r@) =~= rows@.subrange(
                0,
                i as int,
            ).map_values(|r: &str| r@).push(r@));
            i = i + 1;
        }
        assert(rows@.subrange(0, rows@.len() as int) =~= rows@);
        proof {
            if rows@.len() > 0 {
                assert(v@.map_values(|r: Vec<char>| r@)[0] == rows@.map_values(|r: &str| r@)[0]);
            }
        }
        TileGrid::from_rows(&v)
    }

    /// The tile at column `x`, row `y`; outside the grid everything is a
    /// bedroom wall.
    pub fn at(&self, x: i32, y: i32) -> (t: Tile)
        requires
            self.wf(),
        ensures
            t == (if x < 0 || y < 0 || x >= self.width || y >= self.height {
                Tile(1)
            } else {
                self.cells()[y * self.width + x]
            }),
    {
        if x < 0 || y < 0 || x as usize >= self.width || y as usize >= self.height {
            Tile::bedroom()
        } else {
            let xu = x as usize;
            let yu = y as usize;
            let w = self.width;
            let h = self.height;
            let n = self.cells.len();
            assert(yu * w + xu < w * h) by (nonlinear_arith)
                requires
                    yu < h,
                    xu < w,
            ;
            self.cells[yu * self.width + xu]
        }
    }
}

/// The cells of well-formed rows come one per character, row after row.
proof fn lemma_grid_cells_index(rows: Seq<Seq<char>>, width: nat, y: int, x: int)
    requires
        rows_ok(rows, width),
        0 <= y < rows.len(),
        0 <= x < width,
    ensures
        grid_cells(rows).len() == rows.len() * width,
        grid_cells(rows)[y * width + x] == tile_of_char(rows[y][x]),
    decreases rows.len(),
{
    let n = rows.len();
    let init = rows.drop_last();
    assert(rows_ok(init, width)) by {
        assert forall|i: int| 0 <= i < init.len() implies (#[trigger] init[i]).len() == width
            && forall|j: int| 0 <= j < init[i].len() ==> is_tile_char(init[i][j]) by {
            assert(init[i] == rows[i]);
        }
    }
    assert(rows.last() == rows[n - 1]);
    assert(rows[n - 1].len() == width);
    assert((n - 1) * width + width == n * width) by (nonlinear_arith);
    if y < n - 1 {
        lemma_grid_cells_index(init, width, y, x);
        assert(init[y] == rows[y]);
        assert(y * width + x < (n - 1) * width) by (nonlinear_arith)
            requires
                y < n - 1,
                x < width,
                0 <= y,
        {
            assert(y * width + width <= (n - 1) * width);
        }
    } else {
        if n > 1 {
            lemma_grid_cells_index(init, width, 0, x);
        } else {
            assert(init.len() == 0);
        }
        assert(grid_cells(init).len() == (n - 1) * width);
        assert(y * width + x - (n - 1) * width == x);
    }
}

/// A grid cell reads its character: '.', 'R' and 'P' (the start markers)
/// are open floor and nothing else is, and the digits '1' to '4' are the
/// wall tiles of those numbers. The cell of row `y`, column `x` is at
/// `y * width + x`.
pub proof fn lemma_cell_reads_its_char(rows: Seq<Seq<char>>, width: nat, y: int, x: int)
    requires
        rows_ok(rows, width),
        0 <= y < rows.len(),
        0 <= x < width,
    ensures
        grid_cells(rows).len() == rows.len() * width,
        (grid_cells(rows)[y * width + x] == Tile(0)) <==> (rows[y][x] == '.' || rows[y][x] == 'R'
            || rows[y][x] == 'P'),
        rows[y][x] == '1' ==> grid_cells(rows)[y * width + x] == Tile(1),
        rows[y][x] == '2' ==> grid_cells(rows)[y * width + x] == Tile(2),
        rows[y][x] == '3' ==> grid_cells(rows)[y * width + x] == Tile(3),
        rows[y][x] == '4' ==> grid_cells(rows)[y * width + x] == Tile(4),
{
    lemma_grid_cells_index(rows, width, y, x);
    assert(rows[y].len() == width);
    assert(is_tile_char(rows[y][x]));
}

} // verus!
