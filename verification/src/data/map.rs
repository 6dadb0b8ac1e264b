//! The strategic map: a 20 x 11 staggered grid of 16-bit tile words.

use vstd::prelude::*;

verus! {

/// Number of map columns.
pub const MAP_COLS: usize = 20;
/// Number of map rows.
pub const MAP_ROWS: usize = 11;

/// Terrain type, stored in the low nibble of a tile word.
#[derive(Debug, Clone, Copy, PartialEq, Eq, Structural)]
pub enum TileType {
    Empty,
    City,
    Plain,
    Forest,
    Mountain,
    River,
    Bridge,
    Coast,
    Sea,
    Fortress,
    Barrier,
    Special1,
    Barrier2,
    Barrier3,
    Developed,
    Road,
}

/// The nibble that encodes a terrain type.
pub open spec fn tile_code(t: TileType) -> u8 {
    match t {
        TileType::Empty => 0x00,
        TileType::City => 0x01,
        TileType::Plain => 0x02,
        TileType::Forest => 0x03,
        TileType::Mountain => 0x04,
        TileType::River => 0x05,
        TileType::Bridge => 0x06,
        TileType::Coast => 0x07,
        TileType::Sea => 0x08,
        TileType::Fortress => 0x09,
        TileType::Barrier => 0x0A,
        TileType::Special1 => 0x0B,
        TileType::Barrier2 => 0x0C,
        TileType::Barrier3 => 0x0D,
        TileType::Developed => 0x0E,
        TileType::Road => 0x0F,
    }
}

/// The terrain type encoded by the low nibble of `val`.
pub open spec fn tile_of_code(val: u8) -> TileType {
    let n = val % 16;
    if n == 0x00 {
        TileType::Empty
    } else if n == 0x01 {
        TileType::City
    } else if n == 0x02 {
        TileType::Plain
    } else if n == 0x03 {
        TileType::Forest
    } else if n == 0x04 {
        TileType::Mountain
    } else if n == 0x05 {
        TileType::River
    } else if n == 0x06 {
        TileType::Bridge
    } else if n == 0x07 {
        TileType::Coast
    } else if n == 0x08 {
        TileType::Sea
    } else if n == 0x09 {
        TileType::Fortress
    } else if n == 0x0A {
        TileType::Barrier
    } else if n == 0x0B {
        TileType::Special1
    } else if n == 0x0C {
        TileType::Barrier2
    } else if n == 0x0D {
        TileType::Barrier3
    } else if n == 0x0E {
        TileType::Developed
    } else {
        TileType::Road
    }
}

/// Terrain that no unit can enter.
pub open spec fn barrier_terrain(t: TileType) -> bool {
    t == TileType::Empty || t == TileType::Barrier || t == TileType::Barrier2 || t
        == TileType::Barrier3
}

impl TileType {
    /// The terrain type of the low nibble of `val`.
    pub fn from_raw(val: u8) -> (r: Self)
        ensures
            r == tile_of_code(val),
            tile_code(r) == val % 16,
    {
        let n = val & 0x0F;
        assert(val & 0x0F == val % 16) by (bit_vector);
        match n {
            0x00 => TileType::Empty,
            0x01 => TileType::City,
            0x02 => TileType::Plain,
            0x03 => TileType::Forest,
            0x04 => TileType::Mountain,
            0x05 => TileType::River,
            0x06 => TileType::Bridge,
            0x07 => TileType::Coast,
            0x08 => TileType::Sea,
            0x09 => TileType::Fortress,
            0x0A => TileType::Barrier,
            0x0B => TileType::Special1,
            0x0C => TileType::Barrier2,
            0x0D => TileType::Barrier3,
            0x0E => TileType::Developed,
            _ => TileType::Road,
        }
    }

    /// The nibble that encodes this terrain type.
    pub fn code(&self) -> (r: u8)
        ensures
            r == tile_code(*self),
            r < 16,
    {
        match self {
            TileType::Empty => 0x00,
            TileType::City => 0x01,
            TileType::Plain => 0x02,
            TileType::Forest => 0x03,
            TileType::Mountain => 0x04,
            TileType::River => 0x05,
            TileType::Bridge => 0x06,
            TileType::Coast => 0x07,
            TileType::Sea => 0x08,
            TileType::Fortress => 0x09,
            TileType::Barrier => 0x0A,
            TileType::Special1 => 0x0B,
            TileType::Barrier2 => 0x0C,
            TileType::Barrier3 => 0x0D,
            TileType::Developed => 0x0E,
            TileType::Road => 0x0F,
        }
    }

    /// Whether no unit can enter this terrain.
    pub fn is_barrier(&self) -> (r: bool)
        ensures
            r == barrier_terrain(*self),
    {
        match self {
            TileType::Empty | TileType::Barrier | TileType::Barrier2 | TileType::Barrier3 => true,
            _ => false,
        }
    }
}

/// Decoding an encoded terrain type gives it back.
pub proof fn lemma_tile_code_roundtrip(t: TileType)
    ensures
        tile_of_code(tile_code(t)) == t,
        tile_code(t) < 16,
{
}

/// The map: `tiles` holds one word per cell in row-major order with 20 cells
/// per row; the low nibble is the terrain, the high byte the occupancy bits.
#[derive(Debug, Clone)]
pub struct GameMap {
    pub width: u16,
    pub height: u16,
    pub tiles: Vec<u16>,
    pub scroll_x: i16,
    pub scroll_y: i16,
    pub pixel_width: u16,
    pub pixel_height: u16,
}

/// What the map logic reads of a map: the tile words and the size.
pub struct MapView {
    pub tiles: Seq<u16>,
    pub width: u16,
    pub height: u16,
}

/// Index of cell (`col`, `row`) in the tile vector.
pub open spec fn cell_index(col: u8, row: u8) -> int {
    row as int * MAP_COLS as int + col as int
}

impl MapView {
    /// (`col`, `row`) lies inside the map as the map accessors test it:
    /// against the width and height truncated to a byte.
    pub open spec fn inside(self, col: u8, row: u8) -> bool {
        col < self.width as u8 && row < self.height as u8
    }

    /// Every cell inside the map has its word in `tiles`.
    pub open spec fn wf(self) -> bool {
        forall|col: u8, row: u8|
            #[trigger] self.inside(col, row) ==> cell_index(col, row) < self.tiles.len()
    }

    /// The word of a cell; 0 outside the map.
    pub open spec fn tile_at(self, col: u8, row: u8) -> u16 {
        if self.inside(col, row) {
            self.tiles[cell_index(col, row)]
        } else {
            0
        }
    }

    /// The occupancy bits (high byte) of a cell.
    pub open spec fn bitmask_at(self, col: u8, row: u8) -> u8 {
        (self.tile_at(col, row) / 256) as u8
    }

    /// The terrain of a cell.
    pub open spec fn type_at(self, col: u8, row: u8) -> TileType {
        tile_of_code(self.tile_at(col, row) as u8)
    }

    /// A cell that is inside the map and marked occupied.
    pub open spec fn occupied(self, col: u8, row: u8) -> bool {
        self.inside(col, row) && self.bitmask_at(col, row) != 0
    }

    /// The map after writing `val` to a cell; writes outside the map are
    /// dropped.
    pub open spec fn set(self, col: u8, row: u8, val: u16) -> MapView {
        if self.inside(col, row) {
            MapView { tiles: self.tiles.update(cell_index(col, row), val), ..self }
        } else {
            self
        }
    }
}

impl View for GameMap {
    type V = MapView;

    open spec fn view(&self) -> MapView {
        MapView { tiles: self.tiles@, width: self.width, height: self.height }
    }
}

/// Writing keeps a map well formed.
pub proof fn lemma_set_keeps_wf(m: MapView, col: u8, row: u8, val: u16)
    requires
        m.wf(),
    ensures
        m.set(col, row, val).wf(),
        m.set(col, row, val).width == m.width,
        m.set(col, row, val).height == m.height,
{
    let m2 = m.set(col, row, val);
    assert forall|c: u8, r: u8| #[trigger] m2.inside(c, r) implies cell_index(c, r)
        < m2.tiles.len() by {
        assert(m.inside(c, r));
    }
}

impl GameMap {
    /// Every cell inside the map has its word in `tiles`.
    pub open spec fn wf(&self) -> bool {
        self@.wf()
    }

    /// Both maps agree on everything but the tile words.
    pub open spec fn same_frame(&self, other: &GameMap) -> bool {
        &&& self.width == other.width
        &&& self.height == other.height
        &&& self.scroll_x == other.scroll_x
        &&& self.scroll_y == other.scroll_y
        &&& self.pixel_width == other.pixel_width
        &&& self.pixel_height == other.pixel_height
    }

    /// Whether (`col`, `row`) lies within width x height.
    pub fn in_bounds(&self, col: i32, row: i32) -> (r: bool)
        ensures
            r == (0 <= col < self.width && 0 <= row < self.height),
    {
        col >= 0 && col < self.width as i32 && row >= 0 && row < self.height as i32
    }

    fn tile_index(&self, col: u8, row: u8) -> (r: usize)
        ensures
            r == cell_index(col, row),
    {
        row as usize * MAP_COLS + col as usize
    }

    /// The word of a cell; 0 outside the map.
    pub fn get_tile(&self, col: u8, row: u8) -> (r: u16)
        requires
            self.wf(),
        ensures
            r == self@.tile_at(col, row),
    {
        if col >= self.width as u8 || row >= self.height as u8 {
            return 0;
        }
        assert(self@.inside(col, row));
        self.tiles[self.tile_index(col, row)]
    }

    /// Writes a cell; writes outside the map are dropped.
    pub fn set_tile(&mut self, col: u8, row: u8, val: u16)
        requires
            old(self).wf(),
        ensures
            final(self)@ == old(self)@.set(col, row, val),
            final(self).same_frame(&*old(self)),
            final(self).wf(),
    {
        if col < self.width as u8 && row < self.height as u8 {
            assert(self@.inside(col, row));
            let idx = self.tile_index(col, row);
            self.tiles.set(idx, val);
        }
        proof {
            lemma_set_keeps_wf(old(self)@, col, row, val);
        }
        assert(self@ =~= old(self)@.set(col, row, val));
    }

    /// The terrain of a cell.
    pub fn get_tile_type(&self, col: u8, row: u8) -> (r: TileType)
        requires
            self.wf(),
        ensures
            r == self@.type_at(col, row),
    {
        TileType::from_raw(self.get_tile(col, row) as u8)
    }

    /// Whether a cell has the given terrain.
    pub fn check_tile_type(&self, col: u8, row: u8, target: TileType) -> (r: bool)
        requires
            self.wf(),
        ensures
            r == (self@.type_at(col, row) == target),
    {
        self.get_tile_type(col, row) == target
    }

    /// The occupancy bits (high byte) of a cell.
    pub fn get_tile_bitmask(&self, col: u8, row: u8) -> (r: u8)
        requires
            self.wf(),
        ensures
            r == self@.bitmask_at(col, row),
    {
        let t = self.get_tile(col, row);
        assert(t >> 8 == t / 256) by (bit_vector);
        (t >> 8) as u8
    }

    /// The first occupied cell in row-major order.
    pub fn find_first_occupied(&self) -> (r: Option<(u8, u8)>)
        requires
            self.wf(),
        ensures
            match r {
                Some((c, rw)) => {
                    &&& self@.occupied(c, rw)
                    &&& forall|c2: u8, r2: u8|
                        (r2 < rw || (r2 == rw && c2 < c)) ==> !#[trigger] self@.occupied(c2, r2)
                },
                None => forall|c2: u8, r2: u8| !#[trigger] self@.occupied(c2, r2),
            },
    {
        let h = self.height as u8;
        let w = self.width as u8;
        let mut row: u8 = 0;
        while row < h
            invariant
                self.wf(),
                h == self.height as u8,
                w == self.width as u8,
                row <= h,
                forall|c2: u8, r2: u8| r2 < row ==> !#[trigger] self@.occupied(c2, r2),
            decreases h - row,
        {
            let mut col: u8 = 0;
            while col < w
                invariant
                    self.wf(),
                    h == self.height as u8,
                    w == self.width as u8,
                    row < h,
                    col <= w,
                    forall|c2: u8, r2: u8|
                        (r2 < row || (r2 == row && c2 < col)) ==> !#[trigger] self@.occupied(c2, r2),
                decreases w - col,
            {
                if self.get_tile_bitmask(col, row) != 0 {
                    return Some((col, row));
                }
                col = col + 1;
            }
            row = row + 1;
        }
        None
    }
}

impl Default for GameMap {
    fn default() -> (r: Self)
        ensures
            r.width == MAP_COLS,
            r.height == MAP_ROWS,
            r.tiles@ == Seq::new((MAP_COLS * MAP_ROWS) as nat, |i: int| 0u16),
            r.scroll_x == 0,
            r.scroll_y == 0,
            r.pixel_width == 320,
            r.pixel_height == 176,
            r.wf(),
    {
        let m = GameMap {
            width: 20,
            height: 11,
            tiles: vec![0u16; MAP_COLS * MAP_ROWS],
            scroll_x: 0,
            scroll_y: 0,
            pixel_width: 320,
            pixel_height: 176,
        };
        assert(m.tiles@ =~= Seq::new((MAP_COLS * MAP_ROWS) as nat, |i: int| 0u16));
        assert forall|col: u8, row: u8| #[trigger] m@.inside(col, row) implies cell_index(col, row)
            < m@.tiles.len() by {
            assert(20u16 as u8 == 20) by (bit_vector);
            assert(11u16 as u8 == 11) by (bit_vector);
        }
        m
    }
}

/// Screen position of a grid cell; odd rows are offset by half a tile.
pub open spec fn grid_to_screen_spec(col: u8, row: u8) -> (i32, i32) {
    (
        if row % 2 == 1 {
            ((col + 2) * 32) as i32
        } else {
            (col * 32 + 48) as i32
        },
        (row * 32) as i32,
    )
}

/// Staggered (doubled) coordinates of a grid cell.
pub open spec fn stagger_spec(col: u8, row: u8) -> (u16, u16) {
    (
        if row % 2 == 1 {
            (col * 2 + 1) as u16
        } else {
            (col * 2) as u16
        },
        (row * 2) as u16,
    )
}

/// Staggered isometric projection from grid to screen coordinates.
pub fn grid_to_screen(col: u8, row: u8) -> (r: (i32, i32))
    ensures
        r == grid_to_screen_spec(col, row),
{
    assert(row & 1 == row % 2) by (bit_vector);
    let is_odd = (row & 1) != 0;
    let screen_x = if is_odd {
        (col as i32 + 2) * 32
    } else {
        col as i32 * 32 + 48
    };
    let screen_y = row as i32 * 32;
    (screen_x, screen_y)
}

/// Grid coordinates to doubled staggered coordinates.
pub fn stagger_transform(col: u8, row: u8) -> (r: (u16, u16))
    ensures
        r == stagger_spec(col, row),
{
    assert(row & 1 == row % 2) by (bit_vector);
    let stagger_x = if (row & 1) != 0 {
        col as u16 * 2 + 1
    } else {
        col as u16 * 2
    };
    let stagger_y = row as u16 * 2;
    (stagger_x, stagger_y)
}

/// Distinct cells have distinct screen positions.
pub proof fn lemma_grid_to_screen_injective(c1: u8, r1: u8, c2: u8, r2: u8)
    requires
        grid_to_screen_spec(c1, r1) == grid_to_screen_spec(c2, r2),
    ensures
        c1 == c2 && r1 == r2,
{
}

/// A write followed by a read of the same cell inside the map gives the
/// written word back, and leaves every other cell as it was.
pub proof fn lemma_set_then_get(m: MapView, col: u8, row: u8, val: u16, c2: u8, r2: u8)
    requires
        m.wf(),
        m.width as u8 <= MAP_COLS,
    ensures
        m.inside(col, row) ==> m.set(col, row, val).tile_at(col, row) == val,
        (c2 != col || r2 != row) ==> m.set(col, row, val).tile_at(c2, r2) == m.tile_at(c2, r2),
{
    assert(m.inside(col, row) ==> cell_index(col, row) < m.tiles.len());
    if m.inside(c2, r2) && (c2 != col || r2 != row) && m.inside(col, row) {
        assert(cell_index(c2, r2) < m.tiles.len());
        assert(cell_index(col, row) != cell_index(c2, r2));
    }
}

} // verus!
