//! The board as the presentation layer draws it: one set of flags per cell.

use vstd::prelude::*;
use crate::grid::{Vec2, Rotation, on_grid, GRID_SIZE};
use crate::ship::{Ship, SHIP_COUNT, roster_ship, lemma_tiles_on_grid, lemma_anchor_bounded};
use crate::player::{PlayerState, fleet_fits};

verus! {

/// Nothing to draw.
pub const FLAG_NONE: u8 = 0;
/// The cell was fired upon.
pub const FLAG_HIT: u8 = 1;
/// The ship on the cell is sunk.
pub const FLAG_SUNK: u8 = 2;
/// A ship lies on the cell.
pub const FLAG_SHIP: u8 = 4;
/// The cell is the first tile of its ship.
pub const FLAG_SHIP_START: u8 = 8;
/// The cell is the last tile of its ship.
pub const FLAG_SHIP_END: u8 = 16;

/// Number of cells on the board.
pub const CELLS: usize = 100;

/// Position of a cell in the buffer, row by row.
pub open spec fn cell_slot(p: Vec2) -> int {
    p.y * 10 + p.x
}

/// How far along its ship the tile `p` is.
pub open spec fn offset(s: Ship, p: Vec2) -> int {
    match s.state.rot() {
        Rotation::Horizontal => p.x - s.state.anchor().x,
        Rotation::Vertical => p.y - s.state.anchor().y,
    }
}

/// The flags that tile `k` of ship `s` puts on its cell.
pub open spec fn tile_flags(s: Ship, k: int, sunk: bool) -> u8 {
    let part: u8 = if k == 0 {
        FLAG_SHIP | FLAG_SHIP_START
    } else if k >= s.info.len - 1 {
        FLAG_SHIP | FLAG_SHIP_END
    } else {
        FLAG_SHIP
    };
    if sunk {
        part | FLAG_SUNK
    } else {
        part
    }
}

/// The flags that the first `k` tiles of ship `i` of `p` put on cell `c`.
pub open spec fn ship_flags_upto(p: PlayerState, i: int, k: int, c: Vec2) -> u8 {
    let s = p.ship(i);
    if s.covers(c) && offset(s, c) < k {
        tile_flags(s, offset(s, c), p.all_tiles_hit(s))
    } else {
        0
    }
}

/// The flags that the first `n` ships of `p` put on cell `c`.
pub open spec fn fleet_flags(p: PlayerState, n: int, c: Vec2) -> u8
    decreases n,
{
    if n <= 0 {
        0
    } else {
        fleet_flags(p, n - 1, c) | ship_flags_upto(p, n - 1, p.ship(n - 1).info.len as int, c)
    }
}

/// The flags that the cells fired upon on `p` put on cell `c`.
pub open spec fn hit_flags(p: PlayerState, c: Vec2) -> u8 {
    if p.hits.has(c) {
        FLAG_HIT
    } else {
        0
    }
}

proof fn lemma_or_zero()
    ensures
        forall|v: u8| #[trigger] (v | 0u8) == v,
{
    assert forall|v: u8| #[trigger] (v | 0u8) == v by {
        assert(v | 0u8 == v) by (bit_vector);
    }
}

/// A board of flags, row by row.
#[derive(Debug)]
pub struct RenderTarget {
    buffer: Vec<u8>,
}

impl RenderTarget {
    pub closed spec fn cells(&self) -> Seq<u8> {
        self.buffer@
    }

    /// The flags of cell `p`.
    pub open spec fn flags(&self, p: Vec2) -> u8 {
        self.cells()[cell_slot(p)]
    }

    pub open spec fn wf(&self) -> bool {
        self.cells().len() == CELLS
    }

    /// An empty board.
    pub fn new() -> (r: Self)
        ensures
            r.wf(),
            forall|p: Vec2| on_grid(p) ==> #[trigger] r.flags(p) == FLAG_NONE,
    {
        let mut buffer: Vec<u8> = Vec::new();
        let mut i: usize = 0;
        while i < CELLS
            invariant
                i <= CELLS,
                buffer@.len() == i,
                forall|j: int| 0 <= j < i ==> buffer@[j] == FLAG_NONE,
            decreases CELLS - i,
        {
            buffer.push(FLAG_NONE);
            i = i + 1;
        }
        RenderTarget { buffer }
    }

    /// The flags of cell `pos`.
    pub fn field(&self, pos: Vec2) -> (r: u8)
        requires
            self.wf(),
            on_grid(pos),
        ensures
            r == self.flags(pos),
    {
        self.buffer[pos.y as usize * 10 + pos.x as usize]
    }

    /// Adds `flags` to cell `pos`.
    fn mark(&mut self, pos: Vec2, flags: u8)
        requires
            old(self).wf(),
            on_grid(pos),
        ensures
            final(self).wf(),
            final(self).flags(pos) == old(self).flags(pos) | flags,
            forall|q: Vec2| on_grid(q) && q != pos ==> #[trigger] final(self).flags(q) == old(self).flags(q),
    {
        let i = pos.y as usize * 10 + pos.x as usize;
        let v = self.buffer[i] | flags;
        self.buffer.set(i, v);
        assert forall|q: Vec2| on_grid(q) && q != pos implies #[trigger] cell_slot(q) != cell_slot(pos) by {}
    }

    /// Draws both the cells fired upon and the fleet of `player`.
    pub fn set_all_fields(&mut self, player: &PlayerState)
        requires
            old(self).wf(),
            fleet_fits(player.ships),
        ensures
            final(self).wf(),
            forall|c: Vec2| on_grid(c) ==> #[trigger] final(self).flags(c) == old(self).flags(c) | hit_flags(*player, c)
                | fleet_flags(*player, SHIP_COUNT as int, c),
    {
        self.set_hits(player);
        self.set_ships(player);
    }

    /// Marks the cells fired upon on `player`.
    pub fn set_hits(&mut self, player: &PlayerState)
        requires
            old(self).wf(),
        ensures
            final(self).wf(),
            forall|c: Vec2| on_grid(c) ==> #[trigger] final(self).flags(c) == old(self).flags(c) | hit_flags(*player, c),
    {
        let ghost start = *self;
        let mut x: u8 = 0;
        while x < GRID_SIZE
            invariant
                self.wf(),
                x <= GRID_SIZE,
                forall|c: Vec2| on_grid(c) ==> #[trigger] self.flags(c) == if c.x < x {
                    start.flags(c) | hit_flags(*player, c)
                } else {
                    start.flags(c)
                },
            decreases GRID_SIZE - x,
        {
            let mut y: u8 = 0;
            while y < GRID_SIZE
                invariant
                    self.wf(),
                    x < GRID_SIZE,
                    y <= GRID_SIZE,
                    forall|c: Vec2| on_grid(c) ==> #[trigger] self.flags(c) == if c.x < x || (c.x == x
                        && c.y < y) {
                        start.flags(c) | hit_flags(*player, c)
                    } else {
                        start.flags(c)
                    },
                decreases GRID_SIZE - y,
            {
                let pos = Vec2::new(x, y);
                let ghost before = *self;
                if player.hits.get(pos) {
                    self.mark(pos, FLAG_HIT);
                } else {
                    let ghost f = before.flags(pos);
                    assert(f | 0u8 == f) by (bit_vector);
                }
                y = y + 1;
            }
            x = x + 1;
        }
    }

    /// Marks the fleet of `player`: every tile as ship, the first and the
    /// last of each ship as such, and the tiles of sunk ships as sunk.
    pub fn set_ships(&mut self, player: &PlayerState)
        requires
            old(self).wf(),
            fleet_fits(player.ships),
        ensures
            final(self).wf(),
            forall|c: Vec2| on_grid(c) ==> #[trigger] final(self).flags(c) == old(self).flags(c)
                | fleet_flags(*player, SHIP_COUNT as int, c),
    {
        let ghost start = *self;
        proof {
            lemma_or_zero();
        }
        let ships = player.ships();
        let mut i: usize = 0;
        while i < SHIP_COUNT
            invariant
                self.wf(),
                i <= SHIP_COUNT,
                fleet_fits(player.ships),
                forall|j: int| 0 <= j < SHIP_COUNT ==> #[trigger] ships[j] == player.ship(j),
                forall|c: Vec2| on_grid(c) ==> #[trigger] self.flags(c) == start.flags(c) | fleet_flags(*player, i as int, c),
            decreases SHIP_COUNT - i,
        {
            let ship = ships[i];
            assert(roster_ship(i as int, player.ships[i as int]).fits());
            proof {
                lemma_tiles_on_grid(ship);
                lemma_anchor_bounded(ship.state.0);
            }
            let sunk = player.is_sunk(&ship);
            let len = ship.info.len;
            let tiles = ship.tiles();
            let ghost mid = *self;
            proof {
                lemma_or_zero();
            }
            let mut k: usize = 0;
            while k < tiles.len()
                invariant
                    self.wf(),
                    mid.wf(),
                    i < SHIP_COUNT,
                    ship == player.ship(i as int),
                    1 <= len <= 5,
                    len == ship.info.len,
                    ship.fits(),
                    ship.state.anchor().x < 15 && ship.state.anchor().y < 15,
                    sunk == player.all_tiles_hit(ship),
                    tiles@ == ship.tile_seq(),
                    k <= tiles.len(),
                    forall|c: Vec2| on_grid(c) ==> #[trigger] self.flags(c) == mid.flags(c) | ship_flags_upto(*player, i as int, k as int, c),
                decreases tiles.len() - k,
            {
                let pos = tiles[k];
                let mut flags: u8 = if k == 0 {
                    FLAG_SHIP | FLAG_SHIP_START
                } else if k >= len as usize - 1 {
                    FLAG_SHIP | FLAG_SHIP_END
                } else {
                    FLAG_SHIP
                };
                if sunk {
                    flags = flags | FLAG_SUNK;
                }
                let ghost before = *self;
                proof {
                    lemma_tiles_on_grid(ship);
                    assert(ship.covers(pos));
                    assert(offset(ship, pos) == k);
                }
                self.mark(pos, flags);
                proof {
                    assert forall|c: Vec2| on_grid(c) implies #[trigger] self.flags(c) == mid.flags(c) | ship_flags_upto(*player, i as int, k + 1, c) by {
                        if c == pos {
                            let m = mid.flags(c);
                            assert(ship_flags_upto(*player, i as int, k as int, c) == 0);
                            assert(ship_flags_upto(*player, i as int, k + 1, c) == flags);
                            assert((m | 0u8) | flags == m | flags) by (bit_vector);
                        } else {
                            if ship.covers(c) && offset(ship, c) == k {
                                assert(c == pos);
                            }
                        }
                    }
                }
                k = k + 1;
            }
            proof {
                assert forall|c: Vec2| on_grid(c) implies #[trigger] self.flags(c) == start.flags(c) | fleet_flags(*player, i + 1, c) by {
                    let a = start.flags(c);
                    let b = fleet_flags(*player, i as int, c);
                    let d = ship_flags_upto(*player, i as int, len as int, c);
                    if ship.covers(c) {
                        assert(offset(ship, c) < len);
                    }
                    assert((a | b) | d == a | (b | d)) by (bit_vector);
                }
            }
            i = i + 1;
        }
    }
}

} // verus!
