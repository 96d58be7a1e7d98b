//! The fixed fleet roster, the one-byte ship state, and the derived view of a
//! placed ship.

use vstd::prelude::*;
use crate::grid::{Vec2, Rotation, on_grid};

verus! {

/// Number of ships in every fleet.
pub const SHIP_COUNT: usize = 5;

/// Width of the line over which a packed anchor is laid out.
pub const PACK_WIDTH: u8 = 9;

/// Flag bit of a packed ship state that marks a vertical ship.
pub const VERTICAL_FLAG: u8 = 0x80;

/// Mask of the anchor bits of a packed ship state.
pub const ANCHOR_MASK: u8 = 0x7f;

/// Length of the ship at roster position `index`:
/// Carrier 5, Battleship 4, Cruiser 3, Submarine 3, Destroyer 2.
pub open spec fn ship_len(index: int) -> u8 {
    roster_info(index).len
}

/// Static description of one roster entry.
#[derive(Debug, Clone, Copy)]
pub struct ShipInfo {
    pub label: &'static str,
    pub index: usize,
    pub len: u8,
}

/// The roster entry at `index`.
pub open spec fn roster_info(index: int) -> ShipInfo {
    if index == 0 {
        ShipInfo { label: "Carrier", index: 0, len: 5 }
    } else if index == 1 {
        ShipInfo { label: "Battleship", index: 1, len: 4 }
    } else if index == 2 {
        ShipInfo { label: "Cruiser", index: 2, len: 3 }
    } else if index == 3 {
        ShipInfo { label: "Submarine", index: 3, len: 3 }
    } else {
        ShipInfo { label: "Destroyer", index: 4, len: 2 }
    }
}

/// The ship of roster entry `index` placed as `state` says.
pub open spec fn roster_ship(index: int, state: ShipState) -> Ship {
    Ship { info: roster_info(index), state }
}

impl ShipInfo {
    /// The roster entry at `index`.
    pub fn at(index: usize) -> (r: ShipInfo)
        requires
            index < SHIP_COUNT,
        ensures
            r == roster_info(index as int),
            r.len == ship_len(index as int),
    {
        if index == 0 {
            ShipInfo { label: "Carrier", index, len: 5 }
        } else if index == 1 {
            ShipInfo { label: "Battleship", index, len: 4 }
        } else if index == 2 {
            ShipInfo { label: "Cruiser", index, len: 3 }
        } else if index == 3 {
            ShipInfo { label: "Submarine", index, len: 3 }
        } else {
            ShipInfo { label: "Destroyer", index, len: 2 }
        }
    }
}

/// The byte `new` packs for an anchor and a rotation: a horizontal ship
/// stores `x * 9 + y`, a vertical one `x + y * 9` with the top bit set.
pub open spec fn packed(pos: Vec2, rot: Rotation) -> u8 {
    match rot {
        Rotation::Horizontal => (pos.x * 9 + pos.y) as u8,
        Rotation::Vertical => (pos.x + pos.y * 9 + 128) as u8,
    }
}

/// The rotation a packed byte holds.
pub open spec fn rotation_of(b: u8) -> Rotation {
    if b < 128 {
        Rotation::Horizontal
    } else {
        Rotation::Vertical
    }
}

/// The anchor a packed byte holds: its low seven bits, divided and reduced
/// by 9, in an order that depends on the rotation.
pub open spec fn position_of(b: u8) -> Vec2 {
    let v = b % 128;
    match rotation_of(b) {
        Rotation::Horizontal => Vec2 { x: (v / 9) as u8, y: (v % 9) as u8 },
        Rotation::Vertical => Vec2 { x: (v % 9) as u8, y: (v / 9) as u8 },
    }
}

/// The anchor that packing `pos` with `rot` leads to. The line is 9 wide, so
/// a cross-axis coordinate of 9 carries over into the next line.
pub open spec fn anchor_after_packing(pos: Vec2, rot: Rotation) -> Vec2 {
    match rot {
        Rotation::Horizontal => if pos.y < 9 {
            pos
        } else {
            Vec2 { x: (pos.x + 1) as u8, y: 0 }
        },
        Rotation::Vertical => if pos.x < 9 {
            pos
        } else {
            Vec2 { x: 0, y: (pos.y + 1) as u8 }
        },
    }
}

/// Division by the line width recovers line and offset.
proof fn lemma_line(q: int, r: int)
    requires
        0 <= q,
        0 <= r < 9,
    ensures
        (q * 9 + r) / 9 == q,
        (q * 9 + r) % 9 == r,
{
    vstd::arithmetic::div_mod::lemma_fundamental_div_mod_converse(q * 9 + r, 9, q, r);
}

/// A ship's placement packed in one byte: top bit rotation, low seven bits
/// anchor.
#[derive(Debug, Clone, Copy, PartialEq, Eq, Structural)]
pub struct ShipState(pub u8);

impl ShipState {
    pub open spec fn anchor(self) -> Vec2 {
        position_of(self.0)
    }

    pub open spec fn rot(self) -> Rotation {
        rotation_of(self.0)
    }

    /// Packs an anchor and a rotation. The anchor lies on the board, and
    /// its coordinate along the ship's axis is below 9.
    pub fn new(pos: Vec2, rot: Rotation) -> (r: Self)
        requires
            on_grid(pos),
            rot == Rotation::Horizontal ==> pos.x < PACK_WIDTH,
            rot == Rotation::Vertical ==> pos.y < PACK_WIDTH,
        ensures
            r.0 == packed(pos, rot),
            r.rot() == rot,
            r.anchor() == anchor_after_packing(pos, rot),
    {
        match rot {
            Rotation::Horizontal => {
                let v: u8 = pos.x * PACK_WIDTH + pos.y;
                proof {
                    assert(v < 128);
                    vstd::arithmetic::div_mod::lemma_small_mod(v as nat, 128);
                    if pos.y < 9 {
                        lemma_line(pos.x as int, pos.y as int);
                    } else {
                        lemma_line(pos.x + 1, 0);
                    }
                }
                ShipState(v)
            },
            Rotation::Vertical => {
                proof {
                    if pos.x < 9 {
                        lemma_line(pos.y as int, pos.x as int);
                    } else {
                        lemma_line(pos.y + 1, 0);
                    }
                }
                let v: u8 = pos.x + pos.y * PACK_WIDTH;
                assert(v | 0x80u8 == v + 128) by (bit_vector)
                    requires
                        v < 128,
                ;
                proof {
                    vstd::arithmetic::div_mod::lemma_fundamental_div_mod_converse(
                        v + 128,
                        128,
                        1,
                        v as int,
                    );
                }
                ShipState(v | VERTICAL_FLAG)
            },
        }
    }

    /// The anchor tile.
    pub fn position(self) -> (r: Vec2)
        ensures
            r == self.anchor(),
            r.x < 15 && r.y < 15,
    {
        let b = self.0;
        assert(b & 0x7fu8 == b % 128) by (bit_vector);
        let val = self.0 & ANCHOR_MASK;
        let a = val / PACK_WIDTH;
        let c = val % PACK_WIDTH;
        match self.rotation() {
            Rotation::Horizontal => Vec2::new(a, c),
            Rotation::Vertical => Vec2::new(c, a),
        }
    }

    pub fn rotation(self) -> (r: Rotation)
        ensures
            r == self.rot(),
    {
        let b = self.0;
        assert((b >> 7u8 == 0) == (b < 128)) by (bit_vector);
        if self.0 >> 7 == 0 {
            Rotation::Horizontal
        } else {
            Rotation::Vertical
        }
    }
}

/// A placed ship: its roster entry together with its packed state.
#[derive(Debug, Clone, Copy)]
pub struct Ship {
    pub info: ShipInfo,
    pub state: ShipState,
}

/// The tile `i` steps from `anchor` along `rot`.
pub open spec fn step(anchor: Vec2, rot: Rotation, i: int) -> Vec2 {
    match rot {
        Rotation::Horizontal => Vec2 { x: (anchor.x + i) as u8, y: anchor.y },
        Rotation::Vertical => Vec2 { x: anchor.x, y: (anchor.y + i) as u8 },
    }
}

/// Boxes `[a_l, a_r]` and `[b_l, b_r]` (corners included) share a cell.
pub open spec fn boxes_overlap(a_l: Vec2, a_r: Vec2, b_l: Vec2, b_r: Vec2) -> bool {
    b_l.x <= a_r.x && a_l.x <= b_r.x && b_l.y <= a_r.y && a_l.y <= b_r.y
}

impl Ship {
    /// The ship's `i`-th tile, counted from the anchor.
    pub open spec fn tile(self, i: int) -> Vec2 {
        step(self.state.anchor(), self.state.rot(), i)
    }

    /// The far corner of the ship: its last tile.
    pub open spec fn end(self) -> Vec2 {
        self.tile(self.info.len - 1)
    }

    /// The ordered tiles the ship covers.
    pub open spec fn tile_seq(self) -> Seq<Vec2> {
        Seq::new(self.info.len as nat, |i: int| self.tile(i))
    }

    /// `p` lies inside the ship's bounding box.
    pub open spec fn covers(self, p: Vec2) -> bool {
        let a = self.state.anchor();
        let e = self.end();
        a.x <= p.x <= e.x && a.y <= p.y <= e.y
    }

    /// The whole ship lies on the board.
    pub open spec fn fits(self) -> bool {
        on_grid(self.end())
    }

    /// The bounding boxes of two ships share a cell.
    pub open spec fn overlaps(self, other: Ship) -> bool {
        boxes_overlap(self.state.anchor(), self.end(), other.state.anchor(), other.end())
    }

    /// The inclusive bounding box: anchor and last tile.
    pub fn bounds(&self) -> (r: (Vec2, Vec2))
        requires
            1 <= self.info.len <= 5,
        ensures
            r.0 == self.state.anchor(),
            r.1 == self.end(),
    {
        let last = self.info.len - 1;
        let tl_pos = self.state.position();
        let br_pos = match self.state.rotation() {
            Rotation::Horizontal => Vec2::new(tl_pos.x + last, tl_pos.y),
            Rotation::Vertical => Vec2::new(tl_pos.x, tl_pos.y + last),
        };
        (tl_pos, br_pos)
    }

    /// The tiles the ship covers: the anchor, then onwards along its
    /// rotation, `len` tiles in all.
    pub fn tiles(&self) -> (r: Vec<Vec2>)
        requires
            self.info.len <= 5,
        ensures
            r@ == self.tile_seq(),
    {
        let len = self.info.len;
        let pos = self.state.position();
        let rot = self.state.rotation();
        let mut res: Vec<Vec2> = Vec::new();
        let mut i: u8 = 0;
        while i < len
            invariant
                len == self.info.len,
                len <= 5,
                pos == self.state.anchor(),
                pos.x < 15 && pos.y < 15,
                rot == self.state.rot(),
                i <= len,
                res@ == self.tile_seq().take(i as int),
            decreases len - i,
        {
            let t = match rot {
                Rotation::Horizontal => Vec2::new(pos.x + i, pos.y),
                Rotation::Vertical => Vec2::new(pos.x, pos.y + i),
            };
            res.push(t);
            i = i + 1;
            assert(res@ =~= self.tile_seq().take(i as int));
        }
        assert(res@ =~= self.tile_seq());
        res
    }
}

/// Both coordinates of an unpacked anchor are below 15.
pub proof fn lemma_anchor_bounded(b: u8)
    ensures
        position_of(b).x < 15,
        position_of(b).y < 15,
{
    let v = b % 128;
    vstd::arithmetic::div_mod::lemma_div_is_ordered(v as int, 134, 9);
    vstd::arithmetic::div_mod::lemma_fundamental_div_mod_converse(134, 9, 14, 8);
}

/// Every tile of a ship that fits lies on the board.
pub proof fn lemma_tiles_on_grid(s: Ship)
    requires
        1 <= s.info.len <= 5,
        s.fits(),
    ensures
        forall|k: int| 0 <= k < s.info.len ==> #[trigger] on_grid(s.tile(k)),
{
    lemma_anchor_bounded(s.state.0);
}

/// A ship's bounding box holds exactly its tiles.
pub proof fn lemma_covers_iff_tile(s: Ship, p: Vec2)
    requires
        s.info.len >= 1,
        s.state.anchor().x + s.info.len <= 255,
        s.state.anchor().y + s.info.len <= 255,
    ensures
        s.covers(p) <==> exists|i: int| 0 <= i < s.info.len && s.tile(i) == p,
{
    if s.covers(p) {
        let a = s.state.anchor();
        let i: int = match s.state.rot() {
            Rotation::Horizontal => p.x - a.x,
            Rotation::Vertical => p.y - a.y,
        };
        assert(s.tile(i) == p);
    }
}

} // verus!
