//! One player's side: identity, the cells fired upon, and the fleet, with the
//! random placement of that fleet.

use vstd::prelude::*;
use rand::rngs::ThreadRng;
use crate::grid::{Vec2, Rotation, GRID_SIZE};
use crate::hits::HitMatrix;
use crate::ship::{
    lemma_tiles_on_grid,
    Ship, ShipInfo, ShipState, SHIP_COUNT, roster_ship, ship_len, packed,
};
use crate::chance::{draw_below, draw_coin, thread_rng};

verus! {

/// How many candidates placement draws for one ship before giving up.
pub const MAX_ATTEMPTS: u32 = 1000;

/// Placement drew `MAX_ATTEMPTS` overlapping candidates in a row for one
/// ship and gave up.
#[derive(Debug, Clone, Copy, PartialEq, Eq, Structural)]
pub struct PlacementExhausted;

/// Every ship of `ships` lies wholly on the board.
pub open spec fn fleet_fits(ships: [ShipState; 5]) -> bool {
    forall|i: int| 0 <= i < SHIP_COUNT ==> #[trigger] roster_ship(i, ships[i]).fits()
}

/// No two ships among the first `n` of `ships` have overlapping bounding
/// boxes.
pub open spec fn fleet_disjoint_upto(ships: [ShipState; 5], n: int) -> bool {
    forall|i: int, j: int|
        0 <= i < n && 0 <= j < n && i != j ==> !#[trigger] roster_ship(i, ships[i]).overlaps(
            #[trigger] roster_ship(j, ships[j]),
        )
}

/// A valid fleet: on the board, pairwise disjoint.
pub open spec fn fleet_valid(ships: [ShipState; 5]) -> bool {
    fleet_fits(ships) && fleet_disjoint_upto(ships, SHIP_COUNT as int)
}

/// Some ship before `index` overlaps ship `index`.
pub open spec fn overlaps_earlier(ships: [ShipState; 5], index: int) -> bool {
    exists|j: int|
        0 <= j < index && #[trigger] roster_ship(j, ships[j]).overlaps(
            roster_ship(index, ships[index]),
        )
}

/// The ship state that placement makes of its draws for roster entry
/// `index`: a coin for the rotation, a coordinate along the ship's axis and
/// one across it.
pub open spec fn candidate_state(index: int, horizontal: bool, along: u8, across: u8) -> ShipState {
    if horizontal {
        ShipState(packed(Vec2 { x: along, y: across }, Rotation::Horizontal))
    } else {
        ShipState(packed(Vec2 { x: across, y: along }, Rotation::Vertical))
    }
}

/// Whether ship `index` of `ships` overlaps any ship before it in roster
/// order.
pub fn has_overlaps(ships: &[ShipState; 5], index: usize) -> (r: bool)
    requires
        index < SHIP_COUNT,
    ensures
        r == overlaps_earlier(*ships, index as int),
{
    let ship = Ship { info: ShipInfo::at(index), state: ships[index] };
    let (b_l, b_r) = ship.bounds();
    let mut j: usize = 0;
    while j < index
        invariant
            index < SHIP_COUNT,
            j <= index,
            ship == roster_ship(index as int, ships[index as int]),
            b_l == ship.state.anchor(),
            b_r == ship.end(),
            forall|k: int| 0 <= k < j ==> !#[trigger] roster_ship(k, ships[k]).overlaps(ship),
        decreases index - j,
    {
        let other = Ship { info: ShipInfo::at(j), state: ships[j] };
        let (a_l, a_r) = other.bounds();
        if b_l.x <= a_r.x && a_l.x <= b_r.x && b_l.y <= a_r.y && a_l.y <= b_r.y {
            assert(roster_ship(j as int, ships[j as int]).overlaps(ship));
            return true;
        }
        j = j + 1;
    }
    false
}

/// The ship state for roster entry `index` from the drawn values; it always
/// lies on the board.
pub fn candidate(index: usize, horizontal: bool, along: u8, across: u8) -> (r: ShipState)
    requires
        index < SHIP_COUNT,
        along < GRID_SIZE - ship_len(index as int),
        across < GRID_SIZE,
    ensures
        r == candidate_state(index as int, horizontal, along, across),
        roster_ship(index as int, r).fits(),
{
    if horizontal {
        ShipState::new(Vec2::new(along, across), Rotation::Horizontal)
    } else {
        ShipState::new(Vec2::new(across, along), Rotation::Vertical)
    }
}

/// Every ship of `ships` is the candidate of some draws in the ranges that
/// `draw_ranges` gives for its roster entry.
pub open spec fn fleet_drawn(ships: [ShipState; 5]) -> bool {
    forall|k: int| 0 <= k < SHIP_COUNT ==> #[trigger] drawn_in_range(k, ships[k])
}

/// `state` is the candidate of roster entry `index` for some coin and some
/// coordinates in `[0, 10 - len)` along the ship and `[0, 10)` across it.
pub open spec fn drawn_in_range(index: int, state: ShipState) -> bool {
    exists|horizontal: bool, along: u8, across: u8|
        along < GRID_SIZE - ship_len(index) && across < GRID_SIZE && state == candidate_state(
            index,
            horizontal,
            along,
            across,
        )
}

/// What one drawn candidate leads to.
#[derive(Debug, Clone, Copy, PartialEq, Eq, Structural)]
pub enum PlaceStep {
    /// The candidate meets no earlier ship and stays.
    Placed,
    /// The candidate overlaps an earlier ship; draw again.
    Retry,
    /// The candidate overlaps and it was the last attempt allowed.
    Exhausted,
}

/// The exclusive upper bounds of the two coordinates drawn for roster entry
/// `index`: along the ship's axis, then across it.
pub fn draw_ranges(index: usize) -> (r: (u8, u8))
    requires
        index < SHIP_COUNT,
    ensures
        r.0 == GRID_SIZE - ship_len(index as int),
        r.1 == GRID_SIZE,
        0 < r.0,
{
    let info = ShipInfo::at(index);
    (GRID_SIZE - info.len, GRID_SIZE)
}

/// Tries one set of draws for ship `i`, whose earlier attempts number
/// `attempts`: the candidate takes slot `i`, and it stays if it meets no
/// earlier ship; otherwise placement draws again, or gives up when this was
/// attempt number `MAX_ATTEMPTS`.
pub fn place_step(
    ships: &mut [ShipState; 5],
    i: usize,
    attempts: u32,
    horizontal: bool,
    along: u8,
    across: u8,
) -> (r: PlaceStep)
    requires
        i < SHIP_COUNT,
        attempts < MAX_ATTEMPTS,
        along < GRID_SIZE - ship_len(i as int),
        across < GRID_SIZE,
    ensures
        final(ships)@ == old(ships)@.update(i as int, candidate_state(i as int, horizontal, along, across)),
        roster_ship(i as int, final(ships)[i as int]).fits(),
        r == (if !overlaps_earlier(*final(ships), i as int) {
            PlaceStep::Placed
        } else if attempts + 1 == MAX_ATTEMPTS {
            PlaceStep::Exhausted
        } else {
            PlaceStep::Retry
        }),
{
    ships[i] = candidate(i, horizontal, along, across);
    assert(ships@ =~= old(ships)@.update(i as int, candidate_state(i as int, horizontal, along, across)));
    if !has_overlaps(ships, i) {
        PlaceStep::Placed
    } else if attempts + 1 == MAX_ATTEMPTS {
        PlaceStep::Exhausted
    } else {
        PlaceStep::Retry
    }
}

/// Draws a fleet: ships in roster order, each at random until its bounding
/// box meets none of those before it.
fn place_fleet(rng: &mut ThreadRng) -> (r: Result<[ShipState; 5], PlacementExhausted>)
    ensures
        r matches Ok(ships) ==> fleet_valid(ships) && fleet_drawn(ships),
{
    let mut ships: [ShipState; 5] = [ShipState(0), ShipState(0), ShipState(0), ShipState(0), ShipState(0)];
    let mut i: usize = 0;
    while i < SHIP_COUNT
        invariant
            i <= SHIP_COUNT,
            forall|k: int| 0 <= k < i ==> #[trigger] roster_ship(k, ships[k]).fits(),
            forall|k: int| 0 <= k < i ==> #[trigger] drawn_in_range(k, ships[k]),
            fleet_disjoint_upto(ships, i as int),
        decreases SHIP_COUNT - i,
    {
        let (along_range, across_range) = draw_ranges(i);
        let mut attempts: u32 = 0;
        loop
            invariant_except_break
                attempts < MAX_ATTEMPTS,
            invariant
                i < SHIP_COUNT,
                along_range == GRID_SIZE - ship_len(i as int),
                across_range == GRID_SIZE,
                forall|k: int| 0 <= k < i ==> #[trigger] roster_ship(k, ships[k]).fits(),
                forall|k: int| 0 <= k < i ==> #[trigger] drawn_in_range(k, ships[k]),
                fleet_disjoint_upto(ships, i as int),
            ensures
                roster_ship(i as int, ships[i as int]).fits(),
                drawn_in_range(i as int, ships[i as int]),
                !overlaps_earlier(ships, i as int),
            decreases MAX_ATTEMPTS - attempts,
        {
            let along = draw_below(rng, along_range);
            let across = draw_below(rng, across_range);
            let horizontal = draw_coin(rng);
            let step = place_step(&mut ships, i, attempts, horizontal, along, across);
            assert(ships[i as int] == candidate_state(i as int, horizontal, along, across));
            assert(drawn_in_range(i as int, ships[i as int]));
            match step {
                PlaceStep::Placed => break,
                PlaceStep::Exhausted => return Err(PlacementExhausted),
                PlaceStep::Retry => attempts = attempts + 1,
            }
        }
        assert forall|a: int, b: int|
            0 <= a < i + 1 && 0 <= b < i + 1 && a != b implies !#[trigger] roster_ship(a, ships[a]).overlaps(
            #[trigger] roster_ship(b, ships[b]),
        ) by {
            if a == i {
                assert(!roster_ship(b, ships[b]).overlaps(roster_ship(a, ships[a])));
            } else if b == i {
                assert(!roster_ship(a, ships[a]).overlaps(roster_ship(b, ships[b])));
            }
        }
        i = i + 1;
    }
    Ok(ships)
}

/// One player's side of the game.
#[derive(Debug, Clone, Copy)]
pub struct PlayerState {
    pub user_id: u64,
    pub hits: HitMatrix,
    pub ships: [ShipState; 5],
}

impl PlayerState {
    /// Ship `i` of the fleet, in roster order.
    pub open spec fn ship(self, i: int) -> Ship {
        roster_ship(i, self.ships[i])
    }

    /// The side is consistent: a valid fleet, and hits on board cells only.
    pub open spec fn wf(self) -> bool {
        fleet_valid(self.ships) && self.hits.wf()
    }

    /// Every tile of `s` has been fired upon.
    pub open spec fn all_tiles_hit(self, s: Ship) -> bool {
        forall|k: int| 0 <= k < s.info.len ==> self.hits.has(#[trigger] s.tile(k))
    }

    /// Every ship of the fleet is sunk.
    pub open spec fn fleet_sunk(self) -> bool {
        forall|i: int| 0 <= i < SHIP_COUNT ==> self.all_tiles_hit(#[trigger] self.ship(i))
    }

    /// The first ship, in roster order, whose bounding box covers `p`.
    pub open spec fn ship_covering(self, p: Vec2) -> Option<int> {
        if self.ship(0).covers(p) {
            Some(0)
        } else if self.ship(1).covers(p) {
            Some(1)
        } else if self.ship(2).covers(p) {
            Some(2)
        } else if self.ship(3).covers(p) {
            Some(3)
        } else if self.ship(4).covers(p) {
            Some(4)
        } else {
            None
        }
    }

    /// A side for `user_id` with no cells fired upon and a freshly drawn
    /// fleet.
    pub fn new(user_id: u64) -> (r: Result<Self, PlacementExhausted>)
        ensures
            r matches Ok(p) ==> p.wf() && fleet_drawn(p.ships) && p.user_id == user_id && p.hits
                == HitMatrix(0),
    {
        let mut rng = thread_rng();
        let ships = place_fleet(&mut rng)?;
        let hits = HitMatrix::new();
        Ok(PlayerState { user_id, hits, ships })
    }

    /// Draws a new fleet for this side; on failure the side is unchanged.
    pub fn randomize_ships(&mut self) -> (r: Result<(), PlacementExhausted>)
        ensures
            final(self).user_id == old(self).user_id,
            final(self).hits == old(self).hits,
            r is Ok ==> fleet_valid(final(self).ships) && fleet_drawn(final(self).ships),
            r is Err ==> *final(self) == *old(self),
    {
        let mut rng = thread_rng();
        match place_fleet(&mut rng) {
            Ok(ships) => {
                self.ships = ships;
                Ok(())
            },
            Err(e) => Err(e),
        }
    }

    /// The fleet, in roster order.
    pub fn ships(&self) -> (r: [Ship; 5])
        ensures
            forall|i: int| 0 <= i < SHIP_COUNT ==> #[trigger] r[i] == self.ship(i),
    {
        [
            Ship { info: ShipInfo::at(0), state: self.ships[0] },
            Ship { info: ShipInfo::at(1), state: self.ships[1] },
            Ship { info: ShipInfo::at(2), state: self.ships[2] },
            Ship { info: ShipInfo::at(3), state: self.ships[3] },
            Ship { info: ShipInfo::at(4), state: self.ships[4] },
        ]
    }

    /// The ship whose bounding box covers `pos`, the first in roster order
    /// if several do.
    pub fn overlap(&self, pos: Vec2) -> (r: Option<Ship>)
        ensures
            r == (match self.ship_covering(pos) {
                Some(i) => Some(self.ship(i)),
                None => None,
            }),
    {
        let ships = self.ships();
        let mut i: usize = 0;
        while i < SHIP_COUNT
            invariant
                i <= SHIP_COUNT,
                forall|k: int| 0 <= k < SHIP_COUNT ==> #[trigger] ships[k] == self.ship(k),
                forall|k: int| 0 <= k < i ==> !#[trigger] self.ship(k).covers(pos),
            decreases SHIP_COUNT - i,
        {
            let (l, r) = ships[i].bounds();
            if pos.x >= l.x && pos.y >= l.y && pos.x <= r.x && pos.y <= r.y {
                assert(self.ship(i as int).covers(pos));
                return Some(ships[i]);
            }
            i = i + 1;
        }
        None
    }

    /// Whether every tile of `ship` has been fired upon.
    pub fn is_sunk(&self, ship: &Ship) -> (r: bool)
        requires
            1 <= ship.info.len <= 5,
            ship.fits(),
        ensures
            r == self.all_tiles_hit(*ship),
    {
        let tiles = ship.tiles();
        let mut res = true;
        let mut k: usize = 0;
        while k < tiles.len()
            invariant
                1 <= ship.info.len <= 5,
                ship.fits(),
                tiles@ == ship.tile_seq(),
                k <= tiles.len(),
                res == forall|m: int| 0 <= m < k ==> self.hits.has(#[trigger] ship.tile(m)),
            decreases tiles.len() - k,
        {
            proof {
                lemma_tiles_on_grid(*ship);
            }
            res = res && self.hits.get(tiles[k]);
            k = k + 1;
        }
        res
    }

    /// Whether this side is consistent: the whole fleet on the board, no two
    /// bounding boxes overlapping, and no bits set outside the board.
    pub fn is_valid(&self) -> (r: bool)
        ensures
            r == self.wf(),
    {
        let v = self.hits.0;
        if v >> 100u32 != 0 {
            return false;
        }
        let ships = self.ships();
        let mut i: usize = 0;
        while i < SHIP_COUNT
            invariant
                i <= SHIP_COUNT,
                self.hits.wf(),
                forall|k: int| 0 <= k < SHIP_COUNT ==> #[trigger] ships[k] == self.ship(k),
                forall|k: int| 0 <= k < i ==> #[trigger] roster_ship(k, self.ships[k]).fits(),
                fleet_disjoint_upto(self.ships, i as int),
            decreases SHIP_COUNT - i,
        {
            let (_, end) = ships[i].bounds();
            if end.x >= GRID_SIZE || end.y >= GRID_SIZE {
                assert(!roster_ship(i as int, self.ships[i as int]).fits());
                return false;
            }
            if has_overlaps(&self.ships, i) {
                assert(!fleet_disjoint_upto(self.ships, SHIP_COUNT as int));
                return false;
            }
            assert forall|a: int, b: int|
                0 <= a < i + 1 && 0 <= b < i + 1 && a != b implies !#[trigger] roster_ship(
                a,
                self.ships[a],
            ).overlaps(#[trigger] roster_ship(b, self.ships[b])) by {
                if a == i {
                    assert(!roster_ship(b, self.ships[b]).overlaps(roster_ship(a, self.ships[a])));
                } else if b == i {
                    assert(!roster_ship(a, self.ships[a]).overlaps(roster_ship(b, self.ships[b])));
                }
            }
            i = i + 1;
        }
        true
    }

    /// Whether every ship of the fleet is sunk.
    pub fn are_all_ships_sunk(&self) -> (r: bool)
        requires
            fleet_fits(self.ships),
        ensures
            r == self.fleet_sunk(),
    {
        let ships = self.ships();
        let mut i: usize = 0;
        while i < SHIP_COUNT
            invariant
                i <= SHIP_COUNT,
                fleet_fits(self.ships),
                forall|k: int| 0 <= k < SHIP_COUNT ==> #[trigger] ships[k] == self.ship(k),
                forall|k: int| 0 <= k < i ==> self.all_tiles_hit(#[trigger] self.ship(k)),
            decreases SHIP_COUNT - i,
        {
            assert(roster_ship(i as int, self.ships[i as int]).fits());
            if !self.is_sunk(&ships[i]) {
                return false;
            }
            i = i + 1;
        }
        true
    }
}

} // verus!
