//! The whole game: both sides and whose turn it is.

use vstd::prelude::*;
use crate::grid::{Vec2, on_grid};
use crate::hits::{HitMatrix, lemma_set_then_get};
use crate::ship::{lemma_tiles_on_grid, lemma_covers_iff_tile, lemma_anchor_bounded};
use crate::ship::{ShipState, SHIP_COUNT};
use crate::player::{PlayerState, PlacementExhausted, fleet_drawn};

verus! {

/// Whose turn it is: 1 for the first player, 2 for the second. Any other
/// value can only come from a corrupted token.
#[derive(Debug, Clone, Copy, PartialEq, Eq, Structural)]
pub struct Turn(pub u8);

impl Turn {
    pub open spec fn wf(self) -> bool {
        self.0 == 1 || self.0 == 2
    }

    /// The other player's turn.
    pub open spec fn flip(self) -> Turn {
        Turn((3 - self.0) as u8)
    }

    /// The other player's turn.
    pub fn flipped(self) -> (r: Turn)
        requires
            self.wf(),
        ensures
            r == self.flip(),
            r.wf(),
    {
        Turn(3 - self.0)
    }
}

/// Flipping the turn twice gives it back.
pub proof fn lemma_flip_flip(t: Turn)
    requires
        t.wf(),
    ensures
        t.flip().wf(),
        t.flip() != t,
        t.flip().flip() == t,
{
}

/// What a shot that was not already taken did.
#[derive(Debug, Clone, Copy, PartialEq, Eq, Structural)]
pub enum NextTurnInfo {
    /// No ship there.
    Miss,
    /// A ship there, with tiles still afloat.
    Hit,
    /// The ship at roster position `ship` has every tile hit now; `loss`
    /// says whether the whole fleet is.
    Sunk { ship: usize, loss: bool },
}

/// The verdict on a shot at `at` against `p`, the target side with `at`
/// already marked.
pub open spec fn shot_info(p: PlayerState, at: Vec2) -> NextTurnInfo {
    match p.ship_covering(at) {
        None => NextTurnInfo::Miss,
        Some(i) => if p.all_tiles_hit(p.ship(i)) {
            NextTurnInfo::Sunk { ship: i as usize, loss: p.fleet_sunk() }
        } else {
            NextTurnInfo::Hit
        },
    }
}

/// Full game state; the token carries it from one interaction to the next.
#[derive(Debug, Clone, Copy)]
pub struct GameState {
    pub player_1: PlayerState,
    pub player_2: PlayerState,
    pub turn: Turn,
}

impl GameState {
    /// Consistent state: a valid turn and two consistent sides.
    pub open spec fn wf(self) -> bool {
        self.turn.wf() && self.player_1.wf() && self.player_2.wf()
    }

    /// The side whose turn it is.
    pub open spec fn current_side(self) -> PlayerState {
        if self.turn.0 == 1 {
            self.player_1
        } else {
            self.player_2
        }
    }

    /// The other side.
    pub open spec fn target_side(self) -> PlayerState {
        if self.turn.0 == 1 {
            self.player_2
        } else {
            self.player_1
        }
    }

    /// The state with the target side replaced by `p`.
    pub open spec fn with_target(self, p: PlayerState) -> GameState {
        if self.turn.0 == 1 {
            GameState { player_2: p, ..self }
        } else {
            GameState { player_1: p, ..self }
        }
    }

    /// The state with the current side replaced by `p`.
    pub open spec fn with_current(self, p: PlayerState) -> GameState {
        if self.turn.0 == 1 {
            GameState { player_1: p, ..self }
        } else {
            GameState { player_2: p, ..self }
        }
    }

    /// The state with the turn passed to the other side.
    pub open spec fn swapped(self) -> GameState {
        GameState { turn: self.turn.flip(), ..self }
    }

    /// The target side once `at` is marked on it.
    pub open spec fn target_hit(self, at: Vec2) -> PlayerState {
        PlayerState { hits: self.target_side().hits.with(at), ..self.target_side() }
    }

    /// The state after a shot at a cell not fired upon before: the cell is
    /// marked on the target side and the turn passes.
    pub open spec fn after_shot(self, at: Vec2) -> GameState {
        self.with_target(self.target_hit(at)).swapped()
    }

    /// The player who has won: the one whose opponent has lost every ship.
    pub open spec fn winner_id(self) -> Option<u64> {
        if self.current_side().fleet_sunk() {
            Some(self.target_side().user_id)
        } else if self.target_side().fleet_sunk() {
            Some(self.current_side().user_id)
        } else {
            None
        }
    }

    /// A new game between two users: fresh fleets, nothing fired upon, and
    /// the first player to act.
    pub fn new(player_1_id: u64, player_2_id: u64) -> (r: Result<Self, PlacementExhausted>)
        ensures
            r matches Ok(g) ==> {
                &&& g.wf()
                &&& fleet_drawn(g.player_1.ships)
                &&& fleet_drawn(g.player_2.ships)
                &&& g.turn == Turn(1)
                &&& g.player_1.user_id == player_1_id
                &&& g.player_2.user_id == player_2_id
                &&& g.player_1.hits == HitMatrix(0)
                &&& g.player_2.hits == HitMatrix(0)
            },
    {
        let player_1 = PlayerState::new(player_1_id)?;
        let player_2 = PlayerState::new(player_2_id)?;
        Ok(GameState { player_1, player_2, turn: Turn(1) })
    }

    /// Whether the state is consistent; anything else came from a
    /// corrupted token.
    pub fn is_valid(&self) -> (r: bool)
        ensures
            r == self.wf(),
    {
        (self.turn.0 == 1 || self.turn.0 == 2) && self.player_1.is_valid()
            && self.player_2.is_valid()
    }

    /// The turn number, 1 or 2.
    pub fn turn_num(&self) -> (r: u8)
        ensures
            r == self.turn.0,
    {
        self.turn.0
    }

    /// The side whose turn it is.
    pub fn current_turn(&self) -> (r: &PlayerState)
        requires
            self.turn.wf(),
        ensures
            *r == self.current_side(),
    {
        if self.turn.0 == 1 {
            &self.player_1
        } else {
            &self.player_2
        }
    }

    /// The side that is not to move.
    pub fn target(&self) -> (r: &PlayerState)
        requires
            self.turn.wf(),
        ensures
            *r == self.target_side(),
    {
        if self.turn.0 == 1 {
            &self.player_2
        } else {
            &self.player_1
        }
    }

    /// The side that is not to move, for changing it.
    pub fn target_mut(&mut self) -> (r: &mut PlayerState)
        requires
            old(self).turn.wf(),
        ensures
            *r == old(self).target_side(),
            *final(self) == old(self).with_target(*final(r)),
    {
        if self.turn.0 == 1 {
            &mut self.player_2
        } else {
            &mut self.player_1
        }
    }

    /// The side whose turn it is, for changing it.
    pub fn current_mut(&mut self) -> (r: &mut PlayerState)
        requires
            old(self).turn.wf(),
        ensures
            *r == old(self).current_side(),
            *final(self) == old(self).with_current(*final(r)),
    {
        if self.turn.0 == 1 {
            &mut self.player_1
        } else {
            &mut self.player_2
        }
    }

    /// Both sides: the one to move, then the other.
    pub fn turns(&self) -> (r: (&PlayerState, &PlayerState))
        requires
            self.turn.wf(),
        ensures
            *r.0 == self.current_side(),
            *r.1 == self.target_side(),
    {
        if self.turn.0 == 1 {
            (&self.player_1, &self.player_2)
        } else {
            (&self.player_2, &self.player_1)
        }
    }

    /// Passes the turn to the other side.
    pub fn swap_turn(&mut self)
        requires
            old(self).turn.wf(),
        ensures
            *final(self) == old(self).swapped(),
            final(self).turn.wf(),
    {
        self.turn = self.turn.flipped();
    }

    /// Fires at `at` on behalf of the side to move. A cell fired upon before
    /// leaves the state as it is and gives `None`; otherwise the cell is
    /// marked on the target side, the turn passes, and the verdict comes
    /// back.
    pub fn fire(&mut self, at: Vec2) -> (r: Option<NextTurnInfo>)
        requires
            old(self).wf(),
            on_grid(at),
        ensures
            old(self).target_side().hits.has(at) ==> r is None && *final(self) == *old(self),
            !old(self).target_side().hits.has(at) ==> {
                &&& r == Some(shot_info(old(self).target_hit(at), at))
                &&& *final(self) == old(self).after_shot(at)
            },
            final(self).wf(),
    {
        let target = self.target_mut();
        if target.hits.get(at) {
            return None;
        }
        proof {
            lemma_set_then_get(target.hits, at, at);
        }
        target.hits.set(at);
        let info = match target.overlap(at) {
            Some(s) => {
                if target.is_sunk(&s) {
                    NextTurnInfo::Sunk { ship: s.info.index, loss: target.are_all_ships_sunk() }
                } else {
                    NextTurnInfo::Hit
                }
            },
            None => NextTurnInfo::Miss,
        };
        self.swap_turn();
        Some(info)
    }

    /// The player who has won, if the game is over.
    pub fn winner(&self) -> (r: Option<u64>)
        requires
            self.wf(),
        ensures
            r == self.winner_id(),
    {
        let (current, target) = self.turns();
        if current.are_all_ships_sunk() {
            Some(target.user_id)
        } else if target.are_all_ships_sunk() {
            Some(current.user_id)
        } else {
            None
        }
    }
}

/// The shot that sinks the last ship still afloat is reported as a sinking
/// that loses the game, and the shooter is then the winner.
pub proof fn lemma_last_ship_sunk(g: GameState, at: Vec2)
    requires
        g.wf(),
        on_grid(at),
        !g.target_side().hits.has(at),
        !g.target_side().fleet_sunk(),
        g.target_hit(at).fleet_sunk(),
    ensures
        g.target_hit(at).ship_covering(at) matches Some(i) && g.target_side().ship(i).covers(at)
            && shot_info(g.target_hit(at), at) == (NextTurnInfo::Sunk { ship: i as usize, loss: true }),
        g.after_shot(at).winner_id() == Some(g.current_side().user_id),
{
    let before = g.target_side();
    let after = g.target_hit(at);
    let i = choose|i: int| 0 <= i < 5 && !before.all_tiles_hit(#[trigger] before.ship(i));
    let s = before.ship(i);
    assert(s == after.ship(i));
    let k = choose|k: int| 0 <= k < s.info.len && !before.hits.has(#[trigger] s.tile(k));
    assert(crate::ship::roster_ship(i, before.ships[i]).fits());
    lemma_tiles_on_grid(s);
    lemma_anchor_bounded(s.state.0);
    assert(after.hits.has(s.tile(k)));
    if s.tile(k) != at {
        lemma_set_then_get(before.hits, at, s.tile(k));
    }
    assert(s.tile(k) == at);
    lemma_covers_iff_tile(s, at);
    assert(after.ship(i).covers(at));
    assert(after.ship_covering(at) is Some);
    let j = after.ship_covering(at)->0;
    assert(after.all_tiles_hit(after.ship(j)));
    let next = g.after_shot(at);
    assert(next.current_side() == after);
    assert(next.target_side() == g.current_side());
}

/// A destroyer anchored horizontally at (3, 4) covers (3, 4) and (4, 4):
/// a first shot at (3, 4) is a hit, and when the same player then fires at
/// (4, 4) the destroyer is sunk, which loses the game exactly when every
/// other ship of that side is sunk too.
pub proof fn lemma_destroyer_hit_then_sunk(g: GameState)
    requires
        g.wf(),
        g.target_side().ships[4] == ShipState(31),
        !g.target_side().hits.has(Vec2 { x: 3, y: 4 }),
        !g.target_side().hits.has(Vec2 { x: 4, y: 4 }),
    ensures
        g.target_side().ship(4).tile_seq() == seq![Vec2 { x: 3, y: 4 }, Vec2 { x: 4, y: 4 }],
        shot_info(g.target_hit(Vec2 { x: 3, y: 4 }), Vec2 { x: 3, y: 4 }) == NextTurnInfo::Hit,
        ({
            let again = g.after_shot(Vec2 { x: 3, y: 4 }).swapped();
            let last = again.target_hit(Vec2 { x: 4, y: 4 });
            &&& again.target_side() == g.target_hit(Vec2 { x: 3, y: 4 })
            &&& !again.target_side().hits.has(Vec2 { x: 4, y: 4 })
            &&& shot_info(last, Vec2 { x: 4, y: 4 }) == (NextTurnInfo::Sunk {
                ship: 4,
                loss: last.fleet_sunk(),
            })
            &&& last.fleet_sunk() <==> forall|i: int|
                0 <= i < 4 ==> #[trigger] last.all_tiles_hit(last.ship(i))
        }),
{
    let a = Vec2 { x: 3, y: 4 };
    let b = Vec2 { x: 4, y: 4 };
    let t = g.target_side();
    vstd::arithmetic::div_mod::lemma_fundamental_div_mod_converse(31, 128, 0, 31);
    vstd::arithmetic::div_mod::lemma_fundamental_div_mod_converse(31, 9, 3, 4);
    let d = t.ship(4);
    assert(d.state.anchor() == a);
    assert(d.tile_seq() =~= seq![a, b]);
    // No earlier ship covers the destroyer's cells: their boxes would meet.
    assert forall|i: int| 0 <= i < 4 implies !(#[trigger] t.ship(i)).covers(a) && !t.ship(i).covers(b) by {
        assert(!crate::ship::roster_ship(i, t.ships[i]).overlaps(crate::ship::roster_ship(4, t.ships[4])));
    }
    let first = g.target_hit(a);
    lemma_set_then_get(t.hits, a, b);
    assert(first.ships == t.ships);
    assert(d.covers(a) && d.covers(b));
    assert(!t.ship(0).covers(a) && !t.ship(1).covers(a) && !t.ship(2).covers(a) && !t.ship(3).covers(a));
    assert(!t.ship(0).covers(b) && !t.ship(1).covers(b) && !t.ship(2).covers(b) && !t.ship(3).covers(b));
    assert(first.ship(4) == d);
    assert(!first.hits.has(d.tile(1)));
    assert(first.ship_covering(a) == Some(4int));
    let again = g.after_shot(a).swapped();
    lemma_flip_flip(g.turn);
    assert(again.target_side() == first);
    lemma_set_then_get(t.hits, a, b);
    let last = again.target_hit(b);
    lemma_set_then_get(first.hits, b, a);
    lemma_set_then_get(first.hits, b, b);
    assert(last.ships == t.ships);
    assert(last.ship(4) == d);
    assert(last.ship_covering(b) == Some(4int));
    assert(last.all_tiles_hit(d)) by {
        assert forall|k: int| 0 <= k < d.info.len implies last.hits.has(#[trigger] d.tile(k)) by {
            if k == 0 {
                assert(d.tile(k) == a);
            } else {
                assert(d.tile(k) == b);
            }
        }
    }
    assert(last.fleet_sunk() <==> forall|i: int| 0 <= i < 4 ==> #[trigger] last.all_tiles_hit(last.ship(i))) by {
        if forall|i: int| 0 <= i < 4 ==> #[trigger] last.all_tiles_hit(last.ship(i)) {
            assert forall|i: int| 0 <= i < SHIP_COUNT implies last.all_tiles_hit(#[trigger] last.ship(i)) by {
                if i < 4 {
                    assert(last.all_tiles_hit(last.ship(i)));
                }
            }
        }
    }
}

} // verus!
