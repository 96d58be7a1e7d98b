//! The turn and combat state machine: from a decoded action, the acting
//! user and, for a shot, the coordinate text, to the ordered steps the
//! presentation layer carries out.

use vstd::prelude::*;
use crate::player::{PlayerState, fleet_valid, fleet_drawn};
use crate::game::{GameState, NextTurnInfo, shot_info};
use crate::action::{GameAction, GameActionKind, GameActionParseError, Coord, coord_of, token_action};

verus! {

/// Why the acting user may not act.
#[derive(Debug, Clone, Copy, PartialEq, Eq, Structural)]
pub enum AuthorizationError {
    /// The user plays this game, but it is the other player's turn.
    NotYourTurn,
    /// The user plays neither side of this game.
    NotInvolved,
}

/// Why a shot was not taken; the same player fires again.
#[derive(Debug, Clone, Copy, PartialEq, Eq, Structural)]
pub enum InvalidFireReason {
    /// The text names no cell of the board.
    InvalidCoord,
    /// The cell was fired upon before.
    AlreadyHit,
}

/// What the presentation layer shows.
#[derive(Debug, Clone, Copy)]
pub enum Screen {
    /// The message acted upon, with its buttons withdrawn.
    ButtonsRemoved,
    /// Both boards of the player to move, with a button to fire.
    FireBoard(GameState),
    /// The acting player's fleet, with buttons to confirm or redraw it.
    Placement(GameState),
    /// A call on the second player to place their fleet.
    NextPlace(GameState),
    /// A call on the first player to take the first shot.
    FirstTurn(GameState),
    /// A refused shot, with a button to fire again.
    InvalidFire(GameState, InvalidFireReason),
    /// The verdict on a shot; with `Sunk { loss: true, .. }` the game is
    /// over and the shooter, now `state.target()`, has won.
    NextTurn { state: GameState, tile: Coord, info: NextTurnInfo },
}

/// One outbound step, in the order in which they are to be delivered.
#[derive(Debug, Clone, Copy)]
pub enum Step {
    /// Answer the interaction by replacing the message it came from.
    Update(Screen),
    /// Answer the interaction with the form asking where to fire.
    AskCoordinate(GameState),
    /// Send a new message once the interaction is answered.
    FollowUp(Screen),
}

/// Why an interaction led to no steps.
#[derive(Debug, Clone, Copy, PartialEq, Eq, Structural)]
pub enum HandleError {
    /// The token could not be read.
    Token(GameActionParseError),
    /// The acting user may not act now.
    Unauthorized(AuthorizationError),
    /// The state the token carries breaks the game's invariants.
    Corrupted,
    /// Drawing a new fleet gave up.
    PlacementExhausted,
}

/// The authorization rule: only the player to move may act.
pub open spec fn authorization(s: GameState, actor: u64) -> Result<(), AuthorizationError> {
    if actor == s.current_side().user_id {
        Ok(())
    } else if actor == s.target_side().user_id {
        Err(AuthorizationError::NotYourTurn)
    } else {
        Err(AuthorizationError::NotInvolved)
    }
}

/// The checks every action passes first: a valid turn, then the
/// authorization rule, then a consistent state.
pub open spec fn gate(s: GameState, actor: u64) -> Result<(), HandleError> {
    if !s.turn.wf() {
        Err(HandleError::Corrupted)
    } else {
        match authorization(s, actor) {
            Err(e) => Err(HandleError::Unauthorized(e)),
            Ok(()) => if !s.wf() {
                Err(HandleError::Corrupted)
            } else {
                Ok(())
            },
        }
    }
}

/// The steps of a button press whose action does not draw a fleet.
pub open spec fn button_steps(s: GameState, kind: GameActionKind) -> Seq<Step> {
    match kind {
        GameActionKind::StartTurn => seq![
            Step::Update(Screen::ButtonsRemoved),
            Step::FollowUp(Screen::FireBoard(s)),
        ],
        GameActionKind::Fire => seq![Step::AskCoordinate(s)],
        GameActionKind::Place => seq![
            Step::Update(Screen::ButtonsRemoved),
            Step::FollowUp(Screen::Placement(s)),
        ],
        GameActionKind::ConfirmPlace => if s.turn.0 == 1 {
            seq![Step::Update(Screen::ButtonsRemoved), Step::FollowUp(Screen::NextPlace(s.swapped()))]
        } else {
            seq![Step::Update(Screen::ButtonsRemoved), Step::FollowUp(Screen::FirstTurn(s.swapped()))]
        },
        GameActionKind::RandomizePlace => seq![],
    }
}

/// `next` is `s` with the fleet of the player to move drawn anew: valid,
/// from draws in range, and all else as it was.
pub open spec fn redrawn(s: GameState, next: GameState) -> bool {
    exists|ships: [crate::ship::ShipState; 5]|
        fleet_valid(ships) && fleet_drawn(ships) && next == s.with_current(
            PlayerState { ships: ships, ..s.current_side() },
        )
}

/// The steps of a shot at the cell that `text` names.
pub open spec fn shot_steps(s: GameState, text: Seq<char>) -> Seq<Step> {
    match coord_of(text) {
        None => seq![
            Step::Update(Screen::ButtonsRemoved),
            Step::FollowUp(Screen::InvalidFire(s, InvalidFireReason::InvalidCoord)),
        ],
        Some(p) => if s.target_side().hits.has(p) {
            seq![
                Step::Update(Screen::ButtonsRemoved),
                Step::FollowUp(Screen::InvalidFire(s, InvalidFireReason::AlreadyHit)),
            ]
        } else {
            seq![
                Step::Update(Screen::ButtonsRemoved),
                Step::FollowUp(
                    Screen::NextTurn {
                        state: s.after_shot(p),
                        tile: Coord(p),
                        info: shot_info(s.target_hit(p), p),
                    },
                ),
            ]
        },
    }
}

/// The steps of a submitted coordinate form.
pub open spec fn form_outcome(a: GameAction, actor: u64, text: Seq<char>) -> Result<Seq<Step>, HandleError> {
    match gate(a.state, actor) {
        Err(e) => Err(e),
        Ok(()) => if a.kind == GameActionKind::Fire {
            Ok(shot_steps(a.state, text))
        } else {
            Ok(seq![])
        },
    }
}

/// The view of a result holding a vector of steps.
pub open spec fn steps_of(r: Result<Vec<Step>, HandleError>) -> Result<Seq<Step>, HandleError> {
    match r {
        Ok(v) => Ok(v@),
        Err(e) => Err(e),
    }
}

/// The outcome of a button press, up to the fleet a redraw produces.
pub open spec fn button_outcome_ok(
    a: GameAction,
    actor: u64,
    r: Result<Seq<Step>, HandleError>,
) -> bool {
    match gate(a.state, actor) {
        Err(e) => r == Err::<Seq<Step>, HandleError>(e),
        Ok(()) => if a.kind == GameActionKind::RandomizePlace {
            match r {
                Err(e) => e == HandleError::PlacementExhausted,
                Ok(steps) => exists|next: GameState|
                    redrawn(a.state, next) && next.wf() && steps == seq![
                        Step::Update(Screen::Placement(next)),
                    ],
            }
        } else {
            r == Ok::<Seq<Step>, HandleError>(button_steps(a.state, a.kind))
        },
    }
}

/// Applies the authorization rule.
pub fn authorize(state: &GameState, actor: u64) -> (r: Result<(), AuthorizationError>)
    requires
        state.turn.wf(),
    ensures
        r == authorization(*state, actor),
{
    let (current, target) = state.turns();
    if actor == current.user_id {
        Ok(())
    } else if actor == target.user_id {
        Err(AuthorizationError::NotYourTurn)
    } else {
        Err(AuthorizationError::NotInvolved)
    }
}

fn check_gate(state: &GameState, actor: u64) -> (r: Result<(), HandleError>)
    ensures
        r == gate(*state, actor),
{
    if state.turn.0 != 1 && state.turn.0 != 2 {
        return Err(HandleError::Corrupted);
    }
    match authorize(state, actor) {
        Err(e) => Err(HandleError::Unauthorized(e)),
        Ok(()) => if !state.is_valid() {
            Err(HandleError::Corrupted)
        } else {
            Ok(())
        },
    }
}

/// Resolves a button press on a message that carries `action`.
pub fn component_action(action: &GameAction, actor: u64) -> (r: Result<Vec<Step>, HandleError>)
    ensures
        button_outcome_ok(*action, actor, steps_of(r)),
{
    check_gate(&action.state, actor)?;
    let state = action.state;
    let mut steps: Vec<Step> = Vec::new();
    match action.kind {
        GameActionKind::StartTurn => {
            steps.push(Step::Update(Screen::ButtonsRemoved));
            steps.push(Step::FollowUp(Screen::FireBoard(state)));
        },
        GameActionKind::Fire => {
            steps.push(Step::AskCoordinate(state));
        },
        GameActionKind::Place => {
            steps.push(Step::Update(Screen::ButtonsRemoved));
            steps.push(Step::FollowUp(Screen::Placement(state)));
        },
        GameActionKind::RandomizePlace => {
            let mut next = state;
            let current = next.current_mut();
            if current.randomize_ships().is_err() {
                return Err(HandleError::PlacementExhausted);
            }
            assert(redrawn(state, next)) by {
                let ships = next.current_side().ships;
                assert(next == state.with_current(PlayerState { ships: ships, ..state.current_side() }));
            }
            steps.push(Step::Update(Screen::Placement(next)));
            assert(steps@ =~= seq![Step::Update(Screen::Placement(next))]);
            assert(next.wf());
            return Ok(steps);
        },
        GameActionKind::ConfirmPlace => {
            let mut next = state;
            let first = next.turn_num() == 1;
            next.swap_turn();
            steps.push(Step::Update(Screen::ButtonsRemoved));
            if first {
                steps.push(Step::FollowUp(Screen::NextPlace(next)));
            } else {
                steps.push(Step::FollowUp(Screen::FirstTurn(next)));
            }
        },
    }
    assert(steps@ =~= button_steps(state, action.kind));
    Ok(steps)
}

/// Resolves a submitted coordinate form on a message that carries
/// `action`: a shot at the cell that `text` names.
pub fn modal_action(action: &GameAction, actor: u64, text: &str) -> (r: Result<Vec<Step>, HandleError>)
    ensures
        steps_of(r) == form_outcome(*action, actor, text@),
{
    check_gate(&action.state, actor)?;
    let mut steps: Vec<Step> = Vec::new();
    if action.kind != GameActionKind::Fire {
        assert(steps@ =~= seq![]);
        return Ok(steps);
    }
    let state = action.state;
    steps.push(Step::Update(Screen::ButtonsRemoved));
    match Coord::from_str(text) {
        None => {
            steps.push(Step::FollowUp(Screen::InvalidFire(state, InvalidFireReason::InvalidCoord)));
        },
        Some(Coord(at)) => {
            let mut next = state;
            match next.fire(at) {
                None => {
                    steps.push(
                        Step::FollowUp(Screen::InvalidFire(state, InvalidFireReason::AlreadyHit)),
                    );
                },
                Some(info) => {
                    steps.push(Step::FollowUp(Screen::NextTurn { state: next, tile: Coord(at), info }));
                },
            }
        },
    }
    assert(steps@ =~= shot_steps(state, text@));
    Ok(steps)
}

/// Entry point for a button press: reads the token, then resolves it.
pub fn handle_component(token: &str, actor: u64) -> (r: Result<Vec<Step>, HandleError>)
    ensures
        match token_action(token@) {
            Err(e) => r == Err::<Vec<Step>, HandleError>(HandleError::Token(e)),
            Ok(a) => button_outcome_ok(a, actor, steps_of(r)),
        },
{
    match GameAction::from_id(token) {
        Err(e) => Err(HandleError::Token(e)),
        Ok(action) => component_action(&action, actor),
    }
}

/// Entry point for a submitted coordinate form: reads the token, then
/// resolves the shot.
pub fn handle_modal(token: &str, actor: u64, text: &str) -> (r: Result<Vec<Step>, HandleError>)
    ensures
        match token_action(token@) {
            Err(e) => r == Err::<Vec<Step>, HandleError>(HandleError::Token(e)),
            Ok(a) => steps_of(r) == form_outcome(a, actor, text@),
        },
{
    match GameAction::from_id(token) {
        Err(e) => Err(HandleError::Token(e)),
        Ok(action) => modal_action(&action, actor, text),
    }
}

/// Whatever the kind of action, a user who plays neither side is turned
/// away as not involved, by a button press and by a submitted form alike.
pub proof fn lemma_outsider_not_involved(
    a: GameAction,
    actor: u64,
    text: Seq<char>,
    r: Result<Seq<Step>, HandleError>,
)
    requires
        a.state.turn.wf(),
        actor != a.state.current_side().user_id,
        actor != a.state.target_side().user_id,
    ensures
        button_outcome_ok(a, actor, r) <==> r == Err::<Seq<Step>, HandleError>(
            HandleError::Unauthorized(AuthorizationError::NotInvolved),
        ),
        form_outcome(a, actor, text) == Err::<Seq<Step>, HandleError>(
            HandleError::Unauthorized(AuthorizationError::NotInvolved),
        ),
{
}

/// A shot at a cell fired upon before leaves the state as it was and is
/// refused as already hit, so that the same player fires again.
pub proof fn lemma_repeat_shot_refused(a: GameAction, actor: u64, text: Seq<char>)
    requires
        gate(a.state, actor) is Ok,
        a.kind == GameActionKind::Fire,
        coord_of(text) matches Some(p) && a.state.target_side().hits.has(p),
    ensures
        form_outcome(a, actor, text) == Ok::<Seq<Step>, HandleError>(
            seq![
                Step::Update(Screen::ButtonsRemoved),
                Step::FollowUp(Screen::InvalidFire(a.state, InvalidFireReason::AlreadyHit)),
            ],
        ),
{
}

} // verus!
