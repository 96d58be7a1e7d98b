use battleships::action::{Coord, GameAction, GameActionKind, GameActionParseError, parse_game_state};
use battleships::codec::Encode;
use battleships::engine::{
    AuthorizationError, HandleError, InvalidFireReason, Screen, Step, component_action, handle_component,
    handle_modal, modal_action, authorize,
};
use battleships::game::{GameState, NextTurnInfo, Turn};
use battleships::grid::{Rotation, Vec2};
use battleships::hits::HitMatrix;
use battleships::player::PlayerState;
use battleships::render::{RenderTarget, FLAG_HIT, FLAG_NONE, FLAG_SHIP, FLAG_SHIP_END, FLAG_SHIP_START, FLAG_SUNK};
use battleships::ship::ShipState;
use battleships::start::{FailStartReason, challenged_user, check_players, start_game};

fn fleet() -> [ShipState; 5] {
    [
        ShipState::new(Vec2::new(0, 0), Rotation::Horizontal),
        ShipState::new(Vec2::new(0, 2), Rotation::Horizontal),
        ShipState::new(Vec2::new(0, 6), Rotation::Horizontal),
        ShipState::new(Vec2::new(6, 6), Rotation::Horizontal),
        ShipState::new(Vec2::new(3, 4), Rotation::Horizontal),
    ]
}

fn game() -> GameState {
    GameState {
        player_1: PlayerState { user_id: 11, hits: HitMatrix::new(), ships: fleet() },
        player_2: PlayerState { user_id: 22, hits: HitMatrix::new(), ships: fleet() },
        turn: Turn(1),
    }
}

fn token(kind: GameActionKind, state: GameState) -> String {
    GameAction::new(kind, state).to_id()
}

const ALL_KINDS: [GameActionKind; 5] = [
    GameActionKind::StartTurn,
    GameActionKind::Fire,
    GameActionKind::Place,
    GameActionKind::RandomizePlace,
    GameActionKind::ConfirmPlace,
];

#[test]
fn coordinate_b4() {
    assert_eq!(Coord::from_str("B4"), Some(Coord(Vec2::new(1, 3))));
}

#[test]
fn coordinate_rejects_k1_and_b0() {
    assert_eq!(Coord::from_str("K1"), None);
    assert_eq!(Coord::from_str("B0"), None);
}

#[test]
fn coordinate_edges() {
    assert_eq!(Coord::from_str("A1"), Some(Coord(Vec2::new(0, 0))));
    assert_eq!(Coord::from_str("J10"), Some(Coord(Vec2::new(9, 9))));
    assert_eq!(Coord::from_str("j10"), Some(Coord(Vec2::new(9, 9))));
    assert_eq!(Coord::from_str("b4"), Some(Coord(Vec2::new(1, 3))));
    assert_eq!(Coord::from_str("A11"), None);
    assert_eq!(Coord::from_str("B"), None);
    assert_eq!(Coord::from_str(""), None);
    assert_eq!(Coord::from_str("B4x"), None);
    assert_eq!(Coord::from_str("B100"), None);
    assert_eq!(Coord::from_str("B+4"), None);
    assert_eq!(Coord::from_str("4B"), None);
    assert_eq!(Coord::from_str("é4"), None);
}

#[test]
fn kind_characters_are_stable() {
    let chars: String = ALL_KINDS.iter().map(|k| k.to_char()).collect();
    assert_eq!(chars, "TFPRC");
    for k in ALL_KINDS {
        assert_eq!(GameActionKind::from_char(k.to_char()), Ok(k));
    }
    assert_eq!(GameActionKind::from_char('X'), Err(GameActionParseError::UnknownAction));
}

#[test]
fn token_of_zero_state() {
    let zero = GameState::try_decode(&[0u8; 59]).unwrap();
    let id = token(GameActionKind::StartTurn, zero);
    assert_eq!(id, format!("#bs#T{}", "A".repeat(79)));
}

#[test]
fn token_uses_url_safe_alphabet() {
    let ones = GameState::try_decode(&[0xffu8; 59]).unwrap();
    let id = token(GameActionKind::Fire, ones);
    assert_eq!(id, format!("#bs#F{}8", "_".repeat(78)));
}

#[test]
fn token_round_trip() {
    let g = GameState::new(77, 88).unwrap();
    for k in ALL_KINDS {
        let id = token(k, g);
        assert_eq!(id.len(), 84);
        let back = GameAction::from_id(&id).unwrap();
        assert_eq!(back.kind, k);
        assert_eq!(back.state.encode(), g.encode());
    }
}

#[test]
fn token_errors() {
    assert_eq!(GameAction::from_id("hello").unwrap_err(), GameActionParseError::NotBattleshipId);
    assert_eq!(GameAction::from_id("").unwrap_err(), GameActionParseError::NotBattleshipId);
    assert_eq!(GameAction::from_id("#bs").unwrap_err(), GameActionParseError::NotBattleshipId);
    assert_eq!(GameAction::from_id("#bs#").unwrap_err(), GameActionParseError::NoData);
    assert_eq!(GameAction::from_id("#bs#Z").unwrap_err(), GameActionParseError::UnknownAction);
    assert_eq!(GameAction::from_id("#bs#T").unwrap_err(), GameActionParseError::InvalidData);
    assert_eq!(GameAction::from_id("#bs#T!!!!").unwrap_err(), GameActionParseError::InvalidData);
    let short = format!("#bs#T{}", "A".repeat(78));
    assert_eq!(GameAction::from_id(&short).unwrap_err(), GameActionParseError::InvalidData);
    let long = format!("#bs#T{}", "A".repeat(80));
    assert_eq!(GameAction::from_id(&long).unwrap_err(), GameActionParseError::InvalidData);
    let padded = format!("#bs#T{}=", "A".repeat(79));
    assert_eq!(GameAction::from_id(&padded).unwrap_err(), GameActionParseError::InvalidData);
    let good = format!("#bs#T{}", "A".repeat(79));
    assert!(GameAction::from_id(&good).is_ok());
}

#[test]
fn payload_parsing() {
    assert!(parse_game_state(&"A".repeat(79)).is_ok());
    assert_eq!(parse_game_state("AAAA").unwrap_err(), GameActionParseError::InvalidData);
}

#[test]
fn authorization_rule() {
    let g = game();
    assert_eq!(authorize(&g, 11), Ok(()));
    assert_eq!(authorize(&g, 22), Err(AuthorizationError::NotYourTurn));
    assert_eq!(authorize(&g, 33), Err(AuthorizationError::NotInvolved));
}

#[test]
fn outsider_is_not_involved_for_every_kind() {
    let g = game();
    for k in ALL_KINDS {
        let r = handle_component(&token(k, g), 999);
        assert!(matches!(r, Err(HandleError::Unauthorized(AuthorizationError::NotInvolved))));
        let r = handle_modal(&token(k, g), 999, "B4");
        assert!(matches!(r, Err(HandleError::Unauthorized(AuthorizationError::NotInvolved))));
    }
}

#[test]
fn waiting_player_is_told_not_your_turn() {
    let g = game();
    for k in ALL_KINDS {
        let r = component_action(&GameAction::new(k, g), 22);
        assert!(matches!(r, Err(HandleError::Unauthorized(AuthorizationError::NotYourTurn))));
    }
    let r = modal_action(&GameAction::new(GameActionKind::Fire, g), 22, "B4");
    assert!(matches!(r, Err(HandleError::Unauthorized(AuthorizationError::NotYourTurn))));
}

#[test]
fn bad_token_is_reported() {
    let r = handle_component("nope", 11);
    assert!(matches!(r, Err(HandleError::Token(GameActionParseError::NotBattleshipId))));
    let r = handle_modal("#bs#Q", 11, "B4");
    assert!(matches!(r, Err(HandleError::Token(GameActionParseError::UnknownAction))));
}

#[test]
fn corrupted_state_is_refused() {
    let mut g = game();
    g.turn = Turn(0);
    let r = component_action(&GameAction::new(GameActionKind::StartTurn, g), 11);
    assert!(matches!(r, Err(HandleError::Corrupted)));
    let mut g = game();
    g.player_2.ships[0] = ShipState(127);
    let r = modal_action(&GameAction::new(GameActionKind::Fire, g), 11, "A1");
    assert!(matches!(r, Err(HandleError::Corrupted)));
}

#[test]
fn start_turn_retracts_then_shows_board() {
    let g = game();
    let steps = handle_component(&token(GameActionKind::StartTurn, g), 11).unwrap();
    assert_eq!(steps.len(), 2);
    assert!(matches!(steps[0], Step::Update(Screen::ButtonsRemoved)));
    match steps[1] {
        Step::FollowUp(Screen::FireBoard(s)) => assert_eq!(s.encode(), g.encode()),
        _ => panic!("unexpected step"),
    }
}

#[test]
fn fire_button_asks_for_coordinate() {
    let g = game();
    let steps = handle_component(&token(GameActionKind::Fire, g), 11).unwrap();
    assert_eq!(steps.len(), 1);
    assert!(matches!(steps[0], Step::AskCoordinate(s) if s.encode() == g.encode()));
}

#[test]
fn place_shows_fleet() {
    let g = game();
    let steps = component_action(&GameAction::new(GameActionKind::Place, g), 11).unwrap();
    assert_eq!(steps.len(), 2);
    assert!(matches!(steps[0], Step::Update(Screen::ButtonsRemoved)));
    assert!(matches!(steps[1], Step::FollowUp(Screen::Placement(s)) if s.encode() == g.encode()));
}

#[test]
fn randomize_redraws_current_fleet_only() {
    let g = game();
    let steps = component_action(&GameAction::new(GameActionKind::RandomizePlace, g), 11).unwrap();
    assert_eq!(steps.len(), 1);
    match steps[0] {
        Step::Update(Screen::Placement(s)) => {
            assert!(s.is_valid());
            assert_eq!(s.turn, Turn(1));
            assert_eq!(s.player_1.user_id, 11);
            assert_eq!(s.player_2.encode(), g.player_2.encode());
        }
        _ => panic!("unexpected step"),
    }
}

#[test]
fn confirm_place_moves_through_both_players() {
    let g = game();
    let steps = component_action(&GameAction::new(GameActionKind::ConfirmPlace, g), 11).unwrap();
    assert!(matches!(steps[0], Step::Update(Screen::ButtonsRemoved)));
    let next = match steps[1] {
        Step::FollowUp(Screen::NextPlace(s)) => s,
        _ => panic!("unexpected step"),
    };
    assert_eq!(next.turn, Turn(2));
    let steps = component_action(&GameAction::new(GameActionKind::ConfirmPlace, next), 22).unwrap();
    match steps[1] {
        Step::FollowUp(Screen::FirstTurn(s)) => assert_eq!(s.turn, Turn(1)),
        _ => panic!("unexpected step"),
    }
}

#[test]
fn shot_with_invalid_coordinate_keeps_turn() {
    let g = game();
    let steps = handle_modal(&token(GameActionKind::Fire, g), 11, "Z9").unwrap();
    assert_eq!(steps.len(), 2);
    assert!(matches!(steps[0], Step::Update(Screen::ButtonsRemoved)));
    match steps[1] {
        Step::FollowUp(Screen::InvalidFire(s, InvalidFireReason::InvalidCoord)) => assert_eq!(s.encode(), g.encode()),
        _ => panic!("unexpected step"),
    }
}

#[test]
fn shot_at_hit_cell_is_refused() {
    let mut g = game();
    g.player_2.hits.set(Vec2::new(1, 3));
    let steps = handle_modal(&token(GameActionKind::Fire, g), 11, "B4").unwrap();
    match steps[1] {
        Step::FollowUp(Screen::InvalidFire(s, InvalidFireReason::AlreadyHit)) => assert_eq!(s.encode(), g.encode()),
        _ => panic!("unexpected step"),
    }
}

#[test]
fn shot_resolves_and_passes_turn() {
    let g = game();
    let steps = handle_modal(&token(GameActionKind::Fire, g), 11, "D5").unwrap();
    assert_eq!(steps.len(), 2);
    match steps[1] {
        Step::FollowUp(Screen::NextTurn { state, tile, info }) => {
            assert_eq!(tile, Coord(Vec2::new(3, 4)));
            assert_eq!(info, NextTurnInfo::Hit);
            assert_eq!(state.turn, Turn(2));
            assert!(state.player_2.hits.get(Vec2::new(3, 4)));
        }
        _ => panic!("unexpected step"),
    }
}

#[test]
fn form_of_other_kind_does_nothing() {
    let g = game();
    let steps = handle_modal(&token(GameActionKind::Place, g), 11, "B4").unwrap();
    assert!(steps.is_empty());
}

#[test]
fn players_must_differ_and_be_human() {
    assert_eq!(check_players(1, false, 1, false), Err(FailStartReason::Same));
    assert_eq!(check_players(1, true, 2, false), Err(FailStartReason::Bot(1)));
    assert_eq!(check_players(1, false, 2, true), Err(FailStartReason::Bot(2)));
    assert_eq!(check_players(1, false, 2, false), Ok(()));
    assert!(matches!(start_game(3, false, 3, false), Err(FailStartReason::Same)));
    let g = start_game(3, false, 4, false).unwrap();
    assert!(g.is_valid());
    assert_eq!(g.turn_num(), 1);
}

#[test]
fn challenged_user_is_the_single_other_mention() {
    assert_eq!(challenged_user(&vec![100, 7], 100), Some(7));
    assert_eq!(challenged_user(&vec![7, 100, 7], 100), None);
    assert_eq!(challenged_user(&vec![100], 100), None);
    assert_eq!(challenged_user(&vec![7, 8, 100], 100), None);
    assert_eq!(challenged_user(&vec![], 100), None);
}

#[test]
fn render_flags_of_board() {
    let mut p = PlayerState { user_id: 1, hits: HitMatrix::new(), ships: fleet() };
    p.hits.set(Vec2::new(3, 4));
    p.hits.set(Vec2::new(4, 4));
    p.hits.set(Vec2::new(0, 2));
    p.hits.set(Vec2::new(9, 9));
    let mut t = RenderTarget::new();
    assert_eq!(t.field(Vec2::new(3, 4)), FLAG_NONE);
    t.set_all_fields(&p);
    assert_eq!(t.field(Vec2::new(3, 4)), FLAG_HIT | FLAG_SHIP | FLAG_SHIP_START | FLAG_SUNK);
    assert_eq!(t.field(Vec2::new(4, 4)), FLAG_HIT | FLAG_SHIP | FLAG_SHIP_END | FLAG_SUNK);
    assert_eq!(t.field(Vec2::new(0, 2)), FLAG_HIT | FLAG_SHIP | FLAG_SHIP_START);
    assert_eq!(t.field(Vec2::new(1, 2)), FLAG_SHIP);
    assert_eq!(t.field(Vec2::new(3, 2)), FLAG_SHIP | FLAG_SHIP_END);
    assert_eq!(t.field(Vec2::new(9, 9)), FLAG_HIT);
    assert_eq!(t.field(Vec2::new(5, 5)), FLAG_NONE);
    let mut hits_only = RenderTarget::new();
    hits_only.set_hits(&p);
    assert_eq!(hits_only.field(Vec2::new(3, 4)), FLAG_HIT);
    let mut ships_only = RenderTarget::new();
    ships_only.set_ships(&p);
    assert_eq!(ships_only.field(Vec2::new(9, 9)), FLAG_NONE);
    assert_eq!(ships_only.field(Vec2::new(2, 0)), FLAG_SHIP);
}
