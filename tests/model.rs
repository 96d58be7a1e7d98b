use battleships::codec::Encode;
use battleships::game::{GameState, NextTurnInfo, Turn};
use battleships::grid::{Rotation, Vec2};
use battleships::hits::HitMatrix;
use battleships::player::{candidate, draw_ranges, has_overlaps, place_step, PlaceStep, PlayerState, MAX_ATTEMPTS};
use battleships::ship::{Ship, ShipInfo, ShipState};

fn fleet() -> [ShipState; 5] {
    [
        ShipState::new(Vec2::new(0, 0), Rotation::Horizontal),
        ShipState::new(Vec2::new(0, 2), Rotation::Horizontal),
        ShipState::new(Vec2::new(0, 6), Rotation::Horizontal),
        ShipState::new(Vec2::new(6, 6), Rotation::Horizontal),
        ShipState::new(Vec2::new(3, 4), Rotation::Horizontal),
    ]
}

fn side(user_id: u64) -> PlayerState {
    PlayerState { user_id, hits: HitMatrix::new(), ships: fleet() }
}

fn game() -> GameState {
    GameState { player_1: side(11), player_2: side(22), turn: Turn(1) }
}

#[test]
fn hit_matrix_set_then_get() {
    let mut m = HitMatrix::new();
    assert!(!m.get(Vec2::new(3, 4)));
    m.set(Vec2::new(3, 4));
    assert!(m.get(Vec2::new(3, 4)));
    for x in 0..10 {
        for y in 0..10 {
            if (x, y) != (3, 4) {
                assert!(!m.get(Vec2::new(x, y)));
            }
        }
    }
    assert_eq!(m.0, 1u128 << 43);
}

#[test]
fn hit_matrix_corners_and_unset() {
    let mut m = HitMatrix::new();
    m.set(Vec2::new(0, 0));
    m.set(Vec2::new(9, 9));
    assert_eq!(m.0, 1u128 | (1u128 << 99));
    m.unset(Vec2::new(0, 0));
    assert!(!m.get(Vec2::new(0, 0)));
    assert!(m.get(Vec2::new(9, 9)));
    m.set(Vec2::new(9, 9));
    assert_eq!(m.0, 1u128 << 99);
}

#[test]
fn turn_flip_is_involution() {
    let mut g = game();
    g.swap_turn();
    assert_eq!(g.turn_num(), 2);
    g.swap_turn();
    assert_eq!(g.turn_num(), 1);
    assert_eq!(Turn(1).flipped(), Turn(2));
    assert_eq!(Turn(2).flipped().flipped(), Turn(2));
}

#[test]
fn current_and_target_follow_turn() {
    let mut g = game();
    assert_eq!(g.current_turn().user_id, 11);
    assert_eq!(g.target().user_id, 22);
    g.swap_turn();
    let (cur, tgt) = g.turns();
    assert_eq!(cur.user_id, 22);
    assert_eq!(tgt.user_id, 11);
    g.target_mut().user_id = 33;
    assert_eq!(g.player_1.user_id, 33);
    g.current_mut().user_id = 44;
    assert_eq!(g.player_2.user_id, 44);
}

#[test]
fn packed_ship_bytes() {
    let h = ShipState::new(Vec2::new(3, 4), Rotation::Horizontal);
    assert_eq!(h.0, 3 * 9 + 4);
    assert_eq!(h.position(), Vec2::new(3, 4));
    assert_eq!(h.rotation(), Rotation::Horizontal);
    let v = ShipState::new(Vec2::new(2, 5), Rotation::Vertical);
    assert_eq!(v.0, (2 + 5 * 9) | 0x80);
    assert_eq!(v.position(), Vec2::new(2, 5));
    assert_eq!(v.rotation(), Rotation::Vertical);
}

#[test]
fn packed_anchor_carries_over_the_nine_wide_line() {
    let h = ShipState::new(Vec2::new(2, 9), Rotation::Horizontal);
    assert_eq!(h.position(), Vec2::new(3, 0));
    let v = ShipState::new(Vec2::new(9, 2), Rotation::Vertical);
    assert_eq!(v.position(), Vec2::new(0, 3));
}

#[test]
fn destroyer_tiles_and_bounds() {
    let ship = Ship { info: ShipInfo::at(4), state: ShipState::new(Vec2::new(3, 4), Rotation::Horizontal) };
    assert_eq!(ship.info.len, 2);
    assert_eq!(ship.info.label, "Destroyer");
    assert_eq!(ship.tiles(), vec![Vec2::new(3, 4), Vec2::new(4, 4)]);
    assert_eq!(ship.bounds(), (Vec2::new(3, 4), Vec2::new(4, 4)));
    let carrier = Ship { info: ShipInfo::at(0), state: ShipState::new(Vec2::new(1, 2), Rotation::Vertical) };
    assert_eq!(carrier.info.label, "Carrier");
    assert_eq!(carrier.bounds(), (Vec2::new(1, 2), Vec2::new(1, 6)));
    assert_eq!(carrier.tiles().len(), 5);
    assert_eq!(carrier.tiles()[4], Vec2::new(1, 6));
}

#[test]
fn roster_lengths() {
    let lens: Vec<u8> = (0..5).map(|i| ShipInfo::at(i).len).collect();
    assert_eq!(lens, vec![5, 4, 3, 3, 2]);
    let labels: Vec<&str> = (0..5).map(|i| ShipInfo::at(i).label).collect();
    assert_eq!(labels, vec!["Carrier", "Battleship", "Cruiser", "Submarine", "Destroyer"]);
}

#[test]
fn overlap_finds_covering_ship() {
    let p = side(1);
    let s = p.overlap(Vec2::new(4, 4)).unwrap();
    assert_eq!(s.info.index, 4);
    let s = p.overlap(Vec2::new(2, 0)).unwrap();
    assert_eq!(s.info.index, 0);
    assert!(p.overlap(Vec2::new(5, 4)).is_none());
    assert!(p.overlap(Vec2::new(9, 9)).is_none());
    assert_eq!(p.ships()[3].bounds(), (Vec2::new(6, 6), Vec2::new(8, 6)));
}

#[test]
fn sunk_iff_all_tiles_hit() {
    let mut p = side(1);
    let destroyer = p.ships()[4];
    assert!(!p.is_sunk(&destroyer));
    p.hits.set(Vec2::new(3, 4));
    assert!(!p.is_sunk(&destroyer));
    p.hits.set(Vec2::new(4, 4));
    assert!(p.is_sunk(&destroyer));
    assert!(!p.are_all_ships_sunk());
}

#[test]
fn fresh_player_fleet_is_valid() {
    for _ in 0..50 {
        let p = PlayerState::new(5).unwrap();
        assert_eq!(p.user_id, 5);
        assert_eq!(p.hits.0, 0);
        assert!(p.is_valid());
        let ships = p.ships();
        for i in 0..5 {
            let (l, r) = ships[i].bounds();
            assert!(l.x < 10 && l.y < 10 && r.x < 10 && r.y < 10);
            for j in 0..i {
                let (a, b) = ships[j].bounds();
                let overlap = l.x <= b.x && a.x <= r.x && l.y <= b.y && a.y <= r.y;
                assert!(!overlap);
            }
        }
    }
}

#[test]
fn randomize_keeps_identity_and_hits() {
    let mut p = side(9);
    p.hits.set(Vec2::new(1, 1));
    p.randomize_ships().unwrap();
    assert_eq!(p.user_id, 9);
    assert!(p.hits.get(Vec2::new(1, 1)));
    assert!(p.is_valid());
}

#[test]
fn new_game_is_valid() {
    let g = GameState::new(1, 2).unwrap();
    assert!(g.is_valid());
    assert_eq!(g.turn_num(), 1);
    assert_eq!(g.player_1.user_id, 1);
    assert_eq!(g.player_2.user_id, 2);
    assert_eq!(g.winner(), None);
}

#[test]
fn validity_detects_corruption() {
    let mut g = game();
    assert!(g.is_valid());
    g.turn = Turn(3);
    assert!(!g.is_valid());
    let mut g = game();
    g.player_2.ships[1] = ShipState::new(Vec2::new(3, 0), Rotation::Horizontal);
    assert!(!g.is_valid());
    let mut g = game();
    g.player_1.ships[0] = ShipState(127);
    assert!(!g.is_valid());
    let mut g = game();
    g.player_1.hits = HitMatrix(1u128 << 100);
    assert!(!g.is_valid());
}

fn sink_all_but_destroyer(p: &mut PlayerState) {
    let ships = p.ships();
    for s in ships.iter().take(4) {
        for t in s.tiles() {
            p.hits.set(t);
        }
    }
}

#[test]
fn destroyer_hit_then_sunk_ends_game() {
    let mut g = game();
    sink_all_but_destroyer(&mut g.player_2);
    assert_eq!(g.fire(Vec2::new(3, 4)), Some(NextTurnInfo::Hit));
    assert_eq!(g.turn_num(), 2);
    assert_eq!(g.fire(Vec2::new(9, 9)), Some(NextTurnInfo::Miss));
    assert_eq!(g.turn_num(), 1);
    assert_eq!(g.fire(Vec2::new(4, 4)), Some(NextTurnInfo::Sunk { ship: 4, loss: true }));
    assert_eq!(g.winner(), Some(11));
}

#[test]
fn sinking_one_ship_is_no_loss() {
    let mut g = game();
    assert_eq!(g.fire(Vec2::new(3, 4)), Some(NextTurnInfo::Hit));
    g.swap_turn();
    assert_eq!(g.fire(Vec2::new(4, 4)), Some(NextTurnInfo::Sunk { ship: 4, loss: false }));
    assert_eq!(g.winner(), None);
}

#[test]
fn firing_twice_at_a_cell_changes_nothing() {
    let mut g = game();
    assert_eq!(g.fire(Vec2::new(7, 7)), Some(NextTurnInfo::Miss));
    g.swap_turn();
    let before = g.encode();
    assert_eq!(g.fire(Vec2::new(7, 7)), None);
    assert_eq!(g.encode(), before);
    assert_eq!(g.turn_num(), 1);
}

#[test]
fn encoding_layout() {
    let mut g = game();
    g.player_1.user_id = 0x0102030405060708;
    g.player_1.hits.set(Vec2::new(0, 0));
    let bytes = g.encode();
    assert_eq!(bytes.len(), 59);
    assert_eq!(&bytes[0..8], &[1, 2, 3, 4, 5, 6, 7, 8]);
    assert_eq!(&bytes[8..24], &[0, 0, 0, 0, 0, 0, 0, 0, 0, 0, 0, 0, 0, 0, 0, 1]);
    assert_eq!(&bytes[24..29], &[0, 2, 6, 60, 31]);
    assert_eq!(&bytes[29..37], &[0, 0, 0, 0, 0, 0, 0, 22]);
    assert_eq!(bytes[58], 1);
}

#[test]
fn decode_encode_round_trip() {
    let mut g = GameState::new(123456789, 987654321).unwrap();
    g.player_2.hits.set(Vec2::new(5, 5));
    g.swap_turn();
    let bytes = g.encode();
    let back = GameState::try_decode(&bytes).unwrap();
    assert_eq!(back.encode(), bytes);
    assert_eq!(back.player_1.user_id, 123456789);
    assert_eq!(back.player_2.user_id, 987654321);
    assert_eq!(back.player_2.hits, g.player_2.hits);
    assert_eq!(back.player_1.ships, g.player_1.ships);
    assert_eq!(back.turn, Turn(2));
}

#[test]
fn decode_checks_length_only() {
    assert!(GameState::try_decode(&[0u8; 58]).is_none());
    assert!(GameState::try_decode(&[0u8; 60]).is_none());
    assert!(GameState::try_decode(&[]).is_none());
    let any = GameState::try_decode(&[0xffu8; 59]).unwrap();
    assert_eq!(any.player_1.user_id, u64::MAX);
    assert_eq!(any.turn, Turn(0xff));
    assert!(!any.is_valid());
    assert!(PlayerState::try_decode(&[0u8; 28]).is_none());
    let p = PlayerState::try_decode(&[7u8; 29]).unwrap();
    assert_eq!(p.encode(), vec![7u8; 29]);
}

#[test]
fn candidate_from_draws() {
    assert_eq!(candidate(4, true, 3, 4), ShipState(31));
    let v = candidate(0, false, 2, 9);
    assert_eq!(v, ShipState((9 + 2 * 9) | 0x80));
    assert_eq!(v.position(), Vec2::new(0, 3));
    assert_eq!(v.rotation(), Rotation::Vertical);
}

#[test]
fn overlaps_with_earlier_ships() {
    let mut ships = fleet();
    for i in 0..5 {
        assert!(!has_overlaps(&ships, i));
    }
    ships[2] = ShipState::new(Vec2::new(1, 0), Rotation::Vertical);
    assert!(has_overlaps(&ships, 2));
    ships[2] = ShipState::new(Vec2::new(4, 2), Rotation::Vertical);
    assert!(!has_overlaps(&ships, 2));
    assert!(has_overlaps(&ships, 4));
}

#[test]
fn draw_ranges_follow_ship_length() {
    assert_eq!(draw_ranges(0), (5, 10));
    assert_eq!(draw_ranges(1), (6, 10));
    assert_eq!(draw_ranges(3), (7, 10));
    assert_eq!(draw_ranges(4), (8, 10));
}

#[test]
fn place_step_accepts_retries_and_gives_up() {
    let mut ships = fleet();
    ships[4] = ShipState(0);
    assert_eq!(place_step(&mut ships, 4, 0, true, 0, 0), PlaceStep::Retry);
    assert_eq!(ships[4], ShipState(0));
    assert_eq!(place_step(&mut ships, 4, MAX_ATTEMPTS - 1, true, 0, 0), PlaceStep::Exhausted);
    assert_eq!(place_step(&mut ships, 4, 0, true, 3, 4), PlaceStep::Placed);
    assert_eq!(ships[4], ShipState(31));
    assert_eq!(place_step(&mut ships, 0, MAX_ATTEMPTS - 1, false, 4, 9), PlaceStep::Placed);
    assert_eq!(ships[0], ShipState((9 + 4 * 9) | 0x80));
}

#[test]
fn default_hit_matrix_is_empty() {
    let m: HitMatrix = Default::default();
    assert_eq!(m, HitMatrix(0));
}
