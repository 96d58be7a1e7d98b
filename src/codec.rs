//! Fixed-width binary form of the game state: 29 bytes per side (user id
//! as 8 big-endian bytes, hit matrix as 16 big-endian bytes, one byte per
//! ship in roster order), then one byte for the turn: 59 bytes in all.

use vstd::prelude::*;
use crate::hits::HitMatrix;
use crate::ship::ShipState;
use crate::player::PlayerState;
use crate::game::{GameState, Turn};

verus! {

/// Length of one side's record.
pub const PLAYER_BYTES: usize = 29;

/// Length of a whole game state.
pub const STATE_BYTES: usize = 59;

/// Conversion between a value and a fixed-width byte form.
pub trait Encode: Sized {
    /// The bytes `encode` produces.
    spec fn encoding(&self) -> Seq<u8>;

    /// What `try_decode` makes of `data`.
    spec fn decoding(data: Seq<u8>) -> Option<Self>;

    fn encode(&self) -> (r: Vec<u8>)
        ensures
            r@ == self.encoding(),
    ;

    fn try_decode(data: &[u8]) -> (r: Option<Self>)
        ensures
            r == Self::decoding(data@),
    ;
}

/// `256` to the power `n`.
pub open spec fn byte_pow(n: nat) -> nat
    decreases n,
{
    if n == 0 {
        1
    } else {
        256 * byte_pow((n - 1) as nat)
    }
}

/// The `n` low-order base-256 digits of `v`, most significant first.
pub open spec fn be_bytes(v: nat, n: nat) -> Seq<u8>
    decreases n,
{
    if n == 0 {
        Seq::empty()
    } else {
        be_bytes(v / 256, (n - 1) as nat).push((v % 256) as u8)
    }
}

/// The number whose base-256 digits, most significant first, are `s`.
pub open spec fn be_value(s: Seq<u8>) -> nat
    decreases s.len(),
{
    if s.len() == 0 {
        0
    } else {
        (be_value(s.drop_last()) * 256 + s.last()) as nat
    }
}

proof fn lemma_byte_pow_monotonic(i: nat, j: nat)
    requires
        i <= j,
    ensures
        1 <= byte_pow(i) <= byte_pow(j),
    decreases j,
{
    if j > 0 {
        if i < j {
            lemma_byte_pow_monotonic(i, (j - 1) as nat);
        } else {
            lemma_byte_pow_monotonic(0, (j - 1) as nat);
        }
    }
}

proof fn lemma_byte_pow_values()
    ensures
        byte_pow(8) == 0x1_0000_0000_0000_0000,
        byte_pow(16) == 0x1_0000_0000_0000_0000_0000_0000_0000_0000,
{
    reveal_with_fuel(byte_pow, 17);
}

/// Digits of a number below `256^n` read back as the number.
proof fn lemma_be_round_trip(v: nat, n: nat)
    requires
        v < byte_pow(n),
    ensures
        be_bytes(v, n).len() == n,
        be_value(be_bytes(v, n)) == v,
    decreases n,
{
    if n > 0 {
        let q = v / 256;
        let r = v % 256;
        vstd::arithmetic::div_mod::lemma_fundamental_div_mod(v as int, 256);
        assert(q < byte_pow((n - 1) as nat)) by (nonlinear_arith)
            requires
                v < 256 * byte_pow((n - 1) as nat),
                q == v / 256,
        ;
        lemma_be_round_trip(q, (n - 1) as nat);
        assert(be_bytes(v, n).drop_last() =~= be_bytes(q, (n - 1) as nat));
    }
}

/// A digit string reads as a number below `256^len` whose digits are the
/// string again.
proof fn lemma_be_value_round_trip(s: Seq<u8>)
    ensures
        be_value(s) < byte_pow(s.len()),
        be_bytes(be_value(s), s.len()) == s,
    decreases s.len(),
{
    if s.len() > 0 {
        let t = s.drop_last();
        lemma_be_value_round_trip(t);
        let q = be_value(t);
        let r = s.last() as nat;
        assert((q * 256 + r) / 256 == q && (q * 256 + r) % 256 == r) by (nonlinear_arith)
            requires
                r < 256,
        ;
        assert(q * 256 + r < 256 * byte_pow(t.len())) by (nonlinear_arith)
            requires
                q < byte_pow(t.len()),
                r < 256,
        ;
        assert(be_bytes(be_value(s), s.len()) =~= t.push(s.last()));
    }
}

/// Appends the `n` low-order big-endian bytes of `v`.
fn push_be(out: &mut Vec<u8>, v: u128, n: usize)
    requires
        n <= 16,
    ensures
        final(out)@ == old(out)@ + be_bytes(v as nat, n as nat),
    decreases n,
{
    if n == 0 {
        assert(old(out)@ + be_bytes(v as nat, 0) =~= old(out)@);
        return;
    }
    push_be(out, v / 256, n - 1);
    out.push((v % 256) as u8);
    assert(out@ =~= old(out)@ + be_bytes(v as nat, n as nat));
}

/// Reads `n` big-endian bytes of `data` starting at `start`.
fn read_be(data: &[u8], start: usize, n: usize) -> (r: u128)
    requires
        n <= 16,
        start + n <= data@.len(),
    ensures
        r == be_value(data@.subrange(start as int, start + n)),
{
    let mut acc: u128 = 0;
    let mut i: usize = 0;
    while i < n
        invariant
            n <= 16,
            start + n <= data.len(),
            i <= n,
            acc == be_value(data@.subrange(start as int, start + i)),
            acc < byte_pow(i as nat),
        decreases n - i,
    {
        let ghost sub = data@.subrange(start as int, start + i + 1);
        assert(sub.drop_last() =~= data@.subrange(start as int, start + i));
        let b = data[start + i];
        proof {
            lemma_byte_pow_monotonic((i + 1) as nat, 16);
            lemma_byte_pow_values();
            assert(acc * 256 + b < 256 * byte_pow(i as nat)) by (nonlinear_arith)
                requires
                    acc < byte_pow(i as nat),
                    b < 256,
            ;
        }
        acc = acc * 256 + b as u128;
        i = i + 1;
    }
    acc
}

impl Encode for PlayerState {
    open spec fn encoding(&self) -> Seq<u8> {
        be_bytes(self.user_id as nat, 8) + be_bytes(self.hits.0 as nat, 16) + seq![
            self.ships[0].0,
            self.ships[1].0,
            self.ships[2].0,
            self.ships[3].0,
            self.ships[4].0,
        ]
    }

    open spec fn decoding(data: Seq<u8>) -> Option<Self> {
        if data.len() != PLAYER_BYTES {
            None
        } else {
            Some(
                PlayerState {
                    user_id: be_value(data.subrange(0, 8)) as u64,
                    hits: HitMatrix(be_value(data.subrange(8, 24)) as u128),
                    ships: [
                        ShipState(data[24]),
                        ShipState(data[25]),
                        ShipState(data[26]),
                        ShipState(data[27]),
                        ShipState(data[28]),
                    ],
                },
            )
        }
    }

    fn encode(&self) -> (r: Vec<u8>) {
        let mut res: Vec<u8> = Vec::new();
        push_be(&mut res, self.user_id as u128, 8);
        push_be(&mut res, self.hits.0, 16);
        let mut i: usize = 0;
        while i < 5
            invariant
                i <= 5,
                res@ == be_bytes(self.user_id as nat, 8) + be_bytes(self.hits.0 as nat, 16)
                    + self.ships@.map_values(|s: ShipState| s.0).take(i as int),
            decreases 5 - i,
        {
            res.push(self.ships[i].0);
            i = i + 1;
            assert(self.ships@.map_values(|s: ShipState| s.0).take(i as int) =~= self.ships@.map_values(
                |s: ShipState| s.0,
            ).take(i - 1).push(self.ships[i - 1].0));
        }
        assert(self.ships@.map_values(|s: ShipState| s.0).take(5) =~= seq![
            self.ships[0].0,
            self.ships[1].0,
            self.ships[2].0,
            self.ships[3].0,
            self.ships[4].0,
        ]);
        res
    }

    fn try_decode(data: &[u8]) -> (r: Option<Self>) {
        if data.len() != PLAYER_BYTES {
            return None;
        }
        proof {
            lemma_be_value_round_trip(data@.subrange(0, 8));
            lemma_byte_pow_values();
        }
        let user_id = read_be(data, 0, 8) as u64;
        let hits = HitMatrix(read_be(data, 8, 16));
        let ships = [
            ShipState(data[24]),
            ShipState(data[25]),
            ShipState(data[26]),
            ShipState(data[27]),
            ShipState(data[28]),
        ];
        Some(PlayerState { user_id, hits, ships })
    }
}

impl Encode for GameState {
    open spec fn encoding(&self) -> Seq<u8> {
        self.player_1.encoding() + self.player_2.encoding() + seq![self.turn.0]
    }

    open spec fn decoding(data: Seq<u8>) -> Option<Self> {
        if data.len() != STATE_BYTES {
            None
        } else {
            Some(
                GameState {
                    player_1: PlayerState::decoding(data.subrange(0, 29))->0,
                    player_2: PlayerState::decoding(data.subrange(29, 58))->0,
                    turn: Turn(data[58]),
                },
            )
        }
    }

    fn encode(&self) -> (r: Vec<u8>) {
        let mut res = self.player_1.encode();
        let mut second = self.player_2.encode();
        res.append(&mut second);
        res.push(self.turn.0);
        res
    }

    fn try_decode(data: &[u8]) -> (r: Option<Self>) {
        if data.len() != STATE_BYTES {
            return None;
        }
        let first = slice_range(data, 0, 29);
        let second = slice_range(data, 29, 58);
        let player_1 = match PlayerState::try_decode(first) {
            Some(p) => p,
            None => return None,
        };
        let player_2 = match PlayerState::try_decode(second) {
            Some(p) => p,
            None => return None,
        };
        Some(GameState { player_1, player_2, turn: Turn(data[58]) })
    }
}

/// The bytes `data[from..to]`.
fn slice_range(data: &[u8], from: usize, to: usize) -> (r: &[u8])
    requires
        from <= to <= data@.len(),
    ensures
        r@ == data@.subrange(from as int, to as int),
{
    vstd::slice::slice_subrange(data, from, to)
}

/// Decoding what `encode` produced gives the state back.
pub proof fn lemma_decode_encode(s: GameState)
    ensures
        s.encoding().len() == STATE_BYTES,
        GameState::decoding(s.encoding()) == Some(s),
{
    lemma_player_round_trip(s.player_1);
    lemma_player_round_trip(s.player_2);
    let e = s.encoding();
    assert(e.subrange(0, 29) =~= s.player_1.encoding());
    assert(e.subrange(29, 58) =~= s.player_2.encoding());
}

/// Encoding what `try_decode` accepted gives the same bytes back.
pub proof fn lemma_encode_decode(data: Seq<u8>)
    requires
        data.len() == STATE_BYTES,
    ensures
        GameState::decoding(data) matches Some(s) && s.encoding() == data,
{
    let a = data.subrange(0, 29);
    let b = data.subrange(29, 58);
    lemma_player_bytes_round_trip(a);
    lemma_player_bytes_round_trip(b);
    assert(data =~= a + b + seq![data[58]]);
}

proof fn lemma_player_round_trip(p: PlayerState)
    ensures
        p.encoding().len() == PLAYER_BYTES,
        PlayerState::decoding(p.encoding()) == Some(p),
{
    lemma_byte_pow_values();
    lemma_be_round_trip(p.user_id as nat, 8);
    lemma_be_round_trip(p.hits.0 as nat, 16);
    let e = p.encoding();
    assert(e.subrange(0, 8) =~= be_bytes(p.user_id as nat, 8));
    assert(e.subrange(8, 24) =~= be_bytes(p.hits.0 as nat, 16));
    let d = PlayerState::decoding(e)->0;
    assert(d.ships =~= p.ships);
}

proof fn lemma_player_bytes_round_trip(data: Seq<u8>)
    requires
        data.len() == PLAYER_BYTES,
    ensures
        PlayerState::decoding(data) matches Some(p) && p.encoding() == data,
{
    lemma_byte_pow_values();
    let a = data.subrange(0, 8);
    let b = data.subrange(8, 24);
    lemma_be_value_round_trip(a);
    lemma_be_value_round_trip(b);
    let p = PlayerState::decoding(data)->0;
    assert(p.encoding() =~= data);
}

} // verus!
