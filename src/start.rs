//! Starting a game: who may play, and who was challenged.

use vstd::prelude::*;
use crate::hits::HitMatrix;
use crate::game::{GameState, Turn};
use crate::player::fleet_drawn;

verus! {

/// Why a game could not start.
#[derive(Debug, Clone, Copy, PartialEq, Eq, Structural)]
pub enum FailStartReason {
    /// This user is a bot and cannot play.
    Bot(u64),
    /// A user cannot play against themself.
    Same,
    /// Drawing a fleet gave up.
    PlacementExhausted,
}

/// Who may play: two distinct users, neither of them a bot; the first
/// player is looked at before the second.
pub open spec fn players_check(
    player_1: u64,
    player_1_bot: bool,
    player_2: u64,
    player_2_bot: bool,
) -> Result<(), FailStartReason> {
    if player_1 == player_2 {
        Err(FailStartReason::Same)
    } else if player_1_bot {
        Err(FailStartReason::Bot(player_1))
    } else if player_2_bot {
        Err(FailStartReason::Bot(player_2))
    } else {
        Ok(())
    }
}

/// Holds of every user but `bot`.
pub open spec fn not_bot(bot: u64) -> spec_fn(u64) -> bool {
    |u: u64| u != bot
}

/// The users of `mentions` other than `bot`.
pub open spec fn others(mentions: Seq<u64>, bot: u64) -> Seq<u64> {
    mentions.filter(not_bot(bot))
}

pub fn check_players(player_1: u64, player_1_bot: bool, player_2: u64, player_2_bot: bool) -> (r:
    Result<(), FailStartReason>)
    ensures
        r == players_check(player_1, player_1_bot, player_2, player_2_bot),
{
    if player_1 == player_2 {
        Err(FailStartReason::Same)
    } else {
        match check_player(player_1, player_1_bot) {
            Err(e) => Err(e),
            Ok(()) => check_player(player_2, player_2_bot),
        }
    }
}

fn check_player(user: u64, bot: bool) -> (r: Result<(), FailStartReason>)
    ensures
        r == (if bot {
            Err(FailStartReason::Bot(user))
        } else {
            Ok(())
        }),
{
    if bot {
        Err(FailStartReason::Bot(user))
    } else {
        Ok(())
    }
}

/// Starts a game between two users once they pass `check_players`.
pub fn start_game(player_1: u64, player_1_bot: bool, player_2: u64, player_2_bot: bool) -> (r:
    Result<GameState, FailStartReason>)
    ensures
        players_check(player_1, player_1_bot, player_2, player_2_bot) matches Err(e) ==> r == Err::<
            GameState,
            FailStartReason,
        >(e),
        players_check(player_1, player_1_bot, player_2, player_2_bot) is Ok ==> match r {
            Ok(g) => {
                &&& g.wf()
                &&& fleet_drawn(g.player_1.ships)
                &&& fleet_drawn(g.player_2.ships)
                &&& g.turn == Turn(1)
                &&& g.player_1.user_id == player_1
                &&& g.player_2.user_id == player_2
                &&& g.player_1.hits == HitMatrix(0)
                &&& g.player_2.hits == HitMatrix(0)
            },
            Err(e) => e == FailStartReason::PlacementExhausted,
        },
{
    check_players(player_1, player_1_bot, player_2, player_2_bot)?;
    match GameState::new(player_1, player_2) {
        Ok(g) => Ok(g),
        Err(_) => Err(FailStartReason::PlacementExhausted),
    }
}

/// The one user a message challenges: of the users it mentions, the one
/// other than `bot`, when there is exactly one.
pub fn challenged_user(mentions: &Vec<u64>, bot: u64) -> (r: Option<u64>)
    ensures
        r == (if others(mentions@, bot).len() == 1 {
            Some(others(mentions@, bot)[0])
        } else {
            None
        }),
{
    let mut found: Option<u64> = None;
    let mut count: usize = 0;
    let mut i: usize = 0;
    while i < mentions.len()
        invariant
            i <= mentions.len(),
            count == (if others(mentions@.take(i as int), bot).len() < 2 {
                others(mentions@.take(i as int), bot).len()
            } else {
                2
            }),
            count >= 1 ==> found == Some(others(mentions@.take(i as int), bot)[0]),
            count == 0 ==> found is None,
        decreases mentions.len() - i,
    {
        let u = mentions[i];
        proof {
            assert(mentions@.take(i + 1) =~= mentions@.take(i as int).push(u));
            mentions@.take(i as int).lemma_filter_push(u, not_bot(bot));
        }
        if u != bot {
            if count == 0 {
                found = Some(u);
            }
            if count < 2 {
                count = count + 1;
            }
        }
        i = i + 1;
    }
    assert(mentions@.take(i as int) =~= mentions@);
    if count == 1 {
        found
    } else {
        None
    }
}

} // verus!
