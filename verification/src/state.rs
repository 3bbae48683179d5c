use vstd::prelude::*;
use crate::errors::BattleError;

verus! {

/// Discrete condition of a party, derived each round by decrypting its own
/// `current_pl` locally and comparing against fixed thresholds. `Reborn` is
/// transient: within the same round the party's current power is reset to its
/// committed power, after which the party is alive again.
#[derive(Clone, Copy, Debug, PartialEq, Eq, Structural)]
pub enum PlayerState {
    Alive,
    Dead,
    Reborn,
}

/// How a match ends. `Unfinished` reports that the supplied rounds ran out
/// before either party died; the match can be resumed by replaying it with
/// more rounds, since an unfinished match leaves no trace in the store.
#[derive(Clone, Copy, Debug, PartialEq, Eq, Structural)]
pub enum MatchOutcome {
    AliceWins,
    BobWins,
    Draw,
    Unfinished,
}

/// Threshold rule: strictly positive power is alive, power strictly below
/// -10 triggers a rebirth, and everything in between — including exactly 0
/// and exactly -10 — is dead.
pub open spec fn classify_spec(p: int) -> PlayerState {
    if p > 0 {
        PlayerState::Alive
    } else if p < -10 {
        PlayerState::Reborn
    } else {
        PlayerState::Dead
    }
}

/// A staked value (a commitment before the match, or a damage value during a
/// round) must be strictly positive and at most the pool it is drawn from.
pub open spec fn valid_stake(v: int, bound: int) -> bool {
    0 < v && v <= bound
}

/// The growth circuit: the surviving party's new total power is the square
/// of the unspent margin. Committing close to the full pool on purpose
/// yields a small reward.
pub open spec fn growth_spec(total: int, play: int) -> int {
    (total - play) * (total - play)
}

pub fn classify_power(p: i64) -> (s: PlayerState)
    ensures
        s == classify_spec(p as int),
{
    if p > 0 {
        PlayerState::Alive
    } else if p < -10 {
        PlayerState::Reborn
    } else {
        PlayerState::Dead
    }
}

/// The round-by-round state machine of a match, on plain values.
///
/// `a_play`/`b_play` are the two commitments, `a_cur`/`b_cur` the live power
/// values entering the next round, and `moves` the damage pair each round
/// (first component dealt by the first party, second by the second). Each
/// round: both damage values are checked against the dealer's own current
/// power, both are subtracted from the opponent, both parties are
/// classified, and then — in priority order — both dead ends the match as a
/// draw, exactly one dead makes the other the winner, and otherwise any
/// reborn party has its current power reset to its commitment before the
/// next round. The returned integers are the final current power values.
pub open spec fn run_rounds(
    a_play: int,
    b_play: int,
    a_cur: int,
    b_cur: int,
    moves: Seq<(i64, i64)>,
) -> Result<(MatchOutcome, int, int), BattleError>
    decreases moves.len(),
{
    if moves.len() == 0 {
        Ok((MatchOutcome::Unfinished, a_cur, b_cur))
    } else {
        let a_dmg = moves[0].0 as int;
        let b_dmg = moves[0].1 as int;
        if !valid_stake(a_dmg, a_cur) || !valid_stake(b_dmg, b_cur) {
            Err(BattleError::InputRangeError)
        } else {
            let a_next = a_cur - b_dmg;
            let b_next = b_cur - a_dmg;
            let a_state = classify_spec(a_next);
            let b_state = classify_spec(b_next);
            if a_state is Dead && b_state is Dead {
                Ok((MatchOutcome::Draw, a_next, b_next))
            } else if a_state is Dead {
                Ok((MatchOutcome::BobWins, a_next, b_next))
            } else if b_state is Dead {
                Ok((MatchOutcome::AliceWins, a_next, b_next))
            } else {
                let a_reset = if a_state is Reborn { a_play } else { a_next };
                let b_reset = if b_state is Reborn { b_play } else { b_next };
                run_rounds(a_play, b_play, a_reset, b_reset, moves.drop_first())
            }
        }
    }
}

/// A round that kills nobody never ends the match. Whenever both damage
/// values are in range and neither party's reduced value classifies as
/// dead, the match goes on to the remaining rounds — and each party whose
/// value fell below the rebirth threshold re-enters from its commitment,
/// while the other keeps its reduced value.
pub proof fn lemma_no_death_continues(
    a_play: int,
    b_play: int,
    a_cur: int,
    b_cur: int,
    moves: Seq<(i64, i64)>,
)
    requires
        moves.len() > 0,
        valid_stake(moves[0].0 as int, a_cur),
        valid_stake(moves[0].1 as int, b_cur),
        !(classify_spec(a_cur - moves[0].1 as int) is Dead),
        !(classify_spec(b_cur - moves[0].0 as int) is Dead),
    ensures
        run_rounds(a_play, b_play, a_cur, b_cur, moves) == run_rounds(
            a_play,
            b_play,
            if classify_spec(a_cur - moves[0].1 as int) is Reborn {
                a_play
            } else {
                a_cur - moves[0].1 as int
            },
            if classify_spec(b_cur - moves[0].0 as int) is Reborn {
                b_play
            } else {
                b_cur - moves[0].0 as int
            },
            moves.drop_first(),
        ),
{
}

} // verus!
