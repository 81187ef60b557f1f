//! Winner reconciliation.
//!
//! Both sides run the same rule once completion statistics are known: a side
//! that finished alone wins provisionally; when both finished, the earlier
//! finish instant wins, and an exact tie goes to the peer.

use vstd::prelude::*;

use crate::player::PuzzleStatistics;

verus! {

/// Which side of the session won.
#[derive(Clone, Copy, Debug, PartialEq, Eq, Structural)]
pub enum Winner {
    /// The local player.
    User,
    /// The remote player.
    Peer,
}

/// The reconciliation rule as a mathematical function of the two reports.
pub open spec fn spec_decide_winner(
    user: Option<PuzzleStatistics>,
    peer: Option<PuzzleStatistics>,
) -> Option<Winner> {
    match (user, peer) {
        (None, None) => None,
        (Some(_), None) => Some(Winner::User),
        (None, Some(_)) => Some(Winner::Peer),
        (Some(u), Some(p)) => if p.finish_time > u.finish_time {
            Some(Winner::User)
        } else {
            Some(Winner::Peer)
        },
    }
}

/// Decides the winner from the local report and the peer's report.
///
/// Returns `None` while neither side has completed. A side that completed
/// alone wins provisionally. When both completed, the earlier `finish_time`
/// wins; an exact tie goes to the peer.
pub fn decide_winner(
    user: &Option<PuzzleStatistics>,
    peer: &Option<PuzzleStatistics>,
) -> (w: Option<Winner>)
    ensures
        w == spec_decide_winner(*user, *peer),
{
    match (user, peer) {
        (None, None) => None,
        (Some(_), None) => Some(Winner::User),
        (None, Some(_)) => Some(Winner::Peer),
        (Some(u), Some(p)) => if p.finish_time > u.finish_time {
            Some(Winner::User)
        } else {
            Some(Winner::Peer)
        },
    }
}

/// One reconciliation tick, as each side runs it: a winner already called
/// stays called; until then the rule fixes one from the two reports, the
/// earlier finish instant winning and a tie going to the peer.
pub fn update_winner(
    current: &Option<Winner>,
    user: &Option<PuzzleStatistics>,
    peer: &Option<PuzzleStatistics>,
) -> (w: Option<Winner>)
    ensures
        current is Some ==> w == *current,
        current is None ==> w == spec_decide_winner(*user, *peer),
{
    match current {
        Some(c) => Some(*c),
        None => decide_winner(user, peer),
    }
}

/// The side with the strictly earlier finish instant wins, whichever side
/// it is.
pub proof fn lemma_earlier_finish_wins(u: PuzzleStatistics, p: PuzzleStatistics)
    ensures
        u.finish_time < p.finish_time ==> spec_decide_winner(Some(u), Some(p)) == Some(
            Winner::User,
        ),
        p.finish_time < u.finish_time ==> spec_decide_winner(Some(u), Some(p)) == Some(
            Winner::Peer,
        ),
{
}

/// Reconciliation is total and deterministic when both sides report: some
/// winner is always picked, and an exact tie of finish instants goes to the
/// peer.
pub proof fn lemma_tie_favors_peer(u: PuzzleStatistics, p: PuzzleStatistics)
    ensures
        spec_decide_winner(Some(u), Some(p)) is Some,
        u.finish_time == p.finish_time ==> spec_decide_winner(Some(u), Some(p)) == Some(
            Winner::Peer,
        ),
{
}

} // verus!
