//! Winner reconciliation: the earlier finish wins on either side, a tie
//! goes to the peer, and a side that finished alone wins provisionally.

use tile_sync::winner::{decide_winner, update_winner};
use tile_sync::{PuzzleStatistics, Winner};

fn stats(finish_time: i64) -> PuzzleStatistics {
    PuzzleStatistics {
        finish_time,
        duration: 30,
        move_count: 5,
    }
}

#[test]
fn earlier_local_finish_wins() {
    let w = decide_winner(&Some(stats(100)), &Some(stats(200)));
    assert_eq!(w, Some(Winner::User));
}

#[test]
fn earlier_peer_finish_wins() {
    let w = decide_winner(&Some(stats(200)), &Some(stats(100)));
    assert_eq!(w, Some(Winner::Peer));
}

#[test]
fn tie_goes_to_peer() {
    let w = decide_winner(&Some(stats(100)), &Some(stats(100)));
    assert_eq!(w, Some(Winner::Peer));
}

#[test]
fn lone_local_completion_wins_provisionally() {
    assert_eq!(decide_winner(&Some(stats(100)), &None), Some(Winner::User));
}

#[test]
fn lone_peer_completion_wins_provisionally() {
    assert_eq!(decide_winner(&None, &Some(stats(100))), Some(Winner::Peer));
}

#[test]
fn no_completion_no_winner() {
    assert_eq!(decide_winner(&None, &None), None);
}

#[test]
fn update_decides_once_both_report() {
    // An undecided tick applies the rule; a tie goes to the peer.
    let w = update_winner(&None, &Some(stats(100)), &Some(stats(100)));
    assert_eq!(w, Some(Winner::Peer));
    let w = update_winner(&None, &Some(stats(100)), &Some(stats(200)));
    assert_eq!(w, Some(Winner::User));
}

#[test]
fn update_never_revisits_a_decision() {
    // Once called, the winner stands, whatever later reports say.
    let w = update_winner(&Some(Winner::User), &Some(stats(999)), &Some(stats(1)));
    assert_eq!(w, Some(Winner::User));
}

#[test]
fn update_stays_undecided_without_reports() {
    assert_eq!(update_winner(&None, &None, &None), None);
}
