//! Tests of the poll coordinator: phase transitions, the late-ballot gate,
//! and the cached result.

use votally::poll::{Poll, PollPhase, SubmitError};
use votally::voting_system::{find_voting_system, BallotFault, SingleBallot, VotingSystem};

fn plurality_poll(choices: &[&str]) -> Poll {
    let choices: Vec<String> = choices.iter().map(|c| c.to_string()).collect();
    Poll::new(find_voting_system("plurality", choices).unwrap())
}

#[test]
fn phases_advance_in_order_and_never_revisit() {
    let mut poll = plurality_poll(&["A", "B"]);
    assert_eq!(PollPhase::Registering, poll.phase());

    // No phase may be skipped: ending before balloting opened changes nothing.
    poll.end_balloting();
    assert_eq!(PollPhase::Registering, poll.phase());

    poll.begin_balloting();
    assert_eq!(PollPhase::Balloting, poll.phase());

    // A second begin is a no-op.
    poll.begin_balloting();
    assert_eq!(PollPhase::Balloting, poll.phase());

    poll.end_balloting();
    assert_eq!(PollPhase::Closed, poll.phase());

    // Begin after end has no effect on the closed poll and never reopens it.
    poll.begin_balloting();
    assert_eq!(PollPhase::Closed, poll.phase());
    poll.end_balloting();
    assert_eq!(PollPhase::Closed, poll.phase());
}

#[test]
fn late_ballot_is_rejected_and_never_tallied() {
    let mut poll = plurality_poll(&["A", "B"]);
    poll.begin_balloting();
    poll.submit_ballot(&SingleBallot::Uninominal(String::from("B"))).unwrap();
    poll.end_balloting();

    let late = poll.submit_ballot(&SingleBallot::Uninominal(String::from("A")));
    assert_eq!(Err(SubmitError::LateBallot), late);

    // The late ballot for A never appears in the final tally: B still wins.
    assert_eq!("B", poll.compute_result());
}

#[test]
fn ballot_before_balloting_opens_is_rejected() {
    let mut poll = plurality_poll(&["A", "B"]);
    let early = poll.submit_ballot(&SingleBallot::Uninominal(String::from("A")));
    assert_eq!(Err(SubmitError::LateBallot), early);
}

#[test]
fn invalid_ballot_is_reported_to_its_submitter() {
    let mut poll = plurality_poll(&["A", "B"]);
    poll.begin_balloting();
    let r = poll.submit_ballot(&SingleBallot::Uninominal(String::from("Z")));
    match r {
        Err(SubmitError::Invalid(e)) => assert_eq!(BallotFault::UnknownCandidate, e.reason),
        other => panic!("expected an invalid-ballot error, got {:?}", other),
    }
}

#[test]
fn result_is_computed_once_and_cached() {
    let mut poll = plurality_poll(&["A", "B", "C"]);
    poll.begin_balloting();
    for v in ["A", "B", "A", "C", "B", "A"] {
        poll.submit_ballot(&SingleBallot::Uninominal(v.to_string())).unwrap();
    }
    poll.end_balloting();
    let first = poll.compute_result();
    let second = poll.compute_result();
    assert_eq!("A", first);
    assert_eq!(first, second);
}

#[test]
fn no_ballot_lost_no_ballot_double_counted() {
    let mut poll = plurality_poll(&["A", "B"]);
    poll.begin_balloting();
    let n: usize = 40;
    for k in 0..n {
        let name = if k % 2 == 0 { "A" } else { "B" };
        poll.submit_ballot(&SingleBallot::Uninominal(name.to_string())).unwrap();
    }
    poll.end_balloting();
    assert_eq!(n, poll.ballots_cast());
}
