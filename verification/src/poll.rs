//! The poll coordinator and ballot collector core: the phase state machine
//! of one election (registering, then balloting, then closed), the rule
//! that refuses late ballots, and the cached final result.
//!
//! Connection handling, sockets and threads live outside this library; they
//! drive exactly this state machine and hand it plain ballots.

use vstd::prelude::*;

use crate::voting_system::{
    ballot_fault, ballot_names, bumped, valid_choice_set, winner_of, InvalidBallot, SingleBallot,
    VotingSystem, VotingSystemEnum,
};

verus! {

/// The coordination state of one election. Transitions are monotonic:
/// registering, then balloting, then closed; no phase is revisited.
#[derive(Clone, Copy, Debug, PartialEq, Eq, Structural)]
pub enum PollPhase {
    /// Voters may connect; no ballot is accepted yet.
    Registering,
    /// Ballots are accepted.
    Balloting,
    /// Terminal: no further ballot is accepted; the result may be computed.
    Closed,
}

/// Where a phase stands in the lifecycle's order.
pub open spec fn phase_rank(p: PollPhase) -> int {
    match p {
        PollPhase::Registering => 0,
        PollPhase::Balloting => 1,
        PollPhase::Closed => 2,
    }
}

/// The phase after `begin_balloting`: opens balloting exactly once, from
/// registration; any later call leaves the phase alone.
pub open spec fn begin_spec(p: PollPhase) -> PollPhase {
    match p {
        PollPhase::Registering => PollPhase::Balloting,
        _ => p,
    }
}

/// The phase after `end_balloting`: closes balloting exactly once; a poll
/// that never opened stays in registration (no phase may be skipped), and
/// a closed poll stays closed.
pub open spec fn end_spec(p: PollPhase) -> PollPhase {
    match p {
        PollPhase::Balloting => PollPhase::Closed,
        _ => p,
    }
}

/// Phase transitions are monotonic: neither control operation ever lowers
/// the phase, a closed poll stays closed under both operations — so a
/// `begin_balloting` arriving after `end_balloting` has no effect and
/// never reopens balloting — and once balloting has been opened and
/// ended, the poll is closed for good.
pub proof fn lemma_phase_monotonic(p: PollPhase)
    ensures
        phase_rank(begin_spec(p)) >= phase_rank(p),
        phase_rank(end_spec(p)) >= phase_rank(p),
        p is Closed ==> begin_spec(p) == p,
        p is Closed ==> end_spec(p) == p,
        end_spec(begin_spec(p)) is Closed ==> begin_spec(end_spec(begin_spec(p))) is Closed,
{
}

/// Why the ballot collector refused a submission.
#[derive(Clone, Copy, Debug, PartialEq, Eq, Structural)]
pub enum SubmitError {
    /// The tally engine refused the ballot; the fault says why.
    Invalid(InvalidBallot),
    /// The ballot arrived while balloting was not open. A ballot submitted
    /// after `end_balloting` is late: it is dropped and never tallied.
    LateBallot,
}

/// One election: the poll coordinator's phase, the tally engine that the
/// ballot collector feeds, and the cached final result.
///
/// This type is the single writer of its tally state: ballots enter only
/// through `submit_ballot`, one at a time, in the order it is called.
pub struct Poll {
    phase: PollPhase,
    system: VotingSystemEnum,
    outcome: Option<String>,
}

impl Poll {
    /// The current phase.
    pub closed spec fn spec_phase(&self) -> PollPhase {
        self.phase
    }

    /// The tally engine with its running counts.
    pub closed spec fn spec_system(&self) -> VotingSystemEnum {
        self.system
    }

    /// The cached result, once computed.
    pub closed spec fn spec_outcome(&self) -> Option<Seq<char>> {
        match self.outcome {
            Some(s) => Some(s@),
            None => None,
        }
    }

    /// The poll's invariant: the engine is sound, its choice set is a
    /// valid one, and a cached result exists only once the poll is closed
    /// and then names the winner of the recorded counts.
    pub open spec fn wf(&self) -> bool {
        &&& self.spec_system().wf()
        &&& valid_choice_set(self.spec_system().spec_choices())
        &&& match self.spec_outcome() {
            Some(w) => self.spec_phase() is Closed && w == winner_of(
                self.spec_system().spec_choices(),
                self.spec_system().spec_counts(),
            ),
            None => true,
        }
    }

    /// A new poll over a constructed tally engine, in registration, with
    /// no result yet.
    pub fn new(system: VotingSystemEnum) -> (r: Self)
        requires
            system.wf(),
            valid_choice_set(system.spec_choices()),
        ensures
            r.wf(),
            r.spec_phase() == PollPhase::Registering,
            r.spec_system() == system,
            r.spec_outcome() is None,
    {
        Poll { phase: PollPhase::Registering, system, outcome: None }
    }

    /// The current phase.
    pub fn phase(&self) -> (r: PollPhase)
        ensures
            r == self.spec_phase(),
    {
        self.phase
    }

    /// How many ballots the collector has accepted so far.
    pub fn ballots_cast(&self) -> (r: usize)
        ensures
            r as int == self.spec_system().spec_total(),
    {
        self.system.get_count()
    }

    /// Open balloting: transitions registration to balloting exactly once.
    /// Calls in any later phase have no effect (they signal nothing and do
    /// not error), so balloting is never reopened.
    pub fn begin_balloting(&mut self)
        requires
            old(self).wf(),
        ensures
            final(self).wf(),
            final(self).spec_phase() == begin_spec(old(self).spec_phase()),
            final(self).spec_system() == old(self).spec_system(),
            final(self).spec_outcome() == old(self).spec_outcome(),
    {
        match self.phase {
            PollPhase::Registering => {
                self.phase = PollPhase::Balloting;
            },
            _ => {},
        }
    }

    /// Close balloting: transitions balloting to closed exactly once.
    /// Calls in any other phase have no effect; in particular a poll still
    /// in registration does not close (no phase may be skipped).
    pub fn end_balloting(&mut self)
        requires
            old(self).wf(),
        ensures
            final(self).wf(),
            final(self).spec_phase() == end_spec(old(self).spec_phase()),
            final(self).spec_system() == old(self).spec_system(),
            final(self).spec_outcome() == old(self).spec_outcome(),
    {
        match self.phase {
            PollPhase::Balloting => {
                self.phase = PollPhase::Closed;
            },
            _ => {},
        }
    }

    /// Hand one ballot to the ballot collector. While balloting is open
    /// the ballot goes to the tally engine and its verdict comes back;
    /// in any other phase the ballot is refused as late and the tally
    /// state is untouched, so a late ballot never appears in the result.
    pub fn submit_ballot(&mut self, ballot: &SingleBallot) -> (r: Result<(), SubmitError>)
        requires
            old(self).wf(),
            old(self).spec_system().spec_total() < usize::MAX as int,
        ensures
            final(self).wf(),
            final(self).spec_phase() == old(self).spec_phase(),
            final(self).spec_outcome() == old(self).spec_outcome(),
            old(self).spec_phase() != PollPhase::Balloting ==> r == Result::<(),
            SubmitError>::Err(SubmitError::LateBallot) && final(self).spec_system() == old(
                self,
            ).spec_system(),
            old(self).spec_phase() == PollPhase::Balloting ==> {
                &&& final(self).spec_system().spec_name() == old(self).spec_system().spec_name()
                &&& final(self).spec_system().spec_form() == old(self).spec_system().spec_form()
                &&& final(self).spec_system().spec_choices() == old(
                    self,
                ).spec_system().spec_choices()
                &&& match ballot_fault(
                    old(self).spec_system().spec_form(),
                    old(self).spec_system().spec_choices(),
                    *ballot,
                ) {
                    Some(f) => {
                        &&& r == Result::<(), SubmitError>::Err(
                            SubmitError::Invalid((InvalidBallot { reason: f })),
                        )
                        &&& final(self).spec_system().spec_counts() == old(
                            self,
                        ).spec_system().spec_counts()
                        &&& final(self).spec_system().spec_total() == old(
                            self,
                        ).spec_system().spec_total()
                    },
                    None => {
                        &&& r == Result::<(), SubmitError>::Ok(())
                        &&& final(self).spec_system().spec_counts() =~= bumped(
                            old(self).spec_system().spec_counts(),
                            old(self).spec_system().spec_choices(),
                            ballot_names(*ballot),
                        )
                        &&& final(self).spec_system().spec_total() == old(
                            self,
                        ).spec_system().spec_total() + 1
                    },
                }
            },
    {
        match self.phase {
            PollPhase::Balloting => {
                match self.system.vote(ballot) {
                    Ok(()) => Ok(()),
                    Err(e) => Err(SubmitError::Invalid(e)),
                }
            },
            _ => Err(SubmitError::LateBallot),
        }
    }

    /// The final result, valid only once the poll is closed: the winning
    /// choice, computed once and cached, so that repeated calls return the
    /// same value without recomputation.
    pub fn compute_result(&mut self) -> (r: String)
        requires
            old(self).wf(),
            old(self).spec_phase() is Closed,
        ensures
            final(self).wf(),
            final(self).spec_phase() == old(self).spec_phase(),
            final(self).spec_system() == old(self).spec_system(),
            r@ == winner_of(
                old(self).spec_system().spec_choices(),
                old(self).spec_system().spec_counts(),
            ),
            final(self).spec_outcome() == Some(r@),
            match old(self).spec_outcome() {
                Some(w) => r@ == w,
                None => true,
            },
    {
        if let Some(s) = &self.outcome {
            return s.clone();
        }
        let w = self.system.result();
        match w {
            Some(win) => {
                self.outcome = Some(win.clone());
                win
            },
            None => unreached(),
        }
    }
}

} // verus!
