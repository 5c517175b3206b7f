//! Approval voting: each ballot lists every candidate the voter approves
//! of, each approved candidate gains one count, and the candidate with the
//! most approvals wins.

use vstd::prelude::*;

use crate::voting_system::definition::{
    ballot_names, clone_strings, valid_choice_set, zero_counts, BallotFault, BallotForm, Ballots,
    InvalidBallot, SingleBallot, VotingSystem, VotingSystemInfo,
};

verus! {

/// An approval election: a list of approved candidate names per ballot.
#[derive(Debug)]
pub struct Approval {
    /// All ballots of the voting system.
    ballot_box: Ballots,
    /// Total number of ballots.
    count: usize,
}

impl Approval {
    /// Create a new election over the given choices, every count at zero.
    pub fn new(choices: Vec<String>) -> (r: Self)
        requires
            valid_choice_set(choices.deep_view()),
        ensures
            r.wf(),
            r.spec_choices() == choices.deep_view(),
            r.spec_counts() =~= zero_counts(choices.deep_view().len()),
            r.spec_total() == 0,
            r.spec_form() == BallotForm::Approved,
            r.spec_name() == "approval"@,
    {
        Approval { ballot_box: Ballots::new(BallotForm::Approved, choices), count: 0 }
    }
}

impl VotingSystem for Approval {
    closed spec fn wf(&self) -> bool {
        &&& self.ballot_box is Approved
        &&& valid_choice_set(self.spec_choices())
        &&& self.spec_counts().len() == self.spec_choices().len()
        &&& forall|i: int|
            0 <= i < self.spec_counts().len() ==> #[trigger] self.spec_counts()[i]
                <= self.spec_total()
    }

    closed spec fn spec_name(&self) -> Seq<char> {
        "approval"@
    }

    closed spec fn spec_form(&self) -> BallotForm {
        BallotForm::Approved
    }

    closed spec fn spec_choices(&self) -> Seq<Seq<char>> {
        self.ballot_box.tally().spec_choices()
    }

    closed spec fn spec_counts(&self) -> Seq<int> {
        self.ballot_box.tally().spec_counts()
    }

    closed spec fn spec_total(&self) -> int {
        self.count as int
    }

    fn get_name(&self) -> (r: &str) {
        "approval"
    }

    fn get_ballot_form(&self) -> (r: BallotForm) {
        BallotForm::Approved
    }

    fn get_choices(&self) -> (r: &Vec<String>) {
        self.ballot_box.choices()
    }

    fn get_count(&self) -> (r: usize) {
        self.count
    }

    fn get_info(&self) -> (r: VotingSystemInfo) {
        VotingSystemInfo::new(
            "approval",
            BallotForm::Approved,
            clone_strings(self.ballot_box.choices()),
        )
    }

    fn count_of(&self, name: &String) -> (r: Option<usize>) {
        self.ballot_box.count_of(name)
    }

    fn vote(&mut self, ballot: &SingleBallot) -> (r: Result<(), InvalidBallot>) {
        match ballot {
            SingleBallot::Approved(names) => {
                proof {
                    assert(names.deep_view() =~~= ballot_names(*ballot));
                }
                let applied = self.ballot_box.apply_names(names);
                match applied {
                    Ok(()) => {
                        self.count = self.count + 1;
                        Ok(())
                    },
                    Err(e) => Err(e),
                }
            },
            SingleBallot::Uninominal(_) => Err(
                InvalidBallot { reason: BallotFault::MalformedInput },
            ),
        }
    }

    fn result(&self) -> (r: Option<String>) {
        self.ballot_box.winner()
    }
}

} // verus!
