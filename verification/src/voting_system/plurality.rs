//! First-past-the-post voting: each ballot names exactly one candidate, and
//! the candidate with the most ballots wins.

use vstd::prelude::*;

use crate::voting_system::definition::{
    ballot_names, clone_strings, first_max_index, lemma_first_max_index, occurrences,
    uninominal_counts, valid_choice_set, winner_of, zero_counts, BallotFault, BallotForm, Ballots,
    InvalidBallot, SingleBallot, VotingSystem, VotingSystemInfo,
};

verus! {

/// A plurality election: one candidate name per ballot.
#[derive(Debug)]
pub struct Plurality {
    /// All ballots of the voting system.
    pub ballot_box: Ballots,
    /// Total number of ballots.
    count: usize,
}

impl Plurality {
    /// Create a new election over the given choices, every count at zero.
    pub fn new(choices: Vec<String>) -> (r: Self)
        requires
            valid_choice_set(choices.deep_view()),
        ensures
            r.wf(),
            r.spec_choices() == choices.deep_view(),
            r.spec_counts() =~= zero_counts(choices.deep_view().len()),
            r.spec_total() == 0,
            r.spec_form() == BallotForm::Uninominal,
            r.spec_name() == "plurality"@,
    {
        Plurality { ballot_box: Ballots::new(BallotForm::Uninominal, choices), count: 0 }
    }
}

impl VotingSystem for Plurality {
    closed spec fn wf(&self) -> bool {
        &&& self.ballot_box is Uninominal
        &&& valid_choice_set(self.spec_choices())
        &&& self.spec_counts().len() == self.spec_choices().len()
        &&& forall|i: int|
            0 <= i < self.spec_counts().len() ==> #[trigger] self.spec_counts()[i]
                <= self.spec_total()
    }

    closed spec fn spec_name(&self) -> Seq<char> {
        "plurality"@
    }

    closed spec fn spec_form(&self) -> BallotForm {
        BallotForm::Uninominal
    }

    closed spec fn spec_choices(&self) -> Seq<Seq<char>> {
        self.ballot_box.tally().spec_choices()
    }

    closed spec fn spec_counts(&self) -> Seq<int> {
        self.ballot_box.tally().spec_counts()
    }

    closed spec fn spec_total(&self) -> int {
        self.count as int
    }

    fn get_name(&self) -> (r: &str) {
        "plurality"
    }

    fn get_ballot_form(&self) -> (r: BallotForm) {
        BallotForm::Uninominal
    }

    fn get_choices(&self) -> (r: &Vec<String>) {
        self.ballot_box.choices()
    }

    fn get_count(&self) -> (r: usize) {
        self.count
    }

    fn get_info(&self) -> (r: VotingSystemInfo) {
        VotingSystemInfo::new(
            "plurality",
            BallotForm::Uninominal,
            clone_strings(self.ballot_box.choices()),
        )
    }

    fn count_of(&self, name: &String) -> (r: Option<usize>) {
        self.ballot_box.count_of(name)
    }

    fn vote(&mut self, ballot: &SingleBallot) -> (r: Result<(), InvalidBallot>) {
        match ballot {
            SingleBallot::Uninominal(name) => {
                let mut names: Vec<String> = Vec::new();
                names.push(name.clone());
                proof {
                    assert(names@[0]@ == name@);
                    assert(names.deep_view() =~~= ballot_names(*ballot));
                }
                let applied = self.ballot_box.apply_names(&names);
                match applied {
                    Ok(()) => {
                        self.count = self.count + 1;
                        Ok(())
                    },
                    Err(e) => Err(e),
                }
            },
            SingleBallot::Approved(_) => Err(InvalidBallot { reason: BallotFault::MalformedInput }),
        }
    }

    fn result(&self) -> (r: Option<String>) {
        self.ballot_box.winner()
    }
}

/// The plurality law. For every run of valid uninominal ballots over a
/// choice set, the final count of each choice is exactly the number of
/// ballots naming it, and the winning position holds the strictly highest
/// count, with ties broken towards the first choice in declared order.
pub proof fn lemma_uninominal_tally(choices: Seq<Seq<char>>, ballots: Seq<Seq<char>>)
    requires
        valid_choice_set(choices),
        forall|j: int| 0 <= j < ballots.len() ==> choices.contains(#[trigger] ballots[j]),
    ensures
        uninominal_counts(choices, ballots).len() == choices.len(),
        forall|i: int|
            0 <= i < choices.len() ==> #[trigger] uninominal_counts(choices, ballots)[i]
                == occurrences(ballots, choices[i]),
        ({
            let w = first_max_index(uninominal_counts(choices, ballots));
            &&& 0 <= w < choices.len()
            &&& winner_of(choices, uninominal_counts(choices, ballots)) == choices[w]
            &&& forall|j: int|
                0 <= j < choices.len() ==> #[trigger] occurrences(ballots, choices[j])
                    <= occurrences(ballots, choices[w])
            &&& forall|j: int|
                0 <= j < w ==> #[trigger] occurrences(ballots, choices[j]) < occurrences(
                    ballots,
                    choices[w],
                )
        }),
    decreases ballots.len(),
{
    let counts = uninominal_counts(choices, ballots);
    if ballots.len() == 0 {
        assert(forall|i: int|
            0 <= i < choices.len() ==> #[trigger] counts[i] == occurrences(ballots, choices[i]));
    } else {
        let rest = ballots.drop_last();
        let last = ballots.last();
        lemma_uninominal_tally(choices, rest);
        let prev = uninominal_counts(choices, rest);
        assert forall|i: int| 0 <= i < choices.len() implies #[trigger] counts[i] == occurrences(
            ballots,
            choices[i],
        ) by {
            assert(seq![last].contains(choices[i]) <==> last == choices[i]) by {
                assert(seq![last].len() == 1);
                assert(seq![last][0] == last);
                if last == choices[i] {
                    assert(seq![last].contains(choices[i]));
                }
            }
            assert(counts[i] == prev[i] + if seq![last].contains(choices[i]) {
                1int
            } else {
                0int
            });
            assert(occurrences(ballots, choices[i]) == occurrences(rest, choices[i])
                + if last == choices[i] {
                1int
            } else {
                0int
            });
        }
    }
    lemma_first_max_index(counts);
    let w = first_max_index(counts);
    assert(forall|j: int|
        0 <= j < choices.len() ==> #[trigger] occurrences(ballots, choices[j]) == counts[j]);
}

} // verus!
