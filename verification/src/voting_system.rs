//! The voting-method registry: maps a method name to a freshly constructed
//! tally engine and to the ballot form that its voters must use.

use vstd::prelude::*;
use vstd::string::StringExecFns;

mod approval;
mod definition;
mod plurality;

pub use self::approval::Approval;
pub use self::plurality::{lemma_uninominal_tally, Plurality};

pub use self::definition::{
    all_known, ballot_fault, ballot_form_of, ballot_names, bumped, clone_strings, distinct_seq,
    first_max_index, lemma_first_max_index, names_fault, occurrences, uninominal_counts,
    valid_choice_set, winner_of, zero_counts, BallotFault, BallotForm, Ballots, ChoiceTally,
    InvalidBallot, SingleBallot, VotingSystem, VotingSystemInfo,
};

verus! {

/// Error for unknown voting system.
#[derive(Clone, Debug, PartialEq, Eq)]
pub struct UnknownVotingSystem(pub String);

impl UnknownVotingSystem {
    /// The name that no voting system is registered under.
    pub open spec fn spec_name(&self) -> Seq<char> {
        self.0@
    }

    /// A description of the error, for the operator's log.
    pub fn message(&self) -> (r: String)
        ensures
            r@ == "unknown voting system: "@ + self.spec_name(),
    {
        let mut r = "unknown voting system: ".to_owned();
        r.append(self.0.as_str());
        r
    }
}

/// The closed set of voting methods this library offers, dispatched once at
/// poll construction by `find_voting_system`.
#[derive(Debug)]
pub enum VotingSystemEnum {
    Plurality(Plurality),
    Approval(Approval),
}

impl VotingSystem for VotingSystemEnum {
    open spec fn wf(&self) -> bool {
        match self {
            VotingSystemEnum::Plurality(p) => p.wf(),
            VotingSystemEnum::Approval(a) => a.wf(),
        }
    }

    open spec fn spec_name(&self) -> Seq<char> {
        match self {
            VotingSystemEnum::Plurality(p) => p.spec_name(),
            VotingSystemEnum::Approval(a) => a.spec_name(),
        }
    }

    open spec fn spec_form(&self) -> BallotForm {
        match self {
            VotingSystemEnum::Plurality(p) => p.spec_form(),
            VotingSystemEnum::Approval(a) => a.spec_form(),
        }
    }

    open spec fn spec_choices(&self) -> Seq<Seq<char>> {
        match self {
            VotingSystemEnum::Plurality(p) => p.spec_choices(),
            VotingSystemEnum::Approval(a) => a.spec_choices(),
        }
    }

    open spec fn spec_counts(&self) -> Seq<int> {
        match self {
            VotingSystemEnum::Plurality(p) => p.spec_counts(),
            VotingSystemEnum::Approval(a) => a.spec_counts(),
        }
    }

    open spec fn spec_total(&self) -> int {
        match self {
            VotingSystemEnum::Plurality(p) => p.spec_total(),
            VotingSystemEnum::Approval(a) => a.spec_total(),
        }
    }

    fn get_name(&self) -> (r: &str) {
        match self {
            VotingSystemEnum::Plurality(p) => p.get_name(),
            VotingSystemEnum::Approval(a) => a.get_name(),
        }
    }

    fn get_ballot_form(&self) -> (r: BallotForm) {
        match self {
            VotingSystemEnum::Plurality(p) => p.get_ballot_form(),
            VotingSystemEnum::Approval(a) => a.get_ballot_form(),
        }
    }

    fn get_choices(&self) -> (r: &Vec<String>) {
        match self {
            VotingSystemEnum::Plurality(p) => p.get_choices(),
            VotingSystemEnum::Approval(a) => a.get_choices(),
        }
    }

    fn get_count(&self) -> (r: usize) {
        match self {
            VotingSystemEnum::Plurality(p) => p.get_count(),
            VotingSystemEnum::Approval(a) => a.get_count(),
        }
    }

    fn get_info(&self) -> (r: VotingSystemInfo) {
        match self {
            VotingSystemEnum::Plurality(p) => p.get_info(),
            VotingSystemEnum::Approval(a) => a.get_info(),
        }
    }

    fn count_of(&self, name: &String) -> (r: Option<usize>) {
        let r = match self {
            VotingSystemEnum::Plurality(p) => p.count_of(name),
            VotingSystemEnum::Approval(a) => a.count_of(name),
        };
        proof {
            if let Some(c) = r {
                match self {
                    VotingSystemEnum::Plurality(p) => {
                        let i = choose|i: int|
                            0 <= i < p.spec_choices().len() && p.spec_choices()[i] == name@ && c
                                as int == #[trigger] p.spec_counts()[i];
                        assert(self.spec_choices()[i] == name@);
                        assert(c as int == self.spec_counts()[i]);
                    },
                    VotingSystemEnum::Approval(a) => {
                        let i = choose|i: int|
                            0 <= i < a.spec_choices().len() && a.spec_choices()[i] == name@ && c
                                as int == #[trigger] a.spec_counts()[i];
                        assert(self.spec_choices()[i] == name@);
                        assert(c as int == self.spec_counts()[i]);
                    },
                }
            }
        }
        r
    }

    fn vote(&mut self, ballot: &SingleBallot) -> (r: Result<(), InvalidBallot>) {
        match self {
            VotingSystemEnum::Plurality(p) => p.vote(ballot),
            VotingSystemEnum::Approval(a) => a.vote(ballot),
        }
    }

    fn result(&self) -> (r: Option<String>) {
        match self {
            VotingSystemEnum::Plurality(p) => p.result(),
            VotingSystemEnum::Approval(a) => a.result(),
        }
    }
}

/// Relies on str's `PartialEq`: two string slices are equal exactly when
/// their characters are.
#[verifier::external_body]
pub(crate) fn str_eq(a: &str, b: &str) -> (r: bool)
    ensures
        r == (a@ == b@),
{
    a == b
}

/// Try to find the voting system which is associated to `name`.
/// Return a freshly constructed voting system (every count at zero) if
/// found, and return an `UnknownVotingSystem` error else.
pub fn find_voting_system(name: &str, choices: Vec<String>) -> (r: Result<
    VotingSystemEnum,
    UnknownVotingSystem,
>)
    requires
        valid_choice_set(choices.deep_view()),
    ensures
        r is Ok <==> (name@ == "plurality"@ || name@ == "approval"@),
        match r {
            Ok(sys) => {
                &&& sys.wf()
                &&& sys.spec_name() == name@
                &&& sys.spec_choices() == choices.deep_view()
                &&& sys.spec_counts() =~= zero_counts(choices.deep_view().len())
                &&& sys.spec_total() == 0
                &&& sys.spec_form() == (if name@ == "plurality"@ {
                    BallotForm::Uninominal
                } else {
                    BallotForm::Approved
                })
            },
            Err(e) => e.spec_name() == name@,
        },
{
    if str_eq(name, "plurality") {
        Ok(VotingSystemEnum::Plurality(Plurality::new(choices)))
    } else if str_eq(name, "approval") {
        Ok(VotingSystemEnum::Approval(Approval::new(choices)))
    } else {
        Err(UnknownVotingSystem(name.to_owned()))
    }
}

/// Try to find the voting system which is associated to `name`.
/// Return the information of the voting system (its name, ballot form and
/// choices) if found, and return an `UnknownVotingSystem` error else.
pub fn find_info_voting_system(name: &str, choices: Vec<String>) -> (r: Result<
    VotingSystemInfo,
    UnknownVotingSystem,
>)
    requires
        valid_choice_set(choices.deep_view()),
    ensures
        r is Ok <==> (name@ == "plurality"@ || name@ == "approval"@),
        match r {
            Ok(info) => {
                &&& info.wf()
                &&& info.spec_name() == name@
                &&& info.spec_choices() == choices.deep_view()
                &&& info.spec_form() == (if name@ == "plurality"@ {
                    BallotForm::Uninominal
                } else {
                    BallotForm::Approved
                })
            },
            Err(e) => e.spec_name() == name@,
        },
{
    if str_eq(name, "plurality") {
        Ok(VotingSystemInfo::new(name, BallotForm::Uninominal, choices))
    } else if str_eq(name, "approval") {
        Ok(VotingSystemInfo::new(name, BallotForm::Approved, choices))
    } else {
        Err(UnknownVotingSystem(name.to_owned()))
    }
}

/// Return `Ok(())` if `name_vote` is known and `Err(UnknownVotingSystem)`
/// else. Current known voting systems: plurality, approval.
pub fn correct_voting_system(name_vote: &str) -> (r: Result<(), UnknownVotingSystem>)
    ensures
        r is Ok <==> (name_vote@ == "plurality"@ || name_vote@ == "approval"@),
        match r {
            Ok(u) => true,
            Err(e) => e.spec_name() == name_vote@,
        },
{
    if str_eq(name_vote, "plurality") {
        Ok(())
    } else if str_eq(name_vote, "approval") {
        Ok(())
    } else {
        Err(UnknownVotingSystem(name_vote.to_owned()))
    }
}

} // verus!
