//! The data model of an election: ballot forms, single ballots, the ballot
//! box with its per-choice counters, and the `VotingSystem` trait that every
//! tally engine implements.

use vstd::prelude::*;
use vstd::string::StrSliceExecFns;

verus! {

/// Describe the ballot form.
#[derive(Clone, Copy, Debug, PartialEq, Eq, Structural)]
pub enum BallotForm {
    /// Exactly one candidate name per ballot.
    Uninominal,
    /// A list of approved candidate names per ballot.
    Approved,
}

/// Why the tally engine refused a ballot.
#[derive(Clone, Copy, Debug, PartialEq, Eq, Structural)]
pub enum BallotFault {
    /// The ballot names a candidate that is not in the choice set.
    UnknownCandidate,
    /// An approved ballot lists the same candidate twice.
    DuplicateSelection,
    /// The ballot does not match the election's ballot form.
    MalformedInput,
}

/// Error for invalid ballot.
#[derive(Clone, Copy, Debug, PartialEq, Eq, Structural)]
pub struct InvalidBallot {
    pub reason: BallotFault,
}

impl InvalidBallot {
    /// A description of the fault, for the operator's log.
    pub fn message(&self) -> (r: String)
        ensures
            r@ == match self.reason {
                BallotFault::UnknownCandidate => "invalid ballot: unknown candidate"@,
                BallotFault::DuplicateSelection => "invalid ballot: duplicate selection"@,
                BallotFault::MalformedInput => "invalid ballot: malformed input"@,
            },
    {
        match self.reason {
            BallotFault::UnknownCandidate => "invalid ballot: unknown candidate".to_owned(),
            BallotFault::DuplicateSelection => "invalid ballot: duplicate selection".to_owned(),
            BallotFault::MalformedInput => "invalid ballot: malformed input".to_owned(),
        }
    }
}

/// One voter's submission.
#[derive(Clone, Debug, PartialEq, Eq)]
pub enum SingleBallot {
    /// A single candidate name.
    Uninominal(String),
    /// The list of approved candidate names.
    Approved(Vec<String>),
}

/// The form a ballot is written in.
pub open spec fn ballot_form_of(b: SingleBallot) -> BallotForm {
    match b {
        SingleBallot::Uninominal(_) => BallotForm::Uninominal,
        SingleBallot::Approved(_) => BallotForm::Approved,
    }
}

/// The candidate names a ballot selects, in the order it lists them.
pub open spec fn ballot_names(b: SingleBallot) -> Seq<Seq<char>> {
    match b {
        SingleBallot::Uninominal(name) => seq![name@],
        SingleBallot::Approved(names) => names.deep_view(),
    }
}

/// No two entries are equal.
pub open spec fn distinct_seq(s: Seq<Seq<char>>) -> bool {
    forall|i: int, j: int| 0 <= i < j < s.len() ==> s[i] != s[j]
}

/// Every name appears in the choice set.
pub open spec fn all_known(names: Seq<Seq<char>>, choices: Seq<Seq<char>>) -> bool {
    forall|j: int| 0 <= j < names.len() ==> choices.contains(names[j])
}

/// The choice set's invariant: at least two candidates, no duplicates.
pub open spec fn valid_choice_set(choices: Seq<Seq<char>>) -> bool {
    choices.len() >= 2 && distinct_seq(choices)
}

/// Counts after one accepted ballot: every selected choice gains one.
pub open spec fn bumped(counts: Seq<int>, choices: Seq<Seq<char>>, names: Seq<Seq<char>>) -> Seq<
    int,
> {
    Seq::new(
        counts.len(),
        |i: int|
            counts[i] + if names.contains(choices[i]) {
                1int
            } else {
                0int
            },
    )
}

/// A fresh tally: every count at zero.
pub open spec fn zero_counts(n: nat) -> Seq<int> {
    Seq::new(n, |i: int| 0int)
}

/// The fault in a list of selected names against a choice set: an unknown
/// candidate is reported before a duplicate selection.
pub open spec fn names_fault(choices: Seq<Seq<char>>, names: Seq<Seq<char>>) -> Option<
    BallotFault,
> {
    if !all_known(names, choices) {
        Some(BallotFault::UnknownCandidate)
    } else if !distinct_seq(names) {
        Some(BallotFault::DuplicateSelection)
    } else {
        None
    }
}

/// The fault a tally engine reports on a ballot, or `None` when the ballot
/// is acceptable. A ballot of the wrong form is malformed; otherwise an
/// unknown candidate is reported before a duplicate selection.
pub open spec fn ballot_fault(
    form: BallotForm,
    choices: Seq<Seq<char>>,
    b: SingleBallot,
) -> Option<BallotFault> {
    if ballot_form_of(b) != form {
        Some(BallotFault::MalformedInput)
    } else {
        names_fault(choices, ballot_names(b))
    }
}

/// How many entries of `ballots` equal `name`.
pub open spec fn occurrences(ballots: Seq<Seq<char>>, name: Seq<char>) -> int
    decreases ballots.len(),
{
    if ballots.len() == 0 {
        0
    } else {
        occurrences(ballots.drop_last(), name) + if ballots.last() == name {
            1int
        } else {
            0int
        }
    }
}

/// The counts after a run of uninominal ballots, oldest first, applied to
/// a fresh tally over `choices`.
pub open spec fn uninominal_counts(choices: Seq<Seq<char>>, ballots: Seq<Seq<char>>) -> Seq<int>
    decreases ballots.len(),
{
    if ballots.len() == 0 {
        zero_counts(choices.len())
    } else {
        bumped(uninominal_counts(choices, ballots.drop_last()), choices, seq![ballots.last()])
    }
}

/// The index of the winning count: the first position holding the maximum.
pub open spec fn first_max_index(counts: Seq<int>) -> int
    decreases counts.len(),
{
    if counts.len() <= 1 {
        0
    } else {
        let best = first_max_index(counts.drop_last());
        if counts[counts.len() - 1] > counts[best] {
            counts.len() - 1
        } else {
            best
        }
    }
}

/// The winning choice, by first-in-declared-order tie-break.
pub open spec fn winner_of(choices: Seq<Seq<char>>, counts: Seq<int>) -> Seq<char> {
    choices[first_max_index(counts)]
}

/// The position `first_max_index` names holds the strictly greatest count:
/// no other count is greater, and every earlier count is strictly smaller,
/// so ties are broken towards the first choice in declared order.
pub proof fn lemma_first_max_index(counts: Seq<int>)
    requires
        counts.len() > 0,
    ensures
        0 <= first_max_index(counts) < counts.len(),
        forall|j: int|
            0 <= j < counts.len() ==> #[trigger] counts[j] <= counts[first_max_index(counts)],
        forall|j: int|
            0 <= j < first_max_index(counts) ==> #[trigger] counts[j] < counts[first_max_index(
                counts,
            )],
    decreases counts.len(),
{
    if counts.len() > 1 {
        lemma_first_max_index(counts.drop_last());
        assert(forall|j: int| 0 <= j < counts.len() - 1 ==> counts.drop_last()[j] == counts[j]);
    }
}

/// Running counts, pinned to the declared order of the choice set.
#[derive(Debug)]
pub struct ChoiceTally {
    choices: Vec<String>,
    counts: Vec<usize>,
}

impl ChoiceTally {
    /// The candidate names, in their declared order.
    pub closed spec fn spec_choices(&self) -> Seq<Seq<char>> {
        self.choices.deep_view()
    }

    /// The running counts, aligned with `spec_choices`.
    pub closed spec fn spec_counts(&self) -> Seq<int> {
        self.counts@.map(|_i: int, c: usize| c as int)
    }

    /// Start every candidate at zero.
    pub fn new(choices: Vec<String>) -> (r: Self)
        ensures
            r.spec_choices() == choices.deep_view(),
            r.spec_counts() =~= zero_counts(choices.deep_view().len()),
    {
        let n = choices.len();
        let mut counts: Vec<usize> = Vec::new();
        while counts.len() < n
            invariant
                counts.len() <= n,
                forall|i: int| 0 <= i < counts@.len() ==> counts@[i] == 0usize,
            decreases n - counts.len(),
        {
            counts.push(0);
        }
        ChoiceTally { choices, counts }
    }

    /// The candidate names.
    pub fn choices_ref(&self) -> (r: &Vec<String>)
        ensures
            r.deep_view() == self.spec_choices(),
    {
        &self.choices
    }

    /// The position of `name` in the choice set, if it is a candidate.
    pub fn find_choice(&self, name: &String) -> (r: Option<usize>)
        ensures
            match r {
                Some(i) => i < self.spec_choices().len() && self.spec_choices()[i as int]
                    == name@,
                None => !self.spec_choices().contains(name@),
            },
    {
        let mut i: usize = 0;
        while i < self.choices.len()
            invariant
                i <= self.choices.len(),
                forall|j: int| 0 <= j < i ==> self.spec_choices()[j] != name@,
            decreases self.choices.len() - i,
        {
            if self.choices[i].eq(name) {
                return Some(i);
            }
            i += 1;
        }
        None
    }

    /// The running count of one candidate, or `None` if it is not a
    /// candidate.
    pub fn count_of(&self, name: &String) -> (r: Option<usize>)
        requires
            self.spec_counts().len() == self.spec_choices().len(),
        ensures
            r is Some <==> self.spec_choices().contains(name@),
            match r {
                Some(c) => exists|i: int|
                    0 <= i < self.spec_choices().len() && self.spec_choices()[i] == name@
                        && c as int == #[trigger] self.spec_counts()[i],
                None => true,
            },
    {
        match self.find_choice(name) {
            Some(i) => {
                proof {
                    assert(self.spec_choices().contains(name@));
                    assert(self.spec_counts()[i as int] == self.counts@[i as int] as int);
                }
                Some(self.counts[i])
            },
            None => None,
        }
    }

    /// Validate one ballot's selected names and count them. An unknown
    /// candidate or a duplicate selection is refused and leaves the counts
    /// unchanged; otherwise every selected choice gains exactly one count.
    pub fn apply_names(&mut self, names: &Vec<String>) -> (r: Result<(), InvalidBallot>)
        requires
            old(self).spec_counts().len() == old(self).spec_choices().len(),
            distinct_seq(old(self).spec_choices()),
            forall|i: int|
                0 <= i < old(self).spec_counts().len() ==> #[trigger] old(self).spec_counts()[i]
                    < usize::MAX as int,
        ensures
            final(self).spec_choices() == old(self).spec_choices(),
            final(self).spec_counts().len() == old(self).spec_counts().len(),
            match names_fault(old(self).spec_choices(), names.deep_view()) {
                Some(f) => final(self).spec_counts() == old(self).spec_counts() && r == Result::<
                    (),
                    InvalidBallot,
                >::Err((InvalidBallot { reason: f })),
                None => final(self).spec_counts() =~= bumped(
                    old(self).spec_counts(),
                    old(self).spec_choices(),
                    names.deep_view(),
                ) && r == Result::<(), InvalidBallot>::Ok(()),
            },
    {
        let ghost nseq = names.deep_view();
        // Every selected name must be a candidate.
        let mut j: usize = 0;
        while j < names.len()
            invariant
                j <= names@.len(),
                nseq == names.deep_view(),
                *self == *old(self),
                forall|k: int| 0 <= k < j ==> self.spec_choices().contains(#[trigger] nseq[k]),
            decreases names@.len() - j,
        {
            assert(nseq[j as int] == names@[j as int]@);
            if self.find_choice(&names[j]).is_none() {
                assert(!self.spec_choices().contains(nseq[j as int]));
                assert(!all_known(nseq, self.spec_choices()));
                return Err(InvalidBallot { reason: BallotFault::UnknownCandidate });
            }
            j += 1;
        }
        assert(all_known(nseq, self.spec_choices()));
        // No name may be selected twice.
        let mut a: usize = 0;
        while a < names.len()
            invariant
                a <= names@.len(),
                nseq == names.deep_view(),
                *self == *old(self),
                all_known(nseq, self.spec_choices()),
                forall|p: int, q: int| 0 <= p < q < nseq.len() && p < a ==> nseq[p] != nseq[q],
            decreases names@.len() - a,
        {
            let mut b: usize = a + 1;
            while b < names.len()
                invariant
                    a < b || b == a + 1,
                    a < names@.len(),
                    b <= names@.len(),
                    nseq == names.deep_view(),
                    *self == *old(self),
                    all_known(nseq, self.spec_choices()),
                    forall|q: int| a < q < b ==> nseq[a as int] != nseq[q],
                decreases names@.len() - b,
            {
                if names[a].eq(&names[b]) {
                    assert(nseq[a as int] == names@[a as int]@);
                    assert(nseq[b as int] == names@[b as int]@);
                    assert(nseq[a as int] == nseq[b as int]);
                    assert(!distinct_seq(nseq));
                    return Err(InvalidBallot { reason: BallotFault::DuplicateSelection });
                }
                b += 1;
            }
            a += 1;
        }
        assert(distinct_seq(nseq));
        // Count: each choice that the ballot selects gains one.
        let ghost old_counts = self.spec_counts();
        let mut i: usize = 0;
        while i < self.counts.len()
            invariant
                i <= self.counts@.len(),
                nseq == names.deep_view(),
                self.spec_choices() == old(self).spec_choices(),
                self.spec_counts().len() == old_counts.len(),
                old_counts == old(self).spec_counts(),
                old_counts.len() == self.spec_choices().len(),
                forall|k: int|
                    0 <= k < old_counts.len() ==> #[trigger] old_counts[k] < usize::MAX as int,
                forall|k: int|
                    0 <= k < i ==> #[trigger] self.spec_counts()[k] == bumped(
                        old_counts,
                        self.spec_choices(),
                        nseq,
                    )[k],
                forall|k: int|
                    i <= k < old_counts.len() ==> #[trigger] self.spec_counts()[k]
                        == old_counts[k],
            decreases self.counts@.len() - i,
        {
            assert(self.spec_choices()[i as int] == self.choices@[i as int]@);
            assert(self.spec_counts()[i as int] == self.counts@[i as int] as int);
            assert(self.spec_counts()[i as int] == old_counts[i as int]);
            let ghost pre = self.spec_counts();
            if contains_name(names, &self.choices[i]) {
                let c = self.counts[i];
                self.counts[i] = c + 1;
                assert(self.spec_counts() =~= pre.update(i as int, c + 1int));
            } else {
                assert(!nseq.contains(self.spec_choices()[i as int]));
            }
            assert(bumped(old_counts, self.spec_choices(), nseq)[i as int] == old_counts[i as int]
                + if nseq.contains(self.spec_choices()[i as int]) {
                1int
            } else {
                0int
            });
            i += 1;
        }
        Ok(())
    }

    /// The winning choice: the strictly greatest count, with ties broken
    /// towards the first choice in declared order. `None` only when the
    /// choice set is empty.
    pub fn winner(&self) -> (r: Option<String>)
        requires
            self.spec_counts().len() == self.spec_choices().len(),
        ensures
            r is Some <==> self.spec_choices().len() > 0,
            match r {
                Some(w) => w@ == winner_of(self.spec_choices(), self.spec_counts()),
                None => true,
            },
    {
        if self.counts.len() == 0 {
            return None;
        }
        let mut best: usize = 0;
        let mut i: usize = 1;
        while i < self.counts.len()
            invariant
                self.spec_counts().len() == self.spec_choices().len(),
                1 <= i <= self.counts@.len(),
                best < i,
                best as int == first_max_index(self.spec_counts().take(i as int)),
            decreases self.counts@.len() - i,
        {
            assert(self.spec_counts().take(i + 1).drop_last() =~= self.spec_counts().take(
                i as int,
            ));
            if self.counts[i] > self.counts[best] {
                best = i;
            }
            i += 1;
        }
        assert(self.spec_counts().take(self.counts@.len() as int) =~= self.spec_counts());
        Some(self.choices[best].clone())
    }
}

/// Whether `name` occurs in `names`.
fn contains_name(names: &Vec<String>, name: &String) -> (r: bool)
    ensures
        r == names.deep_view().contains(name@),
{
    let mut j: usize = 0;
    while j < names.len()
        invariant
            j <= names@.len(),
            forall|k: int| 0 <= k < j ==> names.deep_view()[k] != name@,
        decreases names@.len() - j,
    {
        if names[j].eq(name) {
            assert(names.deep_view()[j as int] == name@);
            return true;
        }
        j += 1;
    }
    false
}

/// Type for a ballot box: per-choice counters, tagged with the ballot form
/// the election uses.
#[derive(Debug)]
pub enum Ballots {
    Uninominal(ChoiceTally),
    Approved(ChoiceTally),
}

impl Ballots {
    /// The ballot form this box accepts.
    pub open spec fn spec_form(&self) -> BallotForm {
        match self {
            Ballots::Uninominal(_) => BallotForm::Uninominal,
            Ballots::Approved(_) => BallotForm::Approved,
        }
    }

    /// The counters inside the box.
    pub open spec fn tally(&self) -> ChoiceTally {
        match self {
            Ballots::Uninominal(t) => *t,
            Ballots::Approved(t) => *t,
        }
    }

    /// A fresh ballot box of the given form, every count at zero.
    pub fn new(ballot_form: BallotForm, choices: Vec<String>) -> (r: Self)
        ensures
            r.spec_form() == ballot_form,
            r.tally().spec_choices() == choices.deep_view(),
            r.tally().spec_counts() =~= zero_counts(choices.deep_view().len()),
    {
        let t = ChoiceTally::new(choices);
        match ballot_form {
            BallotForm::Uninominal => Ballots::Uninominal(t),
            BallotForm::Approved => Ballots::Approved(t),
        }
    }

    /// All choices, in declared order.
    pub fn choices(&self) -> (r: &Vec<String>)
        ensures
            r.deep_view() == self.tally().spec_choices(),
    {
        match self {
            Ballots::Uninominal(t) => t.choices_ref(),
            Ballots::Approved(t) => t.choices_ref(),
        }
    }

    /// The ballot form this box accepts.
    pub fn ballot_form(&self) -> (r: BallotForm)
        ensures
            r == self.spec_form(),
    {
        match self {
            Ballots::Uninominal(_) => BallotForm::Uninominal,
            Ballots::Approved(_) => BallotForm::Approved,
        }
    }

    /// Validate and count one ballot's selected names (see
    /// `ChoiceTally::apply_names`).
    pub fn apply_names(&mut self, names: &Vec<String>) -> (r: Result<(), InvalidBallot>)
        requires
            old(self).tally().spec_counts().len() == old(self).tally().spec_choices().len(),
            distinct_seq(old(self).tally().spec_choices()),
            forall|i: int|
                0 <= i < old(self).tally().spec_counts().len() ==> #[trigger] old(
                    self,
                ).tally().spec_counts()[i] < usize::MAX as int,
        ensures
            final(self).spec_form() == old(self).spec_form(),
            final(self).tally().spec_choices() == old(self).tally().spec_choices(),
            final(self).tally().spec_counts().len() == old(self).tally().spec_counts().len(),
            match names_fault(old(self).tally().spec_choices(), names.deep_view()) {
                Some(f) => final(self).tally().spec_counts() == old(self).tally().spec_counts()
                    && r == Result::<(), InvalidBallot>::Err((InvalidBallot { reason: f })),
                None => final(self).tally().spec_counts() =~= bumped(
                    old(self).tally().spec_counts(),
                    old(self).tally().spec_choices(),
                    names.deep_view(),
                ) && r == Result::<(), InvalidBallot>::Ok(()),
            },
    {
        match self {
            Ballots::Uninominal(t) => t.apply_names(names),
            Ballots::Approved(t) => t.apply_names(names),
        }
    }

    /// The running count of one candidate (see `ChoiceTally::count_of`).
    pub fn count_of(&self, name: &String) -> (r: Option<usize>)
        requires
            self.tally().spec_counts().len() == self.tally().spec_choices().len(),
        ensures
            r is Some <==> self.tally().spec_choices().contains(name@),
            match r {
                Some(c) => exists|i: int|
                    0 <= i < self.tally().spec_choices().len() && self.tally().spec_choices()[i]
                        == name@ && c as int == #[trigger] self.tally().spec_counts()[i],
                None => true,
            },
    {
        match self {
            Ballots::Uninominal(t) => t.count_of(name),
            Ballots::Approved(t) => t.count_of(name),
        }
    }

    /// The winning choice (see `ChoiceTally::winner`).
    pub fn winner(&self) -> (r: Option<String>)
        requires
            self.tally().spec_counts().len() == self.tally().spec_choices().len(),
        ensures
            r is Some <==> self.tally().spec_choices().len() > 0,
            match r {
                Some(w) => w@ == winner_of(self.tally().spec_choices(), self.tally().spec_counts()),
                None => true,
            },
    {
        match self {
            Ballots::Uninominal(t) => t.winner(),
            Ballots::Approved(t) => t.winner(),
        }
    }
}

/// Contain all the information needed for an election, as published to its
/// voters: the voting method's name, the ballot form, and the choices.
#[derive(Debug)]
pub struct VotingSystemInfo {
    name: String,
    ballot_form: BallotForm,
    choices: Vec<String>,
}

impl VotingSystemInfo {
    /// The voting method's name.
    pub closed spec fn spec_name(&self) -> Seq<char> {
        self.name@
    }

    /// The ballot form voters must use.
    pub closed spec fn spec_form(&self) -> BallotForm {
        self.ballot_form
    }

    /// The candidate names, in declared order.
    pub closed spec fn spec_choices(&self) -> Seq<Seq<char>> {
        self.choices.deep_view()
    }

    /// The published choice set is a valid one.
    pub open spec fn wf(&self) -> bool {
        valid_choice_set(self.spec_choices())
    }

    pub fn new(name: &str, ballot_form: BallotForm, choices: Vec<String>) -> (r: Self)
        requires
            valid_choice_set(choices.deep_view()),
        ensures
            r.wf(),
            r.spec_name() == name@,
            r.spec_form() == ballot_form,
            r.spec_choices() == choices.deep_view(),
    {
        VotingSystemInfo { name: name.to_owned(), ballot_form, choices }
    }

    /// The voting method's name.
    pub fn name(&self) -> (r: &str)
        ensures
            r@ == self.spec_name(),
    {
        self.name.as_str()
    }

    /// The ballot form voters must use.
    pub fn ballot_form(&self) -> (r: BallotForm)
        ensures
            r == self.spec_form(),
    {
        self.ballot_form
    }

    /// The candidate names, in declared order.
    pub fn choices(&self) -> (r: &Vec<String>)
        ensures
            r.deep_view() == self.spec_choices(),
    {
        &self.choices
    }

    /// Whether `name` is one of the published choices. Clients validate a
    /// voter's pick against this before sending it; the server still
    /// re-validates independently.
    pub fn has_choice(&self, name: &String) -> (r: bool)
        ensures
            r == self.spec_choices().contains(name@),
    {
        contains_name(&self.choices, name)
    }
}

/// A tally engine: validates each ballot against the election's ballot form
/// and choice set, counts the accepted ones, and names the winner.
pub trait VotingSystem: Sized {
    /// The engine's internal invariant: counts line up with the choices,
    /// the choice set is valid, and no counter exceeds the total of
    /// ballots cast.
    spec fn wf(&self) -> bool;

    /// The voting method's registered name.
    spec fn spec_name(&self) -> Seq<char>;

    /// The ballot form this engine expects.
    spec fn spec_form(&self) -> BallotForm;

    /// The candidate names, in declared order.
    spec fn spec_choices(&self) -> Seq<Seq<char>>;

    /// The per-choice counts, aligned with `spec_choices`.
    spec fn spec_counts(&self) -> Seq<int>;

    /// The total number of ballots cast.
    spec fn spec_total(&self) -> int;

    /// Get the name of the voting system.
    fn get_name(&self) -> (r: &str)
        ensures
            r@ == self.spec_name(),
    ;

    /// Get the ballot form.
    fn get_ballot_form(&self) -> (r: BallotForm)
        ensures
            r == self.spec_form(),
    ;

    /// Get all choices.
    fn get_choices(&self) -> (r: &Vec<String>)
        ensures
            r.deep_view() == self.spec_choices(),
    ;

    /// Get the total number of ballots.
    fn get_count(&self) -> (r: usize)
        ensures
            r as int == self.spec_total(),
    ;

    /// Get all the information about this election.
    fn get_info(&self) -> (r: VotingSystemInfo)
        requires
            self.wf(),
        ensures
            r.wf(),
            r.spec_name() == self.spec_name(),
            r.spec_form() == self.spec_form(),
            r.spec_choices() == self.spec_choices(),
    ;

    /// Get the running count of one candidate, or `None` if it is not a
    /// candidate.
    fn count_of(&self, name: &String) -> (r: Option<usize>)
        requires
            self.wf(),
        ensures
            r is Some <==> self.spec_choices().contains(name@),
            match r {
                Some(c) => exists|i: int|
                    0 <= i < self.spec_choices().len() && self.spec_choices()[i] == name@ && c
                        as int == #[trigger] self.spec_counts()[i],
                None => true,
            },
    ;

    /// Apply one ballot. A ballot of the wrong form, naming an unknown
    /// candidate, or selecting the same choice twice is refused with the
    /// matching fault and changes nothing; an accepted ballot gives each
    /// selected choice one more count and raises the total by one.
    fn vote(&mut self, ballot: &SingleBallot) -> (r: Result<(), InvalidBallot>)
        requires
            old(self).wf(),
            old(self).spec_total() < usize::MAX as int,
        ensures
            final(self).wf(),
            final(self).spec_name() == old(self).spec_name(),
            final(self).spec_form() == old(self).spec_form(),
            final(self).spec_choices() == old(self).spec_choices(),
            match ballot_fault(old(self).spec_form(), old(self).spec_choices(), *ballot) {
                Some(f) => {
                    &&& r == Result::<(), InvalidBallot>::Err((InvalidBallot { reason: f }))
                    &&& final(self).spec_counts() == old(self).spec_counts()
                    &&& final(self).spec_total() == old(self).spec_total()
                },
                None => {
                    &&& r == Result::<(), InvalidBallot>::Ok(())
                    &&& final(self).spec_counts() =~= bumped(
                        old(self).spec_counts(),
                        old(self).spec_choices(),
                        ballot_names(*ballot),
                    )
                    &&& final(self).spec_total() == old(self).spec_total() + 1
                },
            },
    ;

    /// Calculate the election's result: the choice with the greatest
    /// count, ties broken towards the first choice in declared order.
    /// `None` only when the choice set is empty.
    fn result(&self) -> (r: Option<String>)
        requires
            self.wf(),
        ensures
            r is Some <==> self.spec_choices().len() > 0,
            match r {
                Some(w) => w@ == winner_of(self.spec_choices(), self.spec_counts()),
                None => true,
            },
    ;
}

/// Clone a list of candidate names.
pub fn clone_strings(v: &Vec<String>) -> (r: Vec<String>)
    ensures
        r.deep_view() == v.deep_view(),
{
    let mut r: Vec<String> = Vec::new();
    let mut i: usize = 0;
    while i < v.len()
        invariant
            i <= v@.len(),
            r@.len() == i,
            forall|k: int| 0 <= k < i ==> #[trigger] r.deep_view()[k] == v.deep_view()[k],
        decreases v@.len() - i,
    {
        let ghost prev = r@;
        proof {
            assert forall|k: int| 0 <= k < i implies #[trigger] prev[k]@ == v.deep_view()[k] by {
                assert(r.deep_view()[k] == v.deep_view()[k]);
                assert(r.deep_view()[k] == prev[k]@);
            }
        }
        let c = v[i].clone();
        assert(c@ == v.deep_view()[i as int]);
        r.push(c);
        proof {
            assert forall|k: int| 0 <= k < i + 1 implies #[trigger] r.deep_view()[k]
                == v.deep_view()[k] by {
                assert(r@ == prev.push(c));
                assert(r.deep_view()[k] == r@[k]@);
                if k < i {
                    assert(r@[k] == prev[k]);
                } else {
                    assert(r@[k] == c);
                }
            }
        }
        i += 1;
    }
    assert(r.deep_view() =~= v.deep_view());
    r
}

} // verus!
