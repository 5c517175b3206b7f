//! Tests of the tally engines and the voting-method registry.

use votally::voting_system::{
    correct_voting_system, find_info_voting_system, find_voting_system, Approval, BallotFault,
    BallotForm, Plurality, SingleBallot, VotingSystem, VotingSystemEnum,
};

#[test]
fn plurality_voting() {
    let mut p = Plurality::new(vec![String::from("A"), String::from("B"), String::from("C")]);

    for v in vec!["A", "B", "A", "C", "B", "A"] {
        p.vote(&SingleBallot::Uninominal(v.to_string())).unwrap();
    }

    assert_eq!(Some("A"), p.result().as_deref());
}

#[test]
fn approval_voting() {
    let mut p = Approval::new(vec![String::from("A"), String::from("B"), String::from("C")]);

    for v in vec!["A", "B", "A", "C", "B", "A"] {
        p.vote(&SingleBallot::Approved(vec![v.to_string()])).unwrap();
    }

    assert_eq!(Some("A"), p.result().as_deref());
}

#[test]
fn approval_scenario_counts_and_winner() {
    let mut p = Approval::new(vec![String::from("A"), String::from("B"), String::from("C")]);
    p.vote(&SingleBallot::Approved(vec![String::from("A"), String::from("B")])).unwrap();
    p.vote(&SingleBallot::Approved(vec![String::from("B")])).unwrap();
    assert_eq!(Some(1), p.count_of(&String::from("A")));
    assert_eq!(Some(2), p.count_of(&String::from("B")));
    assert_eq!(Some(0), p.count_of(&String::from("C")));
    assert_eq!(Some("B"), p.result().as_deref());
    assert_eq!(2, p.get_count());
}

#[test]
fn approval_ballot_bumps_each_selected_choice_once() {
    let mut p = Approval::new(vec![String::from("A"), String::from("B"), String::from("C")]);
    p.vote(&SingleBallot::Approved(vec![String::from("C"), String::from("A")])).unwrap();
    assert_eq!(Some(1), p.count_of(&String::from("A")));
    assert_eq!(Some(0), p.count_of(&String::from("B")));
    assert_eq!(Some(1), p.count_of(&String::from("C")));
    assert_eq!(1, p.get_count());
}

#[test]
fn unknown_candidate_leaves_tally_unchanged() {
    let mut p = Plurality::new(vec![String::from("A"), String::from("B")]);
    let e = p.vote(&SingleBallot::Uninominal(String::from("C"))).unwrap_err();
    assert_eq!(BallotFault::UnknownCandidate, e.reason);
    assert_eq!(Some(0), p.count_of(&String::from("A")));
    assert_eq!(Some(0), p.count_of(&String::from("B")));
    assert_eq!(None, p.count_of(&String::from("C")));
    assert_eq!(0, p.get_count());
}

#[test]
fn approval_unknown_candidate_rejected() {
    let mut p = Approval::new(vec![String::from("A"), String::from("B")]);
    let e = p.vote(&SingleBallot::Approved(vec![String::from("A"), String::from("Z")]));
    assert_eq!(BallotFault::UnknownCandidate, e.unwrap_err().reason);
    assert_eq!(Some(0), p.count_of(&String::from("A")));
    assert_eq!(0, p.get_count());
}

#[test]
fn duplicate_selection_leaves_tally_unchanged() {
    let mut p = Approval::new(vec![String::from("A"), String::from("B"), String::from("C")]);
    let e = p.vote(&SingleBallot::Approved(vec![String::from("A"), String::from("A")]));
    assert_eq!(BallotFault::DuplicateSelection, e.unwrap_err().reason);
    assert_eq!(Some(0), p.count_of(&String::from("A")));
    assert_eq!(Some(0), p.count_of(&String::from("B")));
    assert_eq!(Some(0), p.count_of(&String::from("C")));
    assert_eq!(0, p.get_count());
}

#[test]
fn wrong_form_is_malformed_input() {
    let mut p = Plurality::new(vec![String::from("A"), String::from("B")]);
    let e = p.vote(&SingleBallot::Approved(vec![String::from("A")]));
    assert_eq!(BallotFault::MalformedInput, e.unwrap_err().reason);

    let mut a = Approval::new(vec![String::from("A"), String::from("B")]);
    let e = a.vote(&SingleBallot::Uninominal(String::from("A")));
    assert_eq!(BallotFault::MalformedInput, e.unwrap_err().reason);
    assert_eq!("invalid ballot: malformed input", e.unwrap_err().message());
}

#[test]
fn tie_breaks_towards_first_declared_choice() {
    let mut p = Plurality::new(vec![String::from("B"), String::from("A")]);
    p.vote(&SingleBallot::Uninominal(String::from("A"))).unwrap();
    p.vote(&SingleBallot::Uninominal(String::from("B"))).unwrap();
    assert_eq!(Some("B"), p.result().as_deref());

    let mut q = Plurality::new(vec![String::from("A"), String::from("B")]);
    q.vote(&SingleBallot::Uninominal(String::from("B"))).unwrap();
    q.vote(&SingleBallot::Uninominal(String::from("A"))).unwrap();
    assert_eq!(Some("A"), q.result().as_deref());
}

#[test]
fn every_accepted_ballot_raises_the_total_by_one() {
    let mut p = Plurality::new(vec![String::from("A"), String::from("B"), String::from("C")]);
    let names = ["A", "B", "C"];
    for k in 0..60 {
        p.vote(&SingleBallot::Uninominal(names[k % 3].to_string())).unwrap();
        assert_eq!(k + 1, p.get_count());
    }
    assert_eq!(60, p.get_count());
    assert_eq!(Some(20), p.count_of(&String::from("A")));
}

#[test]
fn registry_constructs_the_named_engine() {
    let choices = vec![String::from("A"), String::from("B")];
    let sys = find_voting_system("plurality", choices.clone()).unwrap();
    assert!(matches!(sys, VotingSystemEnum::Plurality(_)));
    assert_eq!("plurality", sys.get_name());
    assert_eq!(BallotForm::Uninominal, sys.get_ballot_form());
    assert_eq!(0, sys.get_count());
    assert_eq!(&choices, sys.get_choices());

    let sys = find_voting_system("approval", choices.clone()).unwrap();
    assert!(matches!(sys, VotingSystemEnum::Approval(_)));
    assert_eq!("approval", sys.get_name());
    assert_eq!(BallotForm::Approved, sys.get_ballot_form());
}

#[test]
fn unknown_method_is_rejected() {
    let choices = vec![String::from("A"), String::from("B")];
    let e = find_voting_system("condorcet", choices.clone()).unwrap_err();
    assert_eq!("condorcet", e.0);
    assert_eq!("unknown voting system: condorcet", e.message());

    let e = find_info_voting_system("condorcet", choices).unwrap_err();
    assert_eq!("condorcet", e.0);

    assert!(correct_voting_system("plurality").is_ok());
    assert!(correct_voting_system("approval").is_ok());
    assert!(correct_voting_system("borda").is_err());
}

#[test]
fn registry_info_names_form_and_choices() {
    let choices = vec![String::from("A"), String::from("B"), String::from("C")];
    let info = find_info_voting_system("approval", choices.clone()).unwrap();
    assert_eq!("approval", info.name());
    assert_eq!(BallotForm::Approved, info.ballot_form());
    assert_eq!(&choices, info.choices());
    assert!(info.has_choice(&String::from("B")));
    assert!(!info.has_choice(&String::from("Z")));
}

#[test]
fn engine_info_round_trip() {
    let p = Plurality::new(vec![String::from("A"), String::from("B")]);
    let info = p.get_info();
    assert_eq!("plurality", info.name());
    assert_eq!(BallotForm::Uninominal, info.ballot_form());
    assert_eq!(vec![String::from("A"), String::from("B")], *info.choices());
}
