//! Tests of the wire protocol: the info line, ballot lines and the result
//! line.

use votally::protocol::{
    encode_info, encode_result, parse_ballot, parse_info, split_fields, trim_newline,
};
use votally::voting_system::{find_info_voting_system, BallotForm, SingleBallot};

#[test]
fn split_keeps_fields_in_order_with_trailing_empty() {
    assert_eq!(vec!["a", "b", ""], split_fields("a,b,"));
    assert_eq!(vec!["abc"], split_fields("abc"));
    assert_eq!(vec!["", ""], split_fields(","));
    assert_eq!(vec![""], split_fields(""));
    assert_eq!(vec!["", "x", "", "y"], split_fields(",x,,y"));
}

#[test]
fn info_line_is_comma_terminated() {
    let choices = vec![String::from("A"), String::from("B")];
    let info = find_info_voting_system("plurality", choices).unwrap();
    assert_eq!("plurality,uninominal,A,B,", encode_info(&info));

    let choices = vec![String::from("A"), String::from("B"), String::from("C")];
    let info = find_info_voting_system("approval", choices).unwrap();
    assert_eq!("approval,approved,A,B,C,", encode_info(&info));
}

#[test]
fn info_line_round_trips() {
    let choices = vec![String::from("A"), String::from("B"), String::from("C")];
    let info = find_info_voting_system("approval", choices.clone()).unwrap();
    let line = encode_info(&info);
    let back = parse_info(&line).unwrap();
    assert_eq!("approval", back.name());
    assert_eq!(BallotForm::Approved, back.ballot_form());
    assert_eq!(&choices, back.choices());
}

#[test]
fn malformed_info_lines_are_refused() {
    // Empty or short lines.
    assert!(parse_info("").is_none());
    assert!(parse_info("plurality,uninominal,").is_none());
    // One choice only.
    assert!(parse_info("plurality,uninominal,A,").is_none());
    // No final comma.
    assert!(parse_info("plurality,uninominal,A,B").is_none());
    // Unknown ballot form.
    assert!(parse_info("plurality,ranked,A,B,").is_none());
    // A repeated choice.
    assert!(parse_info("plurality,uninominal,A,A,").is_none());
}

#[test]
fn ballot_lines_parse_by_form() {
    let b = parse_ballot("Alice", BallotForm::Uninominal);
    assert_eq!(SingleBallot::Uninominal(String::from("Alice")), b);

    let b = parse_ballot("A,C", BallotForm::Approved);
    assert_eq!(SingleBallot::Approved(vec![String::from("A"), String::from("C")]), b);
}

#[test]
fn trailing_newline_is_stripped_once() {
    assert_eq!("A", trim_newline("A\n"));
    assert_eq!("A", trim_newline("A"));
    assert_eq!("", trim_newline(""));
    assert_eq!("A\n", trim_newline("A\n\n"));
}

#[test]
fn result_line_is_newline_terminated() {
    assert_eq!("A\n", encode_result("A"));
}
