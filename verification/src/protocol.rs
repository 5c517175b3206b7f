//! The line-oriented wire protocol between the poll server and its voter
//! clients. Every line is newline-terminated UTF-8. On connect the server
//! sends one info line: the voting method's name, the ballot form's name
//! and the choices, each field followed by a comma (so the line ends in a
//! comma and splitting on commas yields one trailing empty field). A
//! ballot line is a bare candidate name (uninominal form) or a
//! comma-separated list of candidate names (approved form). The result
//! line is the winning choice's name.

use vstd::prelude::*;
use vstd::string::StrSliceExecFns;
use vstd::string::StringExecFns;

use crate::voting_system::str_eq;
use crate::voting_system::{
    ballot_form_of, ballot_names, distinct_seq, valid_choice_set, BallotForm, SingleBallot,
    VotingSystemInfo,
};

verus! {

/// The fields of a line, split on commas: maximal comma-free chunks, kept
/// in order, empty chunks included. Never empty: a line without commas is
/// one field.
pub open spec fn spec_split(s: Seq<char>) -> Seq<Seq<char>>
    decreases s.len(),
{
    if s.len() == 0 {
        seq![Seq::<char>::empty()]
    } else if s[0] == ',' {
        seq![Seq::<char>::empty()] + spec_split(s.drop_first())
    } else {
        let rest = spec_split(s.drop_first());
        seq![seq![s[0]] + rest[0]] + rest.drop_first()
    }
}

/// Fields joined back into a line, each field followed by one comma.
pub open spec fn comma_terminated(fields: Seq<Seq<char>>) -> Seq<char>
    decreases fields.len(),
{
    if fields.len() == 0 {
        Seq::<char>::empty()
    } else {
        fields.first() + seq![','] + comma_terminated(fields.drop_first())
    }
}

/// The wire name of a ballot form.
pub open spec fn spec_form_name(f: BallotForm) -> Seq<char> {
    match f {
        BallotForm::Uninominal => "uninominal"@,
        BallotForm::Approved => "approved"@,
    }
}

/// A comma-free line is a single field.
pub proof fn lemma_split_no_comma(s: Seq<char>)
    requires
        forall|k: int| 0 <= k < s.len() ==> s[k] != ',',
    ensures
        spec_split(s) =~~= seq![s],
    decreases s.len(),
{
    if s.len() == 0 {
        assert(s =~= Seq::<char>::empty());
    } else {
        lemma_split_no_comma(s.drop_first());
        let rest = spec_split(s.drop_first());
        assert(rest[0] == s.drop_first());
        assert(seq![s[0]] + s.drop_first() =~= s);
        assert(rest.drop_first() =~~= Seq::<Seq<char>>::empty());
    }
}

/// Splitting takes the first comma-free field off the front of the line.
pub proof fn lemma_split_head(p: Seq<char>, rest: Seq<char>)
    requires
        forall|k: int| 0 <= k < p.len() ==> p[k] != ',',
    ensures
        spec_split(p + seq![','] + rest) =~~= seq![p] + spec_split(rest),
    decreases p.len(),
{
    let s = p + seq![','] + rest;
    if p.len() == 0 {
        assert(s[0] == ',');
        assert(s.drop_first() =~= rest);
    } else {
        assert(s[0] == p[0]);
        assert(s[0] != ',');
        lemma_split_head(p.drop_first(), rest);
        assert(s.drop_first() =~= p.drop_first() + seq![','] + rest);
        let r = spec_split(s.drop_first());
        assert(r =~~= seq![p.drop_first()] + spec_split(rest));
        assert(r[0] == p.drop_first());
        assert(seq![s[0]] + r[0] =~= p);
        assert(r.drop_first() =~~= spec_split(rest));
    }
}

/// Joining comma-terminated fields and splitting the line gives the
/// fields back, with the one trailing empty field the final comma makes.
pub proof fn lemma_split_comma_terminated(fields: Seq<Seq<char>>)
    requires
        forall|i: int, k: int|
            0 <= i < fields.len() && 0 <= k < fields[i].len() ==> #[trigger] fields[i][k] != ',',
    ensures
        spec_split(comma_terminated(fields)) =~~= fields.push(Seq::<char>::empty()),
    decreases fields.len(),
{
    if fields.len() == 0 {
        assert(comma_terminated(fields) =~= Seq::<char>::empty());
        assert(spec_split(Seq::<char>::empty()) =~~= seq![Seq::<char>::empty()]);
    } else {
        lemma_split_comma_terminated(fields.drop_first());
        assert(forall|k: int| 0 <= k < fields.first().len() ==> fields.first()[k] != ',');
        lemma_split_head(fields.first(), comma_terminated(fields.drop_first()));
        assert(fields.drop_first().push(Seq::<char>::empty()) =~~= fields.push(
            Seq::<char>::empty(),
        ).drop_first());
        assert(seq![fields.first()] + fields.push(Seq::<char>::empty()).drop_first()
            =~~= fields.push(Seq::<char>::empty()));
    }
}

/// Joining one more field appends the field and its comma.
pub proof fn lemma_comma_terminated_push(fields: Seq<Seq<char>>, x: Seq<char>)
    ensures
        comma_terminated(fields.push(x)) =~= comma_terminated(fields) + x + seq![','],
    decreases fields.len(),
{
    let fp = fields.push(x);
    if fields.len() == 0 {
        assert(fp.first() == x);
        assert(fp.drop_first() =~~= Seq::<Seq<char>>::empty());
        assert(comma_terminated(fp.drop_first()) =~= Seq::<char>::empty());
        assert(comma_terminated(fp) =~= x + seq![',']);
    } else {
        assert(fp.first() == fields.first());
        assert(fp.drop_first() =~~= fields.drop_first().push(x));
        lemma_comma_terminated_push(fields.drop_first(), x);
        assert(comma_terminated(fp) =~= fields.first() + seq![','] + (comma_terminated(
            fields.drop_first(),
        ) + x + seq![',']));
        assert(comma_terminated(fields) =~= fields.first() + seq![','] + comma_terminated(
            fields.drop_first(),
        ));
    }
}

/// A list of strings seen deeply is its strings' characters, pointwise.
pub proof fn lemma_deep_view_is_views(v: Vec<String>)
    ensures
        v.deep_view().len() == v@.len(),
        forall|k: int| 0 <= k < v@.len() ==> #[trigger] v.deep_view()[k] == v@[k]@,
{
}

/// Split one line into its comma-separated fields.
pub fn split_fields(line: &str) -> (r: Vec<String>)
    ensures
        r.deep_view() =~~= spec_split(line@),
{
    let n = line.unicode_len();
    let mut fields: Vec<String> = Vec::new();
    let mut st: usize = 0;
    let mut i: usize = 0;
    proof {
        assert(line@.skip(0) =~= line@);
        assert(fields.deep_view() =~~= Seq::<Seq<char>>::empty());
        assert(fields.deep_view() + spec_split(line@) =~~= spec_split(line@));
    }
    while i < n
        invariant
            n == line@.len(),
            st <= i <= n,
            forall|k: int| st <= k < i ==> line@[k] != ',',
            spec_split(line@) =~~= fields.deep_view() + spec_split(line@.skip(st as int)),
        decreases n - i,
    {
        if line.get_char(i) == ',' {
            let field = line.substring_char(st, i).to_owned();
            let ghost prevv = fields@;
            let ghost prevdv = fields.deep_view();
            proof {
                lemma_deep_view_is_views(fields);
            }
            fields.push(field);
            proof {
                lemma_deep_view_is_views(fields);
                let p = line@.subrange(st as int, i as int);
                assert(field@ == p);
                assert(fields@ == prevv.push(field));
                assert(fields.deep_view() =~~= prevdv.push(p)) by {
                    assert forall|k: int| 0 <= k < prevv.len() + 1 implies fields.deep_view()[k]
                        == prevdv.push(p)[k] by {
                        if k < prevv.len() {
                            assert(fields@[k] == prevv[k]);
                        } else {
                            assert(fields@[k] == field);
                        }
                    }
                }
                let tail = line@.skip(st as int);
                lemma_split_head(p, line@.skip(i + 1));
                assert(tail =~= p + seq![','] + line@.skip(i + 1));
                assert(spec_split(line@) =~~= prevdv.push(p) + spec_split(line@.skip(i + 1)));
            }
            st = i + 1;
        }
        i += 1;
    }
    let field = line.substring_char(st, n).to_owned();
    let ghost prevv = fields@;
    let ghost prevdv = fields.deep_view();
    proof {
        lemma_deep_view_is_views(fields);
    }
    fields.push(field);
    proof {
        lemma_deep_view_is_views(fields);
        let tail = line@.skip(st as int);
        assert(field@ == line@.subrange(st as int, n as int));
        assert(tail =~= line@.subrange(st as int, n as int));
        lemma_split_no_comma(tail);
        assert(fields@ == prevv.push(field));
        assert(fields.deep_view() =~~= prevdv.push(field@)) by {
            assert forall|k: int| 0 <= k < prevv.len() + 1 implies fields.deep_view()[k]
                == prevdv.push(field@)[k] by {
                if k < prevv.len() {
                    assert(fields@[k] == prevv[k]);
                } else {
                    assert(fields@[k] == field);
                }
            }
        }
        assert(fields.deep_view() =~~= prevdv + spec_split(tail));
    }
    fields
}

/// Encode the info line the server sends on connect: the voting method's
/// name, the ballot form's name and every choice, each followed by one
/// comma.
pub fn encode_info(info: &VotingSystemInfo) -> (r: String)
    ensures
        r@ == comma_terminated(
            seq![info.spec_name(), spec_form_name(info.spec_form())] + info.spec_choices(),
        ),
{
    let ghost base = seq![info.spec_name(), spec_form_name(info.spec_form())];
    let mut out = String::new();
    out.append(info.name());
    out.append(",");
    match info.ballot_form() {
        BallotForm::Uninominal => out.append("uninominal"),
        BallotForm::Approved => out.append("approved"),
    }
    out.append(",");
    proof {
        reveal_strlit(",");
        assert(","@ =~= seq![',']);
        let fname = spec_form_name(info.spec_form());
        assert(base.drop_first() =~~= seq![fname]);
        assert(seq![fname].drop_first() =~~= Seq::<Seq<char>>::empty());
        assert(comma_terminated(Seq::<Seq<char>>::empty()) =~= Seq::<char>::empty());
        assert(comma_terminated(seq![fname]) =~= fname + seq![',']);
        assert(comma_terminated(base) =~= info.spec_name() + seq![','] + (fname + seq![',']));
        assert(out@ =~= comma_terminated(base));
        assert(info.spec_choices().take(0) =~~= Seq::<Seq<char>>::empty());
        assert(base + info.spec_choices().take(0) =~~= base);
        assert(out@ =~= comma_terminated(base + info.spec_choices().take(0)));
    }
    let choices = info.choices();
    let mut i: usize = 0;
    while i < choices.len()
        invariant
            choices.deep_view() == info.spec_choices(),
            base == seq![info.spec_name(), spec_form_name(info.spec_form())],
            i <= choices@.len(),
            out@ =~= comma_terminated(base + info.spec_choices().take(i as int)),
        decreases choices@.len() - i,
    {
        out.append(choices[i].as_str());
        out.append(",");
        proof {
            reveal_strlit(",");
            assert(","@ =~= seq![',']);
            lemma_deep_view_is_views(*choices);
            let c = info.spec_choices()[i as int];
            assert(choices@[i as int]@ == c);
            let pre = base + info.spec_choices().take(i as int);
            lemma_comma_terminated_push(pre, c);
            assert(pre.push(c) =~~= base + info.spec_choices().take(i + 1));
            assert(out@ =~= comma_terminated(base + info.spec_choices().take(i + 1)));
        }
        i += 1;
    }
    proof {
        assert(info.spec_choices().take(choices@.len() as int) =~~= info.spec_choices());
    }
    out
}

/// What a well-formed info line holds: the method name, a known ballot
/// form and a valid choice set, each field comma-terminated, so that the
/// split ends in one trailing empty field.
pub open spec fn spec_parse_info(s: Seq<char>) -> Option<(Seq<char>, BallotForm, Seq<Seq<char>>)> {
    let fs = spec_split(s);
    if fs.len() >= 4 && fs.last() == Seq::<char>::empty() && (fs[1] == spec_form_name(
        BallotForm::Uninominal,
    ) || fs[1] == spec_form_name(BallotForm::Approved)) && valid_choice_set(
        fs.subrange(2, fs.len() - 1),
    ) {
        let form = if fs[1] == spec_form_name(BallotForm::Uninominal) {
            BallotForm::Uninominal
        } else {
            BallotForm::Approved
        };
        Some((fs[0], form, fs.subrange(2, fs.len() - 1)))
    } else {
        None
    }
}

/// Decode the info line a client received. An empty or malformed line —
/// too few fields, no final comma, an unknown ballot form, fewer than two
/// choices or a repeated choice — yields `None`, which the client must
/// treat as a hard connection error.
pub fn parse_info(line: &str) -> (r: Option<VotingSystemInfo>)
    ensures
        r is Some <==> spec_parse_info(line@) is Some,
        match r {
            Some(info) => {
                &&& info.wf()
                &&& spec_parse_info(line@) == Some(
                    (info.spec_name(), info.spec_form(), info.spec_choices()),
                )
            },
            None => true,
        },
{
    let fields = split_fields(line);
    let ghost fs = spec_split(line@);
    let flen = fields.len();
    proof {
        lemma_deep_view_is_views(fields);
        assert(fs.len() == flen);
    }
    if flen < 4 {
        return None;
    }
    if !fields[flen - 1].as_str().is_empty() {
        proof {
            assert(fs.last() == fields@[flen - 1]@);
            assert(fs.last() != Seq::<char>::empty());
        }
        return None;
    }
    proof {
        assert(fs.last() == fields@[flen - 1]@);
        assert(fs.last() =~= Seq::<char>::empty());
    }
    let form: BallotForm;
    if str_eq(fields[1].as_str(), "uninominal") {
        form = BallotForm::Uninominal;
    } else if str_eq(fields[1].as_str(), "approved") {
        form = BallotForm::Approved;
    } else {
        proof {
            assert(fs[1] == fields@[1]@);
        }
        return None;
    }
    let mut choices: Vec<String> = Vec::new();
    let mut k: usize = 2;
    while k < flen - 1
        invariant
            2 <= k <= flen - 1,
            4 <= flen == fields@.len(),
            fs == spec_split(line@),
            fs.len() == flen,
            fields.deep_view() == fs,
            forall|t: int| 0 <= t < fields@.len() ==> #[trigger] fields.deep_view()[t]
                == fields@[t]@,
            choices@.len() == k - 2,
            forall|t: int| 0 <= t < k - 2 ==> #[trigger] choices.deep_view()[t] == fs[t + 2],
        decreases flen - k,
    {
        let ghost prevv = choices@;
        let ghost prevdv = choices.deep_view();
        proof {
            lemma_deep_view_is_views(choices);
            assert(forall|t: int| 0 <= t < prevv.len() ==> #[trigger] prevdv[t] == prevv[t]@);
            assert(forall|t: int| 0 <= t < k - 2 ==> #[trigger] prevdv[t] == fs[t + 2]);
        }
        let c = fields[k].clone();
        choices.push(c);
        proof {
            lemma_deep_view_is_views(choices);
            assert(choices@ == prevv.push(c));
            assert(c@ == fields@[k as int]@);
            assert(fields@[k as int]@ == fs[k as int]);
            assert forall|t: int| 0 <= t < k - 1 implies #[trigger] choices.deep_view()[t] == fs[t
                + 2] by {
                if t < k - 2 {
                    assert(choices@[t] == prevv[t]);
                    assert(choices.deep_view()[t] == prevv[t]@);
                    assert(prevdv[t] == fs[t + 2]);
                } else {
                    assert(choices@[t] == c);
                }
            }
        }
        k += 1;
    }
    proof {
        lemma_deep_view_is_views(choices);
        assert(choices.deep_view() =~~= fs.subrange(2, flen - 1));
    }
    let ghost cseq = choices.deep_view();
    if choices.len() < 2 {
        return None;
    }
    // No choice may repeat: the published choice set is a valid one.
    let mut a: usize = 0;
    while a < choices.len()
        invariant
            a <= choices@.len(),
            fs == spec_split(line@),
            fs.len() == flen,
            4 <= flen,
            cseq == choices.deep_view(),
            cseq =~~= fs.subrange(2, flen - 1),
            choices@.len() == cseq.len(),
            forall|t: int| 0 <= t < choices@.len() ==> #[trigger] choices.deep_view()[t]
                == choices@[t]@,
            forall|p: int, q: int| 0 <= p < q < cseq.len() && p < a ==> cseq[p] != cseq[q],
        decreases choices@.len() - a,
    {
        let mut b: usize = a + 1;
        while b < choices.len()
            invariant
                a < b || b == a + 1,
                a < choices@.len(),
                b <= choices@.len(),
                fs == spec_split(line@),
                fs.len() == flen,
                4 <= flen,
                cseq == choices.deep_view(),
                cseq =~~= fs.subrange(2, flen - 1),
                choices@.len() == cseq.len(),
                forall|t: int| 0 <= t < choices@.len() ==> #[trigger] choices.deep_view()[t]
                    == choices@[t]@,
                forall|q: int| a < q < b ==> cseq[a as int] != cseq[q],
            decreases choices@.len() - b,
        {
            if choices[a].eq(&choices[b]) {
                proof {
                    assert(cseq[a as int] == cseq[b as int]);
                    assert(!distinct_seq(cseq));
                    assert(!valid_choice_set(fs.subrange(2, flen - 1)));
                }
                return None;
            }
            b += 1;
        }
        a += 1;
    }
    proof {
        assert(valid_choice_set(cseq));
    }
    let info = VotingSystemInfo::new(fields[0].as_str(), form, choices);
    proof {
        assert(fs[0] == fields@[0]@);
    }
    Some(info)
}

/// The wire round trip for the info line: decoding an encoded info line
/// gives back exactly the name, the ballot form and the choices that went
/// in, provided no field contains the separating comma.
pub proof fn lemma_info_round_trip(name: Seq<char>, form: BallotForm, choices: Seq<Seq<char>>)
    requires
        forall|k: int| 0 <= k < name.len() ==> name[k] != ',',
        forall|i: int, k: int|
            0 <= i < choices.len() && 0 <= k < choices[i].len() ==> #[trigger] choices[i][k]
                != ',',
        valid_choice_set(choices),
    ensures
        spec_parse_info(comma_terminated(seq![name, spec_form_name(form)] + choices)) == Some(
            (name, form, choices),
        ),
{
    reveal_strlit("uninominal");
    reveal_strlit("approved");
    assert("uninominal"@.len() == 10);
    assert("approved"@.len() == 8);
    let fields = seq![name, spec_form_name(form)] + choices;
    assert forall|i: int, k: int|
        0 <= i < fields.len() && 0 <= k < fields[i].len() implies #[trigger] fields[i][k]
        != ',' by {
        if i == 1 {
            assert(spec_form_name(form)[k] != ',');
        } else if i >= 2 {
            assert(fields[i] == choices[i - 2]);
        }
    }
    lemma_split_comma_terminated(fields);
    let fs = spec_split(comma_terminated(fields));
    assert(fs =~~= fields.push(Seq::<char>::empty()));
    assert(fs.len() == choices.len() + 3);
    assert(fs.last() == Seq::<char>::empty());
    assert(fs[0] == name);
    assert(fs[1] == spec_form_name(form));
    assert(fs.subrange(2, fs.len() - 1) =~~= choices);
}

/// Strip one trailing newline, if present: wire lines come
/// newline-terminated.
pub fn trim_newline<'a>(s: &'a str) -> (r: &'a str)
    ensures
        r@ == (if s@.len() > 0 && s@.last() == '\n' {
            s@.drop_last()
        } else {
            s@
        }),
{
    let n = s.unicode_len();
    if n > 0 && s.get_char(n - 1) == '\n' {
        let r = s.substring_char(0, n - 1);
        proof {
            assert(r@ =~= s@.drop_last());
        }
        r
    } else {
        s
    }
}

/// Parse one ballot line (its trailing newline already stripped) for the
/// election's ballot form: the whole line is the candidate's name under
/// the uninominal form, a comma-separated list of names under the
/// approved form. Parsing is syntactic and total; the tally engine alone
/// judges the named candidates.
pub fn parse_ballot(line: &str, form: BallotForm) -> (r: SingleBallot)
    ensures
        ballot_form_of(r) == form,
        match form {
            BallotForm::Uninominal => ballot_names(r) =~~= seq![line@],
            BallotForm::Approved => ballot_names(r) =~~= spec_split(line@),
        },
{
    match form {
        BallotForm::Uninominal => SingleBallot::Uninominal(line.to_owned()),
        BallotForm::Approved => SingleBallot::Approved(split_fields(line)),
    }
}

/// Frame the result line the server sends: the winning choice's name,
/// newline-terminated.
pub fn encode_result(winner: &str) -> (r: String)
    ensures
        r@ == winner@ + seq!['\n'],
{
    let mut out = winner.to_owned();
    out.append("\n");
    proof {
        reveal_strlit("\n");
        assert("\n"@ =~= seq!['\n']);
    }
    out
}

} // verus!
