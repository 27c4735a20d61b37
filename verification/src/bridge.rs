//! From a parser's answers to the forms that are evaluated.
//!
//! A parser answers one line with a sequence of outcomes, one for each
//! top-level unit of the text: the form it recognised, or a failure. The bridge
//! keeps the forms, in the order in which they stand in the line, and drops the
//! failures without a trace: a failure neither ends the line nor is reported.

use vstd::prelude::*;

verus! {

/// The form that a parse outcome holds, if it holds one.
pub open spec fn form_of<Form, P>(outcome: Result<Form, P>) -> Option<Form> {
    match outcome {
        Ok(form) => Some(form),
        Err(_) => None,
    }
}

/// The forms among `outcomes`, in their order.
pub open spec fn parsed_forms<Form, P>(outcomes: Seq<Result<Form, P>>) -> Seq<Form> {
    outcomes.filter_map(|outcome: Result<Form, P>| form_of(outcome))
}

/// `index` tells, for each of `forms`, where among `outcomes` it stands:
/// each form is the content of the outcome at its index, the indices rise, and
/// no index of a successful outcome is missing.
pub open spec fn is_selection<Form, P>(
    outcomes: Seq<Result<Form, P>>,
    forms: Seq<Form>,
    index: Seq<int>,
) -> bool {
    &&& index.len() == forms.len()
    &&& forall|j: int|
        0 <= j < index.len() ==> 0 <= #[trigger] index[j] < outcomes.len() && outcomes[index[j]]
            == Ok::<Form, P>(forms[j])
    &&& forall|j: int, k: int| 0 <= j < k < index.len() ==> #[trigger] index[j] < #[trigger] index[k]
    &&& forall|i: int|
        0 <= i < outcomes.len() && (#[trigger] outcomes[i]) is Ok ==> index.contains(i)
}

/// The parser `parse` may answer the text `line` with `outcomes`.
pub open spec fn parses_to<Form, P, Parse: Fn(&str) -> Vec<Result<Form, P>>>(
    parse: Parse,
    line: Seq<char>,
    outcomes: Seq<Result<Form, P>>,
) -> bool {
    exists|text: &str, found: Vec<Result<Form, P>>|
        text@ == line && found@ == outcomes && #[trigger] call_ensures(parse, (text,), found)
}

/// Keeps the forms of `outcomes` and drops the failures.
pub fn valid_forms<Form, P>(outcomes: Vec<Result<Form, P>>) -> (forms: Vec<Form>)
    ensures
        forms@ == parsed_forms(outcomes@),
{
    let mut forms: Vec<Form> = Vec::new();
    for outcome in it: outcomes.into_iter()
        invariant
            it.seq() == outcomes@,
            forms@ == parsed_forms(outcomes@.take(it.index() as int)),
    {
        proof {
            outcomes@.lemma_filter_map_take_succ(
                |outcome: Result<Form, P>| form_of(outcome),
                it.index() as int,
            );
        }
        match outcome {
            Ok(form) => {
                forms.push(form);
            },
            Err(_) => {},
        }
    }
    proof {
        assert(outcomes@.take(outcomes@.len() as int) =~= outcomes@);
    }
    forms
}

/// Parses `line` with `parse` and keeps the forms that it recognised.
pub fn parse_line<Form, P, Parse: Fn(&str) -> Vec<Result<Form, P>>>(
    line: &str,
    parse: &Parse,
) -> (forms: Vec<Form>)
    requires
        call_requires(*parse, (line,)),
    ensures
        exists|outcomes: Seq<Result<Form, P>>| #[trigger]
            parses_to(*parse, line@, outcomes) && forms@ == parsed_forms(outcomes),
{
    let outcomes = parse(line);
    proof {
        assert(parses_to(*parse, line@, outcomes@));
    }
    valid_forms(outcomes)
}

/// Where every outcome of a line is a form, the line's forms are those
/// outcomes' contents, all of them and in the same places.
pub proof fn lemma_all_valid_forms_kept<Form, P>(outcomes: Seq<Result<Form, P>>)
    requires
        forall|i: int| 0 <= i < outcomes.len() ==> (#[trigger] outcomes[i]) is Ok,
    ensures
        parsed_forms(outcomes).len() == outcomes.len(),
        forall|i: int|
            0 <= i < outcomes.len() ==> outcomes[i] == Ok::<Form, P>(
                #[trigger] parsed_forms(outcomes)[i],
            ),
    decreases outcomes.len(),
{
    if outcomes.len() > 0 {
        lemma_all_valid_forms_kept(outcomes.drop_last());
    }
}

/// Of a line that mixes forms and failures, exactly the forms are kept, in
/// their relative order: the result names an index among the outcomes for each
/// kept form.
pub proof fn lemma_valid_forms_in_order<Form, P>(outcomes: Seq<Result<Form, P>>) -> (index: Seq<
    int,
>)
    ensures
        is_selection(outcomes, parsed_forms(outcomes), index),
    decreases outcomes.len(),
{
    if outcomes.len() == 0 {
        Seq::empty()
    } else {
        let front = outcomes.drop_last();
        let before = lemma_valid_forms_in_order(front);
        let last = outcomes.len() - 1;
        let index = match outcomes.last() {
            Ok(_) => before.push(last),
            Err(_) => before,
        };
        let forms = parsed_forms(outcomes);
        assert forall|j: int| 0 <= j < index.len() implies 0 <= #[trigger] index[j]
            < outcomes.len() && outcomes[index[j]] == Ok::<Form, P>(forms[j]) by {
            if j < before.len() {
                assert(front[before[j]] == outcomes[before[j]]);
            }
        }
        assert forall|i: int| 0 <= i < outcomes.len() && (#[trigger] outcomes[i]) is Ok implies index.contains(
            i,
        ) by {
            if i < last {
                assert(front[i] is Ok);
                let j = choose|j: int| 0 <= j < before.len() && before[j] == i;
                assert(index[j] == i);
            } else {
                assert(index[index.len() - 1] == i);
            }
        }
        index
    }
}

/// A failure leaves no trace: the forms of a line are the same with the
/// failure at `i` and without it.
pub proof fn lemma_failure_leaves_no_trace<Form, P>(outcomes: Seq<Result<Form, P>>, i: int)
    requires
        0 <= i < outcomes.len(),
        outcomes[i] is Err,
    ensures
        parsed_forms(outcomes.remove(i)) == parsed_forms(outcomes),
    decreases outcomes.len(),
{
    if i == outcomes.len() - 1 {
        assert(outcomes.remove(i) =~= outcomes.drop_last());
    } else {
        let front = outcomes.drop_last();
        lemma_failure_leaves_no_trace(front, i);
        assert(outcomes.remove(i).drop_last() =~= front.remove(i));
        assert(outcomes.remove(i).last() == outcomes.last());
    }
}

} // verus!
