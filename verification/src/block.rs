//! The evaluation of a sequence of forms against one environment.
//!
//! The forms are evaluated one after the other. Each is handed the environment
//! that the one before it left behind, so what one form defines the next one
//! sees. The first failure ends the evaluation: it is the outcome, and no form
//! after it is evaluated. Where no form fails, the outcome is the value of the
//! last one; where there is no form, it is [`Outcome::Empty`].
//!
//! The evaluator of a single form is the caller's. It takes the environment and
//! gives it back, so at any moment one owner holds it. Nothing is assumed of
//! the evaluator: what is stated here holds of whatever it answers, and is
//! stated over a record of its answers, a sequence of [`Step`]s.

use crate::outcome::Outcome;
use vstd::prelude::*;

verus! {

/// What the evaluation of one form left behind: the environment after it, and
/// the value or the failure that it produced.
pub struct Step<Env, V, X> {
    pub env: Env,
    pub result: Result<V, X>,
}

/// The evaluator `eval` may answer the form `form`, taken in the environment
/// `env`, with `step`.
pub open spec fn evaluates<Form, Env, V, X, Eval: Fn(&Form, Env) -> (Env, Result<V, X>)>(
    eval: Eval,
    form: Form,
    env: Env,
    step: Step<Env, V, X>,
) -> bool {
    call_ensures(eval, (&form, env), (step.env, step.result))
}

/// The environment in which step `i` of a record is taken: the starting one
/// for the first step, and for every other the one that the step before it
/// left behind.
pub open spec fn env_before<Env, V, X>(start: Env, steps: Seq<Step<Env, V, X>>, i: int) -> Env {
    if i <= 0 {
        start
    } else {
        steps[i - 1].env
    }
}

/// The environment that a record leaves behind.
pub open spec fn env_after<Env, V, X>(start: Env, steps: Seq<Step<Env, V, X>>) -> Env {
    env_before(start, steps, steps.len() as int)
}

/// The outcome that a record comes to: that of its last step.
pub open spec fn outcome_of<Env, V, X>(steps: Seq<Step<Env, V, X>>) -> Outcome<V, X> {
    if steps.len() == 0 {
        Outcome::Empty
    } else {
        Outcome::of(steps.last().result)
    }
}

/// `steps` records an evaluation of `forms` by `eval` that starts in `start`:
/// step `i` answers form `i` in the environment that step `i - 1` left behind,
/// only the last step may be a failure, and the record ends before the last
/// form only with a failure.
pub open spec fn is_run<Form, Env, V, X, Eval: Fn(&Form, Env) -> (Env, Result<V, X>)>(
    eval: Eval,
    start: Env,
    forms: Seq<Form>,
    steps: Seq<Step<Env, V, X>>,
) -> bool {
    &&& steps.len() <= forms.len()
    &&& forall|i: int|
        0 <= i < steps.len() ==> evaluates(
            eval,
            forms[i],
            #[trigger] env_before(start, steps, i),
            steps[i],
        )
    &&& forall|i: int| 0 <= i < steps.len() - 1 ==> (#[trigger] steps[i]).result is Ok
    &&& steps.len() < forms.len() ==> steps.len() > 0 && steps.last().result is Err
}

/// Evaluating `forms` by `eval`, starting in `start`, may leave the environment
/// `after` and come to `outcome`.
pub open spec fn runs_to<Form, Env, V, X, Eval: Fn(&Form, Env) -> (Env, Result<V, X>)>(
    eval: Eval,
    start: Env,
    forms: Seq<Form>,
    after: Env,
    outcome: Outcome<V, X>,
) -> bool {
    exists|steps: Seq<Step<Env, V, X>>| #[trigger]
        is_run(eval, start, forms, steps) && after == env_after(start, steps) && outcome
            == outcome_of(steps)
}

/// Evaluates `forms` in order against `env` and returns the environment as the
/// evaluation left it, with the outcome.
pub fn eval_block<Form, Env, V, X, Eval: Fn(&Form, Env) -> (Env, Result<V, X>)>(
    env: Env,
    forms: &Vec<Form>,
    eval: &Eval,
) -> (done: (Env, Outcome<V, X>))
    requires
        forall|i: int, at: Env| 0 <= i < forms.len() ==> call_requires(*eval, (&forms[i], at)),
    ensures
        runs_to(*eval, env, forms@, done.0, done.1),
{
    let ghost mut steps: Seq<Step<Env, V, X>> = Seq::empty();
    let mut current = env;
    let mut outcome: Outcome<V, X> = Outcome::Empty;
    let mut i: usize = 0;
    while i < forms.len()
        invariant
            i <= forms.len(),
            steps.len() == i,
            forall|j: int, at: Env| 0 <= j < forms.len() ==> call_requires(*eval, (&forms[j], at)),
            forall|j: int|
                0 <= j < steps.len() ==> evaluates(
                    *eval,
                    forms@[j],
                    #[trigger] env_before(env, steps, j),
                    steps[j],
                ),
            forall|j: int| 0 <= j < steps.len() ==> (#[trigger] steps[j]).result is Ok,
            current == env_after(env, steps),
            outcome == outcome_of(steps),
        decreases forms.len() - i,
    {
        let ghost taken = steps;
        let (left, result) = eval(&forms[i], current);
        proof {
            steps = taken.push(Step { env: left, result });
            assert forall|j: int| 0 <= j < steps.len() implies evaluates(
                *eval,
                forms@[j],
                #[trigger] env_before(env, steps, j),
                steps[j],
            ) by {
                if j < taken.len() {
                    assert(env_before(env, steps, j) == env_before(env, taken, j));
                }
            }
        }
        current = left;
        match result {
            Ok(value) => {
                outcome = Outcome::Value(value);
            },
            Err(failure) => {
                proof {
                    assert(is_run(*eval, env, forms@, steps));
                }
                return (current, Outcome::Failure(failure));
            },
        }
        i += 1;
    }
    proof {
        assert(is_run(*eval, env, forms@, steps));
    }
    (current, outcome)
}

/// Every form of a sequence in which none fails is evaluated, in the order of
/// the sequence, and each but the first in the environment that the form
/// before it left behind: what a form defines, the next one sees.
pub proof fn lemma_definitions_reach_next_form<
    Form,
    Env,
    V,
    X,
    Eval: Fn(&Form, Env) -> (Env, Result<V, X>),
>(eval: Eval, start: Env, forms: Seq<Form>, steps: Seq<Step<Env, V, X>>)
    requires
        is_run(eval, start, forms, steps),
        forall|i: int| 0 <= i < steps.len() ==> (#[trigger] steps[i]).result is Ok,
    ensures
        steps.len() == forms.len(),
        forms.len() > 0 ==> evaluates(eval, forms[0], start, steps[0]),
        forall|i: int|
            0 <= i < forms.len() - 1 ==> evaluates(
                eval,
                forms[i + 1],
                steps[i].env,
                #[trigger] steps[i + 1],
            ),
{
    if steps.len() < forms.len() {
        assert(steps.last().result is Err);
        assert(steps[steps.len() - 1].result is Ok);
    }
    assert forall|i: int| 0 <= i < forms.len() - 1 implies evaluates(
        eval,
        forms[i + 1],
        steps[i].env,
        #[trigger] steps[i + 1],
    ) by {
        assert(env_before(start, steps, i + 1) == steps[i].env);
    }
    if forms.len() > 0 {
        assert(env_before(start, steps, 0) == start);
    }
}

/// Where form `k` of a sequence fails, the evaluation ends with it: no form
/// after `k` is evaluated, the outcome is the failure of form `k`, and the
/// environment stays as form `k` left it. The forms after `k` have no part in
/// it: the same record is an evaluation of the sequence with any others in
/// their place.
pub proof fn lemma_first_failure_ends_block<
    Form,
    Env,
    V,
    X,
    Eval: Fn(&Form, Env) -> (Env, Result<V, X>),
>(eval: Eval, start: Env, forms: Seq<Form>, steps: Seq<Step<Env, V, X>>, k: int, others: Seq<Form>)
    requires
        is_run(eval, start, forms, steps),
        0 <= k < steps.len(),
        steps[k].result is Err,
    ensures
        steps.len() == k + 1,
        outcome_of(steps) == Outcome::<V, X>::Failure(steps[k].result->Err_0),
        env_after(start, steps) == steps[k].env,
        is_run(eval, start, forms.take(k + 1) + others, steps),
{
    if k < steps.len() - 1 {
        assert(steps[k].result is Ok);
    }
    let replaced = forms.take(k + 1) + others;
    assert forall|i: int| 0 <= i < steps.len() implies evaluates(
        eval,
        replaced[i],
        #[trigger] env_before(start, steps, i),
        steps[i],
    ) by {
        assert(replaced[i] == forms[i]);
    }
}

/// The environment persists from one evaluation to the next: an evaluation
/// without failure, followed by a second one that starts where the first
/// ended, is an evaluation of the two sequences as one. What the first defined
/// is there for the second, and where the second has a form, its outcome is the
/// outcome of the whole.
pub proof fn lemma_environment_persists<
    Form,
    Env,
    V,
    X,
    Eval: Fn(&Form, Env) -> (Env, Result<V, X>),
>(
    eval: Eval,
    start: Env,
    first_forms: Seq<Form>,
    first: Seq<Step<Env, V, X>>,
    second_forms: Seq<Form>,
    second: Seq<Step<Env, V, X>>,
)
    requires
        is_run(eval, start, first_forms, first),
        !(outcome_of(first) is Failure),
        is_run(eval, env_after(start, first), second_forms, second),
    ensures
        is_run(eval, start, first_forms + second_forms, first + second),
        env_after(start, first + second) == env_after(env_after(start, first), second),
        second_forms.len() > 0 ==> outcome_of(first + second) == outcome_of(second),
{
    let forms = first_forms + second_forms;
    let steps = first + second;
    if first.len() < first_forms.len() {
        assert(first.last().result is Err);
    }
    assert(first.len() == first_forms.len());
    let middle = env_after(start, first);
    assert forall|i: int| 0 <= i < steps.len() implies evaluates(
        eval,
        forms[i],
        #[trigger] env_before(start, steps, i),
        steps[i],
    ) by {
        if i < first.len() {
            assert(steps[i] == first[i]);
            assert(env_before(start, steps, i) == env_before(start, first, i));
            assert(forms[i] == first_forms[i]);
        } else {
            let j = i - first.len();
            assert(steps[i] == second[j]);
            assert(forms[i] == second_forms[j]);
            assert(env_before(start, steps, i) == env_before(middle, second, j));
        }
    }
    assert forall|i: int| 0 <= i < steps.len() - 1 implies (#[trigger] steps[i]).result is Ok by {
        if i < first.len() {
            assert(steps[i] == first[i]);
            if i == first.len() - 1 {
                assert(first.last() == first[i]);
            }
        } else {
            assert(steps[i] == second[i - first.len()]);
        }
    }
    if steps.len() < forms.len() {
        assert(second.len() < second_forms.len());
        assert(steps.last() == second.last());
    }
    if second.len() > 0 {
        assert(steps.last() == second.last());
    }
}

/// Evaluating twice a sequence of forms that define nothing gives the same
/// outcome both times, and leaves the environment as it was. It is taken that
/// the evaluator answers one form in one environment in one way only.
pub proof fn lemma_repeat_without_definitions<
    Form,
    Env,
    V,
    X,
    Eval: Fn(&Form, Env) -> (Env, Result<V, X>),
>(
    eval: Eval,
    start: Env,
    forms: Seq<Form>,
    first: Seq<Step<Env, V, X>>,
    second: Seq<Step<Env, V, X>>,
)
    requires
        is_run(eval, start, forms, first),
        is_run(eval, env_after(start, first), forms, second),
        forall|i: int, step: Step<Env, V, X>|
            0 <= i < forms.len() && #[trigger] evaluates(eval, forms[i], start, step) ==> step.env
                == start,
        forall|i: int, one: Step<Env, V, X>, other: Step<Env, V, X>|
            0 <= i < forms.len() && #[trigger] evaluates(eval, forms[i], start, one)
                && #[trigger] evaluates(eval, forms[i], start, other) ==> one == other,
    ensures
        env_after(start, first) == start,
        env_after(start, second) == start,
        second == first,
        outcome_of(second) == outcome_of(first),
{
    lemma_run_keeps_environment(eval, start, forms, first, first.len() as int);
    lemma_run_keeps_environment(eval, start, forms, second, second.len() as int);
    lemma_runs_agree(eval, start, forms, first, second, first.len() as int);
    lemma_runs_agree(eval, start, forms, second, first, second.len() as int);
    assert(first.len() == second.len()) by {
        if first.len() < second.len() {
            assert(second[first.len() - 1] == first[first.len() - 1]);
            assert(first.last().result is Err);
        }
        if second.len() < first.len() {
            assert(first[second.len() - 1] == second[second.len() - 1]);
            assert(second.last().result is Err);
        }
    }
    assert(second =~= first);
}

/// In an evaluation of forms that leave the environment `start` as it is,
/// every step is taken in `start`.
proof fn lemma_run_keeps_environment<
    Form,
    Env,
    V,
    X,
    Eval: Fn(&Form, Env) -> (Env, Result<V, X>),
>(eval: Eval, start: Env, forms: Seq<Form>, steps: Seq<Step<Env, V, X>>, n: int)
    requires
        is_run(eval, start, forms, steps),
        0 <= n <= steps.len(),
        forall|i: int, step: Step<Env, V, X>|
            0 <= i < forms.len() && #[trigger] evaluates(eval, forms[i], start, step) ==> step.env
                == start,
    ensures
        forall|i: int| 0 <= i <= n ==> #[trigger] env_before(start, steps, i) == start,
    decreases n,
{
    if n > 0 {
        lemma_run_keeps_environment(eval, start, forms, steps, n - 1);
        assert(env_before(start, steps, n - 1) == start);
        assert(evaluates(eval, forms[n - 1], start, steps[n - 1]));
    }
}

/// Two evaluations of the same forms, each step of which is taken in `start`
/// and has one answer only, agree on the steps that both have.
proof fn lemma_runs_agree<Form, Env, V, X, Eval: Fn(&Form, Env) -> (Env, Result<V, X>)>(
    eval: Eval,
    start: Env,
    forms: Seq<Form>,
    one: Seq<Step<Env, V, X>>,
    other: Seq<Step<Env, V, X>>,
    n: int,
)
    requires
        is_run(eval, start, forms, one),
        is_run(eval, start, forms, other),
        0 <= n <= one.len(),
        forall|i: int| 0 <= i <= one.len() ==> #[trigger] env_before(start, one, i) == start,
        forall|i: int| 0 <= i <= other.len() ==> #[trigger] env_before(start, other, i) == start,
        forall|i: int, a: Step<Env, V, X>, b: Step<Env, V, X>|
            0 <= i < forms.len() && #[trigger] evaluates(eval, forms[i], start, a)
                && #[trigger] evaluates(eval, forms[i], start, b) ==> a == b,
    ensures
        forall|i: int| 0 <= i < n && i < other.len() ==> #[trigger] one[i] == other[i],
{
    assert forall|i: int| 0 <= i < n && i < other.len() implies #[trigger] one[i] == other[i] by {
        assert(env_before(start, one, i) == start);
        assert(env_before(start, other, i) == start);
        assert(evaluates(eval, forms[i], start, one[i]));
        assert(evaluates(eval, forms[i], start, other[i]));
    }
}

} // verus!
