//! The session: one environment, and the state machine that a driver steps
//! through.
//!
//! A session is in one of four phases. It starts awaiting input. A line that
//! is read takes it to evaluating, the evaluation to reporting, and the report
//! back to awaiting input; the end of the input closes it, and a closed session
//! goes nowhere. The environment is made once, when the session starts, and
//! every evaluation works on that one environment: a transition hands it on
//! unchanged or as the evaluation left it.
//!
//! The session does no input or output. A driver reads the lines, and writes
//! what [`Session::start`] and [`Session::turn`] tell it to, the [`Emit`]s, in
//! their order. A failure of a form is reported like a value and ends nothing:
//! only the end of the input closes a session.

use crate::block::{
    env_after, eval_block, is_run, lemma_environment_persists, outcome_of, runs_to, Step,
};
use crate::bridge::{parse_line, parsed_forms, parses_to};
use crate::outcome::Outcome;
use vstd::prelude::*;

verus! {

/// Where a session stands.
#[derive(Debug, PartialEq, Eq)]
pub enum Phase<V, X> {
    /// Waiting for the next line. The prompt has been emitted.
    AwaitingInput,
    /// A line has been read and is to be evaluated.
    Evaluating(String),
    /// A line has been evaluated and its outcome is to be reported.
    Reporting(Outcome<V, X>),
    /// The input has ended. Nothing follows.
    Closed,
}

/// A [`Phase`] with its line as a sequence of characters.
pub enum PhaseView<V, X> {
    AwaitingInput,
    Evaluating(Seq<char>),
    Reporting(Outcome<V, X>),
    Closed,
}

impl<V, X> View for Phase<V, X> {
    type V = PhaseView<V, X>;

    open spec fn view(&self) -> PhaseView<V, X> {
        match self {
            Phase::AwaitingInput => PhaseView::AwaitingInput,
            Phase::Evaluating(line) => PhaseView::Evaluating(line@),
            Phase::Reporting(outcome) => PhaseView::Reporting(*outcome),
            Phase::Closed => PhaseView::Closed,
        }
    }
}

/// What a driver writes to the terminal.
#[derive(Debug, PartialEq, Eq)]
pub enum Emit<V, X> {
    /// The prompt, [`prompt`], without a line end; the next line is read after
    /// it.
    Prompt,
    /// One line: the value as text for [`Outcome::Value`], the description of
    /// the failure for [`Outcome::Failure`], nothing for [`Outcome::Empty`].
    Report(Outcome<V, X>),
    /// A line end, to leave the prompt's line when the session closes.
    Newline,
}

/// The characters of the prompt: an angle bracket and a space.
pub open spec fn prompt_text() -> Seq<char> {
    seq!['>', ' ']
}

/// The characters that end a line.
pub open spec fn line_end() -> Seq<char> {
    seq!['\n']
}

/// The text of the prompt.
pub fn prompt() -> (text: &'static str)
    ensures
        text@ == prompt_text(),
{
    proof {
        reveal_strlit("> ");
        assert("> "@ =~= prompt_text());
    }
    "> "
}

/// The text that ends a line.
fn newline() -> (text: &'static str)
    ensures
        text@ == line_end(),
{
    proof {
        reveal_strlit("\n");
        assert("\n"@ =~= line_end());
    }
    "\n"
}

/// The text `shown` is what `show` may make of `item`.
pub open spec fn shows<T, Show: Fn(&T) -> String>(show: Show, item: T, shown: Seq<char>) -> bool {
    exists|text: String| text@ == shown && #[trigger] call_ensures(show, (&item,), text)
}

impl<V, X> Emit<V, X> {
    /// `text` is what is written for this emit, where `show` turns a value
    /// into text and `describe` a failure: the prompt as it is, a value or a
    /// failure on a line of its own, and a line end alone for an empty outcome
    /// and for [`Emit::Newline`].
    pub open spec fn written_as<Show: Fn(&V) -> String, Describe: Fn(&X) -> String>(
        self,
        show: Show,
        describe: Describe,
        text: Seq<char>,
    ) -> bool {
        match self {
            Emit::Prompt => text == prompt_text(),
            Emit::Report(Outcome::Value(value)) => exists|shown: Seq<char>| #[trigger]
                shows(show, value, shown) && text == shown + line_end(),
            Emit::Report(Outcome::Failure(failure)) => exists|shown: Seq<char>| #[trigger]
                shows(describe, failure, shown) && text == shown + line_end(),
            Emit::Report(Outcome::Empty) => text == line_end(),
            Emit::Newline => text == line_end(),
        }
    }

    /// The text to write for this emit. `show` gives the text of a value,
    /// `describe` that of a failure.
    pub fn text<Show: Fn(&V) -> String, Describe: Fn(&X) -> String>(
        &self,
        show: &Show,
        describe: &Describe,
    ) -> (text: String)
        requires
            self matches Emit::Report(Outcome::Value(value)) ==> call_requires(*show, (&value,)),
            self matches Emit::Report(Outcome::Failure(failure)) ==> call_requires(
                *describe,
                (&failure,),
            ),
        ensures
            self.written_as(*show, *describe, text@),
    {
        match self {
            Emit::Prompt => prompt().to_owned(),
            Emit::Report(Outcome::Value(value)) => {
                let shown = show(value);
                proof {
                    assert(shows(*show, *value, shown@));
                }
                shown.concat(newline())
            },
            Emit::Report(Outcome::Failure(failure)) => {
                let shown = describe(failure);
                proof {
                    assert(shows(*describe, *failure, shown@));
                }
                shown.concat(newline())
            },
            Emit::Report(Outcome::Empty) => newline().to_owned(),
            Emit::Newline => newline().to_owned(),
        }
    }
}

/// An interactive session: its environment and its phase.
pub struct Session<Env, V, X> {
    env: Env,
    phase: Phase<V, X>,
}

/// A [`Session`] as a plain value.
pub struct SessionView<Env, V, X> {
    pub env: Env,
    pub phase: PhaseView<V, X>,
}

impl<Env, V, X> View for Session<Env, V, X> {
    type V = SessionView<Env, V, X>;

    closed spec fn view(&self) -> SessionView<Env, V, X> {
        SessionView { env: self.env, phase: self.phase@ }
    }
}

/// Evaluating the text `line`, parsed by `parse` and evaluated by `eval` in the
/// environment `start`, may leave the environment `after` and come to
/// `outcome`: the parser answers the line, the forms of its answer are
/// evaluated in order, and its failures have no part in it.
pub open spec fn line_runs_to<
    Form,
    P,
    Env,
    V,
    X,
    Parse: Fn(&str) -> Vec<Result<Form, P>>,
    Eval: Fn(&Form, Env) -> (Env, Result<V, X>),
>(parse: Parse, eval: Eval, line: Seq<char>, start: Env, after: Env, outcome: Outcome<V, X>) -> bool {
    exists|outcomes: Seq<Result<Form, P>>| #[trigger]
        parses_to(parse, line, outcomes) && runs_to(
            eval,
            start,
            parsed_forms(outcomes),
            after,
            outcome,
        )
}

impl<Env, V, X> Session<Env, V, X> {
    /// Starts a session on `env`, or where there is none on the environment
    /// that `default_env` makes. The session awaits input, and the driver is
    /// to emit the prompt.
    pub fn start<D: FnOnce() -> Env>(env: Option<Env>, default_env: D) -> (started: (
        Self,
        Vec<Emit<V, X>>,
    ))
        requires
            env is None ==> call_requires(default_env, ()),
        ensures
            started.0@.phase == PhaseView::<V, X>::AwaitingInput,
            match env {
                Some(given) => started.0@.env == given,
                None => call_ensures(default_env, (), started.0@.env),
            },
            started.1@ == seq![Emit::<V, X>::Prompt],
    {
        let env = match env {
            Some(given) => given,
            None => default_env(),
        };
        let mut emits: Vec<Emit<V, X>> = Vec::new();
        emits.push(Emit::Prompt);
        (Session { env, phase: Phase::AwaitingInput }, emits)
    }

    /// Takes what was read: a line, which is then to be evaluated, or the end
    /// of the input, which closes the session.
    pub fn read(self, input: Option<String>) -> (next: Self)
        requires
            self@.phase == PhaseView::<V, X>::AwaitingInput,
        ensures
            next@ == (SessionView {
                env: self@.env,
                phase: match input {
                    Some(line) => PhaseView::<V, X>::Evaluating(line@),
                    None => PhaseView::Closed,
                },
            }),
    {
        match input {
            Some(line) => Session { env: self.env, phase: Phase::Evaluating(line) },
            None => Session { env: self.env, phase: Phase::Closed },
        }
    }

    /// Evaluates the line that was read: parses it, drops the parse failures,
    /// and evaluates the forms in order against the session's environment.
    /// The outcome is then to be reported.
    pub fn evaluate<
        Form,
        P,
        Parse: Fn(&str) -> Vec<Result<Form, P>>,
        Eval: Fn(&Form, Env) -> (Env, Result<V, X>),
    >(self, parse: &Parse, eval: &Eval) -> (next: Self)
        requires
            self@.phase matches PhaseView::Evaluating(line) && forall|text: &str|
                text@ == line ==> call_requires(*parse, (text,)),
            forall|form: &Form, at: Env| call_requires(*eval, (form, at)),
        ensures
            next@.phase matches PhaseView::Reporting(outcome) && line_runs_to(
                *parse,
                *eval,
                self@.phase->Evaluating_0,
                self@.env,
                next@.env,
                outcome,
            ),
    {
        match self.phase {
            Phase::Evaluating(line) => {
                let forms = parse_line(line.as_str(), parse);
                let (env, outcome) = eval_block(self.env, &forms, eval);
                Session { env, phase: Phase::Reporting(outcome) }
            },
            _ => vstd::pervasive::unreached(),
        }
    }

    /// Hands out the outcome to report. The session awaits input again,
    /// whether the outcome is a value or a failure.
    pub fn report(self) -> (reported: (Self, Outcome<V, X>))
        requires
            self@.phase is Reporting,
        ensures
            reported.0@ == (SessionView {
                env: self@.env,
                phase: PhaseView::<V, X>::AwaitingInput,
            }),
            reported.1 == self@.phase->Reporting_0,
    {
        match self.phase {
            Phase::Reporting(outcome) => (
                Session { env: self.env, phase: Phase::AwaitingInput },
                outcome,
            ),
            _ => vstd::pervasive::unreached(),
        }
    }

    /// One round of the session: takes what was read at the prompt and says
    /// what to write.
    ///
    /// A line is evaluated and its outcome reported, then the prompt is
    /// emitted and the session awaits input again. The end of the input closes
    /// the session: one line end is emitted and nothing else, and the
    /// environment stays as it was.
    pub fn turn<
        Form,
        P,
        Parse: Fn(&str) -> Vec<Result<Form, P>>,
        Eval: Fn(&Form, Env) -> (Env, Result<V, X>),
    >(self, input: Option<String>, parse: &Parse, eval: &Eval) -> (turned: (Self, Vec<Emit<V, X>>))
        requires
            self@.phase == PhaseView::<V, X>::AwaitingInput,
            input matches Some(line) ==> forall|text: &str|
                text@ == line@ ==> call_requires(*parse, (text,)),
            forall|form: &Form, at: Env| call_requires(*eval, (form, at)),
        ensures
            match input {
                Some(line) => {
                    &&& turned.0@.phase == PhaseView::<V, X>::AwaitingInput
                    &&& turned.1@.len() == 2
                    &&& turned.1@[0] matches Emit::Report(outcome) && line_runs_to(
                        *parse,
                        *eval,
                        line@,
                        self@.env,
                        turned.0@.env,
                        outcome,
                    )
                    &&& turned.1@[1] == Emit::<V, X>::Prompt
                },
                None => {
                    &&& turned.0@ == (SessionView {
                        env: self@.env,
                        phase: PhaseView::<V, X>::Closed,
                    })
                    &&& turned.1@ == seq![Emit::<V, X>::Newline]
                },
            },
    {
        let mut emits: Vec<Emit<V, X>> = Vec::new();
        let read = self.read(input);
        match read.phase {
            Phase::Evaluating(_) => {
                let evaluated = read.evaluate(parse, eval);
                let (next, outcome) = evaluated.report();
                emits.push(Emit::Report(outcome));
                emits.push(Emit::Prompt);
                (next, emits)
            },
            _ => {
                emits.push(Emit::Newline);
                (read, emits)
            },
        }
    }

    /// The phase in which the session stands.
    pub fn phase(&self) -> (phase: &Phase<V, X>)
        ensures
            phase@ == self@.phase,
    {
        &self.phase
    }

    /// Whether the input has ended.
    pub fn is_closed(&self) -> (closed: bool)
        ensures
            closed == (self@.phase is Closed),
    {
        match self.phase {
            Phase::Closed => true,
            _ => false,
        }
    }

    /// The session's environment.
    pub fn env(&self) -> (env: &Env)
        ensures
            *env == self@.env,
    {
        &self.env
    }

    /// Ends the session and hands out its environment.
    pub fn into_env(self) -> (env: Env)
        ensures
            env == self@.env,
    {
        self.env
    }
}

/// Two lines of a session share its environment. Where the first line ends
/// without a failure and the second is evaluated in the environment that the
/// first left behind, the two come to what one evaluation of the forms of both
/// lines comes to: the second line finds what the first defined.
pub proof fn lemma_later_line_sees_earlier_line<
    Form,
    P,
    Env,
    V,
    X,
    Parse: Fn(&str) -> Vec<Result<Form, P>>,
    Eval: Fn(&Form, Env) -> (Env, Result<V, X>),
>(
    parse: Parse,
    eval: Eval,
    first: Seq<char>,
    second: Seq<char>,
    start: Env,
    middle: Env,
    after: Env,
    first_outcome: Outcome<V, X>,
    second_outcome: Outcome<V, X>,
)
    requires
        line_runs_to(parse, eval, first, start, middle, first_outcome),
        !(first_outcome is Failure),
        line_runs_to(parse, eval, second, middle, after, second_outcome),
    ensures
        exists|earlier: Seq<Result<Form, P>>, later: Seq<Result<Form, P>>, outcome: Outcome<V, X>|
            {
                &&& #[trigger] parses_to(parse, first, earlier)
                &&& #[trigger] parses_to(parse, second, later)
                &&& #[trigger] runs_to(
                    eval,
                    start,
                    parsed_forms(earlier) + parsed_forms(later),
                    after,
                    outcome,
                )
                &&& parsed_forms(later).len() > 0 ==> outcome == second_outcome
            },
{
    let earlier = choose|outcomes: Seq<Result<Form, P>>| #[trigger]
        parses_to(parse, first, outcomes) && runs_to(
            eval,
            start,
            parsed_forms(outcomes),
            middle,
            first_outcome,
        );
    let later = choose|outcomes: Seq<Result<Form, P>>| #[trigger]
        parses_to(parse, second, outcomes) && runs_to(
            eval,
            middle,
            parsed_forms(outcomes),
            after,
            second_outcome,
        );
    let earlier_steps = choose|steps: Seq<Step<Env, V, X>>| #[trigger]
        is_run(eval, start, parsed_forms(earlier), steps) && middle == env_after(start, steps)
            && first_outcome == outcome_of(steps);
    let later_steps = choose|steps: Seq<Step<Env, V, X>>| #[trigger]
        is_run(eval, middle, parsed_forms(later), steps) && after == env_after(middle, steps)
            && second_outcome == outcome_of(steps);
    lemma_environment_persists(
        eval,
        start,
        parsed_forms(earlier),
        earlier_steps,
        parsed_forms(later),
        later_steps,
    );
    let steps = earlier_steps + later_steps;
    assert(is_run(eval, start, parsed_forms(earlier) + parsed_forms(later), steps));
    assert(runs_to(
        eval,
        start,
        parsed_forms(earlier) + parsed_forms(later),
        after,
        outcome_of(steps),
    ));
}

} // verus!
