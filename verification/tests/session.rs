use repl_session::{prompt, Emit, Outcome, Phase, Session};
use std::cell::Cell;
use std::collections::HashMap;

/// A form of a very small language: `5`, `x`, `define x 5`, `+ x 1`.
#[derive(Debug, Clone, PartialEq)]
enum Form {
    Number(i64),
    Name(String),
    Define(String, Box<Form>),
    Add(Box<Form>, Box<Form>),
}

type Env = HashMap<String, i64>;
type Repl = Session<Env, i64, String>;

fn atom(word: &str) -> Option<Form> {
    if let Ok(n) = word.parse::<i64>() {
        Some(Form::Number(n))
    } else if !word.is_empty() && word.chars().all(|c| c.is_ascii_alphabetic()) {
        Some(Form::Name(word.to_string()))
    } else {
        None
    }
}

fn unit(text: &str) -> Result<Form, String> {
    let words: Vec<&str> = text.split_whitespace().collect();
    let form = match words.as_slice() {
        [word] => atom(word),
        ["define", name, value] => match (atom(name), atom(value)) {
            (Some(Form::Name(name)), Some(value)) => Some(Form::Define(name, Box::new(value))),
            _ => None,
        },
        ["+", left, right] => match (atom(left), atom(right)) {
            (Some(left), Some(right)) => Some(Form::Add(Box::new(left), Box::new(right))),
            _ => None,
        },
        _ => None,
    };
    form.ok_or_else(|| format!("cannot parse: {}", text))
}

/// One outcome for each unit of the line; the units are parted by `;`.
fn parse(line: &str) -> Vec<Result<Form, String>> {
    line.split(';').filter(|text| !text.trim().is_empty()).map(unit).collect()
}

fn value(form: &Form, env: &mut Env) -> Result<i64, String> {
    match form {
        Form::Number(n) => Ok(*n),
        Form::Name(name) => match env.get(name) {
            Some(n) => Ok(*n),
            None => Err(format!("unbound symbol: {}", name)),
        },
        Form::Define(name, form) => {
            let n = value(form, env)?;
            env.insert(name.clone(), n);
            Ok(n)
        }
        Form::Add(left, right) => Ok(value(left, env)? + value(right, env)?),
    }
}

fn eval(form: &Form, mut env: Env) -> (Env, Result<i64, String>) {
    let result = value(form, &mut env);
    (env, result)
}

fn started() -> Repl {
    Repl::start(None, Env::new).0
}

fn line(text: &str) -> Option<String> {
    Some(text.to_string())
}

fn show(value: &i64) -> String {
    value.to_string()
}

fn describe(failure: &String) -> String {
    format!("error: {}", failure)
}

/// The text that a driver writes for `emits`.
fn written(emits: &[Emit<i64, String>]) -> String {
    let mut text = String::new();
    for emit in emits {
        text.push_str(&emit.text(&show, &describe));
    }
    text
}

/// Runs a whole session over `lines` and gives all that was written.
fn transcript(lines: &[&str]) -> String {
    let (mut session, emits) = Repl::start(None, Env::new);
    let mut text = written(&emits);
    let mut inputs = lines.iter();
    while !session.is_closed() {
        let input = inputs.next().map(|line| line.to_string());
        let (next, emits) = session.turn(input, &parse, &eval);
        text.push_str(&written(&emits));
        session = next;
    }
    text
}

#[test]
fn prompt_is_an_angle_and_a_space() {
    assert_eq!(prompt(), "> ");
}

#[test]
fn text_of_the_prompt_has_no_line_end() {
    assert_eq!(Emit::<i64, String>::Prompt.text(&show, &describe), "> ");
}

#[test]
fn text_of_a_value_is_a_line() {
    assert_eq!(Emit::<i64, String>::Report(Outcome::Value(-42)).text(&show, &describe), "-42\n");
}

#[test]
fn text_of_a_failure_is_a_line_with_its_description() {
    let emit = Emit::<i64, String>::Report(Outcome::Failure("unbound symbol: y".to_string()));
    assert_eq!(emit.text(&show, &describe), "error: unbound symbol: y\n");
}

#[test]
fn text_of_the_empty_outcome_is_an_empty_line() {
    assert_eq!(Emit::<i64, String>::Report(Outcome::Empty).text(&show, &describe), "\n");
}

#[test]
fn text_of_the_newline_is_a_line_end() {
    assert_eq!(Emit::<i64, String>::Newline.text(&show, &describe), "\n");
}

#[test]
fn text_asks_only_for_what_it_writes() {
    let asked = Cell::new(0);
    let counting_show = |value: &i64| {
        asked.set(asked.get() + 1);
        show(value)
    };
    let counting_describe = |failure: &String| {
        asked.set(asked.get() + 10);
        describe(failure)
    };
    Emit::<i64, String>::Prompt.text(&counting_show, &counting_describe);
    Emit::<i64, String>::Newline.text(&counting_show, &counting_describe);
    Emit::<i64, String>::Report(Outcome::Empty).text(&counting_show, &counting_describe);
    assert_eq!(asked.get(), 0);
    Emit::<i64, String>::Report(Outcome::Value(1)).text(&counting_show, &counting_describe);
    assert_eq!(asked.get(), 1);
    Emit::<i64, String>::Report(Outcome::Failure("no".to_string()))
        .text(&counting_show, &counting_describe);
    assert_eq!(asked.get(), 11);
}

#[test]
fn start_awaits_input_and_emits_the_prompt() {
    let (session, emits) = Repl::start(None, Env::new);
    assert_eq!(session.phase(), &Phase::AwaitingInput);
    assert!(!session.is_closed());
    assert_eq!(emits, vec![Emit::Prompt]);
}

#[test]
fn start_takes_the_environment_it_is_given() {
    let mut env = Env::new();
    env.insert("x".to_string(), 9);
    let asked = Cell::new(false);
    let (session, _) = Repl::start(Some(env.clone()), || {
        asked.set(true);
        Env::new()
    });
    assert_eq!(session.env(), &env);
    assert!(!asked.get());
}

#[test]
fn start_makes_the_default_environment_where_none_is_given() {
    let (session, _) = Repl::start(None, || {
        let mut env = Env::new();
        env.insert("pi".to_string(), 3);
        env
    });
    assert_eq!(session.env().get("pi"), Some(&3));
    assert_eq!(session.env().len(), 1);
}

#[test]
fn read_of_a_line_goes_to_evaluating() {
    let session = started().read(line("+ 1 2"));
    assert_eq!(session.phase(), &Phase::Evaluating("+ 1 2".to_string()));
    assert_eq!(session.env(), &Env::new());
}

#[test]
fn read_of_the_end_closes() {
    let mut env = Env::new();
    env.insert("x".to_string(), 1);
    let session = Repl::start(Some(env.clone()), Env::new).0.read(None);
    assert_eq!(session.phase(), &Phase::Closed);
    assert!(session.is_closed());
    assert_eq!(session.into_env(), env);
}

#[test]
fn evaluate_goes_to_reporting_with_the_outcome() {
    let session = started().read(line("define x 5; + x 1")).evaluate(&parse, &eval);
    assert_eq!(session.phase(), &Phase::Reporting(Outcome::Value(6)));
    assert_eq!(session.env().get("x"), Some(&5));
}

#[test]
fn evaluate_of_a_failing_line_goes_to_reporting() {
    let session = started().read(line("y")).evaluate(&parse, &eval);
    assert_eq!(
        session.phase(),
        &Phase::Reporting(Outcome::Failure("unbound symbol: y".to_string()))
    );
}

#[test]
fn report_hands_out_the_outcome_and_awaits_input() {
    let (session, outcome) = started().read(line("+ 20 22")).evaluate(&parse, &eval).report();
    assert_eq!(outcome, Outcome::Value(42));
    assert_eq!(session.phase(), &Phase::AwaitingInput);
}

#[test]
fn report_keeps_the_environment() {
    let (session, _) = started().read(line("define x 5")).evaluate(&parse, &eval).report();
    assert_eq!(session.env().get("x"), Some(&5));
}

#[test]
fn turn_reports_the_outcome_then_prompts() {
    let (session, emits) = started().turn(line("+ 1 2"), &parse, &eval);
    assert_eq!(emits, vec![Emit::Report(Outcome::Value(3)), Emit::Prompt]);
    assert_eq!(session.phase(), &Phase::AwaitingInput);
}

#[test]
fn turn_is_read_evaluate_report() {
    let (by_turn, emits) = started().turn(line("define x 2; + x x"), &parse, &eval);
    let (by_steps, outcome) =
        started().read(line("define x 2; + x x")).evaluate(&parse, &eval).report();
    assert_eq!(emits, vec![Emit::Report(outcome), Emit::Prompt]);
    assert_eq!(by_turn.phase(), by_steps.phase());
    assert_eq!(by_turn.env(), by_steps.env());
}

#[test]
fn turn_of_an_empty_line_reports_the_empty_outcome() {
    let (session, emits) = started().turn(line(""), &parse, &eval);
    assert_eq!(emits, vec![Emit::Report(Outcome::Empty), Emit::Prompt]);
    assert_eq!(session.phase(), &Phase::AwaitingInput);
    assert_eq!(session.env(), &Env::new());
}

#[test]
fn turn_of_a_line_without_a_valid_form_reports_the_empty_outcome() {
    let (_, emits) = started().turn(line("((( ; define 5 x"), &parse, &eval);
    assert_eq!(emits, vec![Emit::Report(Outcome::Empty), Emit::Prompt]);
}

#[test]
fn turn_at_the_end_of_input_closes_with_one_newline() {
    let mut env = Env::new();
    env.insert("x".to_string(), 1);
    let (session, emits) = Repl::start(Some(env.clone()), Env::new).0.turn(None, &parse, &eval);
    assert_eq!(emits, vec![Emit::Newline]);
    assert!(session.is_closed());
    assert_eq!(session.env(), &env);
}

#[test]
fn turn_at_the_end_of_input_asks_neither_parser_nor_evaluator() {
    let asked = Cell::new(0);
    let counting_parse = |text: &str| {
        asked.set(asked.get() + 1);
        parse(text)
    };
    let counting_eval = |form: &Form, env: Env| {
        asked.set(asked.get() + 1);
        eval(form, env)
    };
    let (session, _) = started().turn(None, &counting_parse, &counting_eval);
    assert!(session.is_closed());
    assert_eq!(asked.get(), 0);
}

#[test]
fn a_definition_is_there_for_a_later_line() {
    let (session, first) = started().turn(line("define x 5"), &parse, &eval);
    let (_, second) = session.turn(line("+ x 1"), &parse, &eval);
    assert_eq!(first, vec![Emit::Report(Outcome::Value(5)), Emit::Prompt]);
    assert_eq!(second, vec![Emit::Report(Outcome::Value(6)), Emit::Prompt]);
}

#[test]
fn trailing_text_that_does_not_parse_leaves_no_trace() {
    let (session, emits) = started().turn(line("+ 1 2; ) oops ("), &parse, &eval);
    let (plain, plain_emits) = started().turn(line("+ 1 2"), &parse, &eval);
    assert_eq!(emits, vec![Emit::Report(Outcome::Value(3)), Emit::Prompt]);
    assert_eq!(emits, plain_emits);
    assert_eq!(session.env(), plain.env());
    assert_eq!(written(&emits), "3\n> ");
}

#[test]
fn only_the_valid_forms_of_a_mixed_line_are_evaluated() {
    let seen = std::cell::RefCell::new(Vec::new());
    let recording = |form: &Form, env: Env| {
        seen.borrow_mut().push(form.clone());
        eval(form, env)
    };
    let (_, emits) = started().turn(line("1; + +; define x 2; x y z; + x 3"), &parse, &recording);
    assert_eq!(emits, vec![Emit::Report(Outcome::Value(5)), Emit::Prompt]);
    assert_eq!(
        *seen.borrow(),
        vec![
            Form::Number(1),
            Form::Define("x".to_string(), Box::new(Form::Number(2))),
            Form::Add(Box::new(Form::Name("x".to_string())), Box::new(Form::Number(3))),
        ]
    );
}

#[test]
fn a_failure_ends_the_line_but_not_the_session() {
    let (session, emits) = started().turn(line("define x 1; y; define x 2"), &parse, &eval);
    assert_eq!(
        emits,
        vec![Emit::Report(Outcome::Failure("unbound symbol: y".to_string())), Emit::Prompt]
    );
    assert!(!session.is_closed());
    assert_eq!(session.env().get("x"), Some(&1));
    let (_, emits) = session.turn(line("+ x 1"), &parse, &eval);
    assert_eq!(emits, vec![Emit::Report(Outcome::Value(2)), Emit::Prompt]);
}

#[test]
fn the_same_line_twice_without_definitions_reports_the_same() {
    let (session, _) = started().turn(line("define x 4"), &parse, &eval);
    let (session, first) = session.turn(line("+ x x"), &parse, &eval);
    let (_, second) = session.turn(line("+ x x"), &parse, &eval);
    assert_eq!(first, vec![Emit::Report(Outcome::Value(8)), Emit::Prompt]);
    assert_eq!(second, first);
}

#[test]
fn a_session_without_lines_writes_the_prompt_and_one_newline() {
    assert_eq!(transcript(&[]), "> \n");
}

#[test]
fn a_session_writes_a_prompt_before_every_read() {
    assert_eq!(
        transcript(&["define x 5", "+ x 1", "nope", "", "x; + x x"]),
        "> 5\n> 6\n> error: unbound symbol: nope\n> \n> 10\n> \n"
    );
}
