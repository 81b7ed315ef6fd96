//! The driver: one translation request, from its admission to the output.
//!
//! A request starts idle. The admission gate admits it or rejects it. An admitted request is
//! translated where a front end and a backend are registered for its two languages and the
//! front end finds something to translate; else it ends with an error, still admitted.
//! Nothing is retried and nothing is kept between requests.
use vstd::prelude::*;
use vstd::utf8::{valid_utf8, decode_utf8};

use crate::error::TranslateError;
use crate::text::{chars_of, is_str};
use crate::gate::{Gate, Admission, admission, normalized_ratio, normalized_ratio_of};
use crate::syntax::{SyntaxNode, Grammar, syntax_tree, parse};
use crate::walker::{Ueg, NodeView, lower_to_rust, rust_text};
use crate::python::{python_graph, python_to_ueg, lossy_text};
use crate::ueg_python::{lower_to_python, python_text};
use crate::targets::go::{lower_to_go, go_text};
use crate::targets::zig::{lower_to_zig, zig_text};
use crate::walker_move::{move_to_rust, rust_of_move};
use crate::walker_swift::{swift_to_rust_regex, rust_of_swift_text};
use crate::walker_ts::{typescript_to_swift, swift_of_typescript};
use crate::walker_zig::{zig_to_rust, go_to_zig, zig_of_go_declarations};

verus! {

/// The languages that the driver knows by name.
#[derive(Debug, Clone, Copy, PartialEq, Eq)]
pub enum Language {
    Python,
    Go,
    Move,
    TypeScript,
    Swift,
    Zig,
    Rust,
}

/// A registered pair of a front end and a backend.
#[derive(Debug, Clone, Copy, PartialEq, Eq)]
pub enum Route {
    PythonToRust,
    PythonToPython,
    PythonToGo,
    PythonToZig,
    GoToZig,
    MoveToRust,
    TypeScriptToSwift,
    SwiftToRust,
    ZigToRust,
}

/// Where a request stands.
#[derive(Debug, Clone, Copy, PartialEq, Eq)]
pub enum Phase {
    Idle,
    Gated,
    Translated,
    Rejected,
}

/// How a request ended.
#[derive(Debug, PartialEq, Eq)]
pub struct Outcome {
    pub phase: Phase,
    pub result: Result<String, TranslateError>,
}

/// The language that `name` names.
pub open spec fn language_named(name: Seq<char>) -> Option<Language> {
    if name == "python"@ {
        Some(Language::Python)
    } else if name == "go"@ {
        Some(Language::Go)
    } else if name == "move"@ {
        Some(Language::Move)
    } else if name == "typescript"@ || name == "ts"@ || name == "tsx"@ {
        Some(Language::TypeScript)
    } else if name == "swift"@ {
        Some(Language::Swift)
    } else if name == "zig"@ {
        Some(Language::Zig)
    } else if name == "rust"@ {
        Some(Language::Rust)
    } else {
        None
    }
}

/// The route from `from` to `to`, where one is registered.
pub open spec fn route_between(from: Language, to: Language) -> Option<Route> {
    match (from, to) {
        (Language::Python, Language::Rust) => Some(Route::PythonToRust),
        (Language::Python, Language::Python) => Some(Route::PythonToPython),
        (Language::Python, Language::Go) => Some(Route::PythonToGo),
        (Language::Python, Language::Zig) => Some(Route::PythonToZig),
        (Language::Go, Language::Zig) => Some(Route::GoToZig),
        (Language::Move, Language::Rust) => Some(Route::MoveToRust),
        (Language::TypeScript, Language::Swift) => Some(Route::TypeScriptToSwift),
        (Language::Swift, Language::Rust) => Some(Route::SwiftToRust),
        (Language::Zig, Language::Rust) => Some(Route::ZigToRust),
        _ => None,
    }
}

/// The route for two language names.
pub open spec fn route_named(from: Seq<char>, to: Seq<char>) -> Option<Route> {
    match (language_named(from), language_named(to)) {
        (Some(f), Some(t)) => route_between(f, t),
        _ => None,
    }
}

/// What the backend named by `route` makes of the graph `g`.
pub open spec fn lowered(route: Route, g: Seq<NodeView>) -> Seq<char> {
    match route {
        Route::PythonToPython => python_text(g),
        Route::PythonToGo => go_text(g),
        Route::PythonToZig => zig_text(g),
        _ => rust_text(g),
    }
}

/// The grammar that the source of `route` is parsed with, where the route parses it.
pub open spec fn grammar_of(route: Route) -> Option<Grammar> {
    match route {
        Route::PythonToRust | Route::PythonToPython | Route::PythonToGo | Route::PythonToZig => {
            Some(Grammar::Python)
        },
        Route::GoToZig => Some(Grammar::Go),
        Route::TypeScriptToSwift => Some(Grammar::Tsx),
        Route::ZigToRust => Some(Grammar::Zig),
        Route::MoveToRust | Route::SwiftToRust => None,
    }
}

/// The output of `route` for `input`, or why there is none: a source that the parser
/// gives no tree for, and Python that declares no unit, hold nothing to translate.
pub open spec fn translation(route: Route, input: Seq<char>) -> Result<Seq<char>, TranslateError> {
    match route {
        Route::MoveToRust => Ok(rust_of_move(input)),
        Route::SwiftToRust => Ok(rust_of_swift_text(input)),
        _ => match syntax_tree(grammar_of(route).unwrap(), input) {
            None => Err(TranslateError::NoTranslatableUnit),
            Some(root) => match route {
                Route::GoToZig => Ok(zig_of_go_declarations(root)),
                Route::TypeScriptToSwift => Ok(swift_of_typescript(root)),
                Route::ZigToRust => Ok(crate::walker_zig::rust_of(root)),
                _ => if python_graph(input).len() > 0 {
                    Ok(lowered(route, python_graph(input)))
                } else {
                    Err(TranslateError::NoTranslatableUnit)
                },
            },
        },
    }
}

/// The characters of the output, or the error.
pub open spec fn result_view(r: Result<String, TranslateError>) -> Result<
    Seq<char>,
    TranslateError,
> {
    match r {
        Ok(s) => Ok(s@),
        Err(e) => Err(e),
    }
}

/// Phase and result of the request: rejected at admission with the ratio; else admitted,
/// and translated exactly where the pair of names is registered and the translation
/// gives an output.
pub open spec fn outcome_of(
    threshold_ppm: u32,
    from: Seq<char>,
    to: Seq<char>,
    input: Seq<char>,
    ratio_ppm: u32,
) -> (Phase, Result<Seq<char>, TranslateError>) {
    match admission(input, ratio_ppm, threshold_ppm) {
        Admission::Reject { ratio_ppm } => (
            Phase::Rejected,
            Err(TranslateError::AdmissionRejected { ratio_ppm }),
        ),
        Admission::Accept => match route_named(from, to) {
            None => (Phase::Gated, Err(TranslateError::UnsupportedLanguagePair)),
            Some(route) => match translation(route, input) {
                Ok(out) => (Phase::Translated, Ok(out)),
                Err(e) => (Phase::Gated, Err(e)),
            },
        },
    }
}

/// The phase that follows `phase` after the decision `decision` on admission: only an idle
/// request is screened.
pub open spec fn after_screening(phase: Phase, decision: Admission) -> Phase {
    match (phase, decision) {
        (Phase::Idle, Admission::Accept) => Phase::Gated,
        (Phase::Idle, Admission::Reject { ratio_ppm }) => Phase::Rejected,
        _ => phase,
    }
}

/// The phase that follows `phase` when the translation has ended: only an admitted
/// request that has an output is translated.
pub open spec fn after_translation(phase: Phase, has_output: bool) -> Phase {
    if phase == Phase::Gated && has_output {
        Phase::Translated
    } else {
        phase
    }
}

/// Every request goes from idle through the two steps to its outcome; a rejected or a
/// translated request never moves again.
pub proof fn lemma_phases(
    threshold_ppm: u32,
    from: Seq<char>,
    to: Seq<char>,
    input: Seq<char>,
    ratio_ppm: u32,
)
    ensures
        outcome_of(threshold_ppm, from, to, input, ratio_ppm).0 == after_translation(
            after_screening(Phase::Idle, admission(input, ratio_ppm, threshold_ppm)),
            outcome_of(threshold_ppm, from, to, input, ratio_ppm).1 is Ok,
        ),
        outcome_of(threshold_ppm, from, to, input, ratio_ppm).0 != Phase::Idle,
        forall|v: Admission, b: bool|
            after_screening(Phase::Rejected, v) == Phase::Rejected && after_translation(
                Phase::Rejected,
                b,
            ) == Phase::Rejected,
        forall|v: Admission, b: bool|
            after_screening(Phase::Translated, v) == Phase::Translated && after_translation(
                Phase::Translated,
                b,
            ) == Phase::Translated,
{
}

/// The language that `name` names.
pub fn language_from_name(name: &str) -> (r: Option<Language>)
    ensures
        r == language_named(name@),
{
    let v = chars_of(name);
    if is_str(&v, "python") {
        Some(Language::Python)
    } else if is_str(&v, "go") {
        Some(Language::Go)
    } else if is_str(&v, "move") {
        Some(Language::Move)
    } else if is_str(&v, "typescript") || is_str(&v, "ts") || is_str(&v, "tsx") {
        Some(Language::TypeScript)
    } else if is_str(&v, "swift") {
        Some(Language::Swift)
    } else if is_str(&v, "zig") {
        Some(Language::Zig)
    } else if is_str(&v, "rust") {
        Some(Language::Rust)
    } else {
        None
    }
}

/// The route for two language names; an error for a pair that is not registered.
pub fn select_route(from: &str, to: &str) -> (r: Result<Route, TranslateError>)
    ensures
        match r {
            Ok(route) => route_named(from@, to@) == Some(route),
            Err(e) => route_named(from@, to@) is None && e
                == TranslateError::UnsupportedLanguagePair,
        },
{
    let route = match (language_from_name(from), language_from_name(to)) {
        (Some(f), Some(t)) => match (f, t) {
            (Language::Python, Language::Rust) => Some(Route::PythonToRust),
            (Language::Python, Language::Python) => Some(Route::PythonToPython),
            (Language::Python, Language::Go) => Some(Route::PythonToGo),
            (Language::Python, Language::Zig) => Some(Route::PythonToZig),
            (Language::Go, Language::Zig) => Some(Route::GoToZig),
            (Language::Move, Language::Rust) => Some(Route::MoveToRust),
            (Language::TypeScript, Language::Swift) => Some(Route::TypeScriptToSwift),
            (Language::Swift, Language::Rust) => Some(Route::SwiftToRust),
            (Language::Zig, Language::Rust) => Some(Route::ZigToRust),
            _ => None,
        },
        _ => None,
    };
    match route {
        Some(r) => Ok(r),
        None => Err(TranslateError::UnsupportedLanguagePair),
    }
}

/// The registered pairs, for the message that reports an unsupported pair.
pub fn supported_pairs() -> (r: Vec<(Language, Language)>)
    ensures
        forall|f: Language, t: Language|
            route_between(f, t) is Some <==> r@.contains((f, t)),
{
    let mut r: Vec<(Language, Language)> = Vec::new();
    r.push((Language::Python, Language::Rust));
    r.push((Language::Python, Language::Python));
    r.push((Language::Python, Language::Go));
    r.push((Language::Python, Language::Zig));
    r.push((Language::Go, Language::Zig));
    r.push((Language::Move, Language::Rust));
    r.push((Language::TypeScript, Language::Swift));
    r.push((Language::Swift, Language::Rust));
    r.push((Language::Zig, Language::Rust));
    proof {
        assert(r@[0] == (Language::Python, Language::Rust));
        assert(r@[1] == (Language::Python, Language::Python));
        assert(r@[2] == (Language::Python, Language::Go));
        assert(r@[3] == (Language::Python, Language::Zig));
        assert(r@[4] == (Language::Go, Language::Zig));
        assert(r@[5] == (Language::Move, Language::Rust));
        assert(r@[6] == (Language::TypeScript, Language::Swift));
        assert(r@[7] == (Language::Swift, Language::Rust));
        assert(r@[8] == (Language::Zig, Language::Rust));
    }
    r
}

/// Lowers the graph with the backend of `route`.
pub fn lower(route: Route, ueg: &Ueg) -> (r: Result<String, TranslateError>)
    ensures
        match r {
            Ok(out) => ueg.is_valid() && out@ == lowered(route, ueg@),
            Err(e) => !ueg.is_valid() && e == TranslateError::NoTranslatableUnit,
        },
{
    match route {
        Route::PythonToPython => lower_to_python(ueg),
        Route::PythonToGo => lower_to_go(ueg),
        Route::PythonToZig => lower_to_zig(ueg),
        _ => lower_to_rust(ueg),
    }
}

/// Translates Python to Rust, for a source that was screened with the decision `decision`.
pub fn python_to_rust(root: &SyntaxNode, source: &[u8], decision: Admission) -> (r: Result<
    String,
    TranslateError,
>)
    ensures
        match decision {
            Admission::Reject { ratio_ppm } => r == Err::<String, TranslateError>(
                TranslateError::AdmissionRejected { ratio_ppm },
            ),
            Admission::Accept => if python_graph(lossy_text(source@)).len() > 0 {
                r is Ok && r.unwrap()@ == rust_text(python_graph(lossy_text(source@)))
            } else {
                r == Err::<String, TranslateError>(TranslateError::NoTranslatableUnit)
            },
        },
        decision == Admission::Accept && valid_utf8(source@) ==> if python_graph(
            decode_utf8(source@),
        ).len() > 0 {
            r is Ok && r.unwrap()@ == rust_text(python_graph(decode_utf8(source@)))
        } else {
            r == Err::<String, TranslateError>(TranslateError::NoTranslatableUnit)
        },
{
    match decision {
        Admission::Reject { ratio_ppm } => Err(TranslateError::AdmissionRejected { ratio_ppm }),
        Admission::Accept => {
            let ueg = python_to_ueg(root, source);
            lower_to_rust(&ueg)
        },
    }
}

/// Runs `route` on `input`.
pub fn run(route: Route, input: &str) -> (r: Result<String, TranslateError>)
    ensures
        result_view(r) == translation(route, input@),
{
    match route {
        Route::MoveToRust => Ok(move_to_rust(input)),
        Route::SwiftToRust => Ok(swift_to_rust_regex(input)),
        Route::ZigToRust => match zig_to_rust(input) {
            Some(out) => Ok(out),
            None => Err(TranslateError::NoTranslatableUnit),
        },
        Route::GoToZig => match parse(Grammar::Go, input) {
            Some(root) => Ok(go_to_zig(&root)),
            None => Err(TranslateError::NoTranslatableUnit),
        },
        Route::TypeScriptToSwift => match parse(Grammar::Tsx, input) {
            Some(root) => Ok(typescript_to_swift(&root)),
            None => Err(TranslateError::NoTranslatableUnit),
        },
        _ => match parse(Grammar::Python, input) {
            Some(root) => {
                proof {
                    vstd::utf8::encode_utf8_valid_utf8(input@);
                    vstd::utf8::encode_utf8_decode_utf8(input@);
                }
                let ueg = python_to_ueg(&root, input.as_bytes());
                lower(route, &ueg)
            },
            None => Err(TranslateError::NoTranslatableUnit),
        },
    }
}

/// Handles one request: screens the input with its normalized ratio, selects the route for
/// the two language names, and translates. The caller has measured the entropy of the
/// input as `measured_ppm` millionths of the greatest that its distinct characters can have.
pub fn translate(gate: &Gate, from: &str, to: &str, input: &str, measured_ppm: u32) -> (o: Outcome)
    ensures
        (o.phase, result_view(o.result)) == outcome_of(
            gate.threshold(),
            from@,
            to@,
            input@,
            normalized_ratio(input@, measured_ppm),
        ),
{
    match gate.screen(input, normalized_ratio_of(input, measured_ppm)) {
        Admission::Reject { ratio_ppm } => Outcome {
            phase: Phase::Rejected,
            result: Err(TranslateError::AdmissionRejected { ratio_ppm }),
        },
        Admission::Accept => match select_route(from, to) {
            Err(e) => Outcome { phase: Phase::Gated, result: Err(e) },
            Ok(route) => match run(route, input) {
                Ok(out) => Outcome { phase: Phase::Translated, result: Ok(out) },
                Err(e) => Outcome { phase: Phase::Gated, result: Err(e) },
            },
        },
    }
}

} // verus!
