use pera::cli::artifacts::slugify;
use pera::cli::config::AgentConfig;
use pera::cli::errors::CliError;
use pera::cli::overrides::{
    apply_override, parse_i64, parse_path, parse_scalar_value, split_assignment, OverrideSet,
};
use pera::cli::run::{resolve_seed_name, terminal_result};
use pera::domain::event::ExecutionEvent;
use pera::domain::ids::RunId;
use pera::domain::value::Value;
use pera::evals::document::{DocNumber, DocValue};
use pera::evals::spec::{
    EvalAgentSpec, EvalError, EvalEvaluationSpec, EvalRuntimeSpec, EvalScenarioSpec, EvalSpec,
    EvalUserSpec, LoadedEvalSpec,
};

fn s(v: &str) -> DocValue {
    DocValue::String(v.to_owned())
}

fn map(entries: Vec<(&str, DocValue)>) -> DocValue {
    DocValue::Mapping(entries.into_iter().map(|(k, v)| (s(k), v)).collect())
}

fn path(parts: &[&str]) -> Vec<String> {
    parts.iter().map(|p| (*p).to_owned()).collect()
}

fn num(n: u64) -> DocValue {
    DocValue::Number(DocNumber::PosInt(n))
}

#[test]
fn assignments_split_at_the_first_equals_sign() {
    assert_eq!(
        split_assignment("a.b=1=2").unwrap(),
        ("a.b".to_owned(), "1=2".to_owned())
    );
    assert_eq!(split_assignment("=x").unwrap(), ("".to_owned(), "x".to_owned()));
    assert_eq!(
        split_assignment("abc").unwrap_err(),
        CliError::InvalidArguments("override values must use PATH=VALUE syntax".to_owned())
    );
}

#[test]
fn paths_drop_blank_segments_and_trim_the_rest() {
    assert_eq!(parse_path(" a . b ..c ").unwrap(), path(&["a", "b", "c"]));
    assert_eq!(parse_path("runtime.output_folder").unwrap(), path(&["runtime", "output_folder"]));
    assert_eq!(
        parse_path(" . ").unwrap_err(),
        CliError::InvalidArguments("override path cannot be empty".to_owned())
    );
    assert_eq!(
        parse_path("").unwrap_err(),
        CliError::InvalidArguments("override path cannot be empty".to_owned())
    );
}

#[test]
fn integers_read_as_i64_does() {
    assert_eq!(parse_i64("42"), Some(42));
    assert_eq!(parse_i64("-7"), Some(-7));
    assert_eq!(parse_i64("+3"), Some(3));
    assert_eq!(parse_i64("007"), Some(7));
    assert_eq!(parse_i64("9223372036854775807"), Some(i64::MAX));
    assert_eq!(parse_i64("-9223372036854775808"), Some(i64::MIN));
    assert_eq!(parse_i64("9223372036854775808"), None);
    assert_eq!(parse_i64("1.5"), None);
    assert_eq!(parse_i64("-"), None);
    assert_eq!(parse_i64(""), None);
    assert_eq!(parse_i64(" 1"), None);
}

#[test]
fn scalar_values_become_null_booleans_numbers_or_strings() {
    assert_eq!(parse_scalar_value("null", None), DocValue::Null);
    assert_eq!(parse_scalar_value("true", None), DocValue::Bool(true));
    assert_eq!(parse_scalar_value("false", None), DocValue::Bool(false));
    assert_eq!(parse_scalar_value("12", None), num(12));
    assert_eq!(parse_scalar_value("-3", None), DocValue::Number(DocNumber::NegInt(-3)));
    let bits = 1.5f64.to_bits();
    assert_eq!(
        parse_scalar_value("1.5", Some(bits)),
        DocValue::Number(DocNumber::Float { bits })
    );
    assert_eq!(parse_scalar_value("12", Some(12f64.to_bits())), num(12));
    assert_eq!(parse_scalar_value("True", None), s("True"));
    assert_eq!(parse_scalar_value("abc", None), s("abc"));
}

#[test]
fn overrides_create_missing_mappings_along_the_path() {
    let mut root = map(vec![]);
    apply_override(&mut root, &path(&["a", "b"]), num(1)).unwrap();
    assert_eq!(root, map(vec![("a", map(vec![("b", num(1))]))]));

    let mut root = map(vec![("a", DocValue::Null)]);
    apply_override(&mut root, &path(&["a", "b", "c"]), s("x")).unwrap();
    assert_eq!(root, map(vec![("a", map(vec![("b", map(vec![("c", s("x"))]))]))]));
}

#[test]
fn overrides_replace_existing_values_in_place() {
    let mut root = map(vec![("x", num(1)), ("y", num(2)), ("z", num(3))]);
    apply_override(&mut root, &path(&["y"]), s("two")).unwrap();
    assert_eq!(root, map(vec![("x", num(1)), ("y", s("two")), ("z", num(3))]));

    apply_override(&mut root, &path(&["w"]), DocValue::Null).unwrap();
    assert_eq!(
        root,
        map(vec![("x", num(1)), ("y", s("two")), ("z", num(3)), ("w", DocValue::Null)])
    );
}

#[test]
fn overrides_fail_through_or_at_a_non_object() {
    let mut root = map(vec![("a", num(5))]);
    let before = root.clone();
    assert_eq!(
        apply_override(&mut root, &path(&["a", "b", "c"]), num(1)).unwrap_err(),
        CliError::UnexpectedStateOwned(
            "override path 'a.b.c' traverses a non-object value".to_owned()
        )
    );
    assert_eq!(root, before);
    assert_eq!(
        apply_override(&mut root, &path(&["a", "b"]), num(1)).unwrap_err(),
        CliError::UnexpectedStateOwned(
            "override path 'a.b' does not target an object field".to_owned()
        )
    );
    assert_eq!(root, before);

    let mut root = map(vec![("a", map(vec![("b", num(2))]))]);
    assert_eq!(
        apply_override(&mut root, &path(&["a", "b", "c"]), num(1)).unwrap_err(),
        CliError::UnexpectedStateOwned(
            "override path 'a.b.c' does not target an object field".to_owned()
        )
    );

    let mut root = DocValue::Null;
    assert_eq!(
        apply_override(&mut root, &path(&["x"]), num(1)).unwrap_err(),
        CliError::UnexpectedStateOwned("override path 'x' does not target an object field".to_owned())
    );
    assert_eq!(root, DocValue::Null);
}

#[test]
fn override_sets_read_scalars_then_json_and_apply_in_order() {
    let sets = vec!["a.b=1".to_owned(), " a . c = yes".to_owned(), "a.b=2".to_owned()];
    let bits = vec![Some(1f64.to_bits()), None, Some(2f64.to_bits())];
    let json_sets = vec!["d={\"k\": true, \"n\": -3, \"a\": [1.5]}".to_owned()];
    let overrides = OverrideSet::from_cli(&sets, &bits, &json_sets).unwrap();
    let entries = overrides.entries();
    assert_eq!(entries.len(), 4);
    assert_eq!(entries[1].0, path(&["a", "c"]));
    assert_eq!(entries[1].1, s(" yes"));
    assert_eq!(entries[3].0, path(&["d"]));

    let mut root = map(vec![]);
    overrides.apply(&mut root).unwrap();
    assert_eq!(
        root,
        map(vec![
            ("a", map(vec![("b", num(2)), ("c", s(" yes"))])),
            (
                "d",
                map(vec![
                    ("a", DocValue::Sequence(vec![DocValue::Number(DocNumber::Float { bits: 1.5f64.to_bits() })])),
                    ("k", DocValue::Bool(true)),
                    ("n", DocValue::Number(DocNumber::NegInt(-3))),
                ])
            ),
        ])
    );
}

#[test]
fn override_sets_report_the_first_bad_setting() {
    let err = OverrideSet::from_cli(
        &vec!["ok=1".to_owned(), "broken".to_owned()],
        &vec![None, None],
        &vec![],
    )
    .unwrap_err();
    assert_eq!(
        err,
        CliError::InvalidArguments("override values must use PATH=VALUE syntax".to_owned())
    );

    let err = OverrideSet::from_cli(&vec![], &vec![], &vec!["a.b={".to_owned()]).unwrap_err();
    match err {
        CliError::UnexpectedStateOwned(m) => {
            assert!(m.starts_with("invalid JSON override for 'a.b': EOF while parsing an object"))
        }
        other => panic!("unexpected error {other:?}"),
    }

    let err = OverrideSet::from_cli(&vec![". =1".to_owned()], &vec![None], &vec![]).unwrap_err();
    assert_eq!(err, CliError::InvalidArguments("override path cannot be empty".to_owned()));
}

#[test]
fn applying_overrides_stops_at_the_first_failure() {
    let overrides = OverrideSet::from_cli(
        &vec!["a=1".to_owned(), "a.b=2".to_owned(), "c=3".to_owned()],
        &vec![None, None, None],
        &vec![],
    )
    .unwrap();
    let mut root = map(vec![]);
    let err = overrides.apply(&mut root).unwrap_err();
    assert_eq!(
        err,
        CliError::UnexpectedStateOwned(
            "override path 'a.b' does not target an object field".to_owned()
        )
    );
    assert_eq!(root, map(vec![("a", num(1))]));
}

#[test]
fn slugs_keep_alphanumerics_and_join_the_rest_with_dashes() {
    assert_eq!(slugify("Berlin Trip: Q2!"), "berlin-trip-q2");
    assert_eq!(slugify("--a__b--"), "a-b");
    assert_eq!(slugify("!!!"), "eval");
    assert_eq!(slugify(""), "eval");
    assert_eq!(slugify("ÄBC"), "bc");
}

#[test]
fn agent_config_needs_both_key_and_model_or_neither() {
    let c = AgentConfig::from_openai("/tmp/pera".to_owned(), false, None, Some("  ".to_owned()))
        .unwrap();
    assert!(c.openai.is_none());
    let c = AgentConfig::from_openai(
        "/tmp/pera".to_owned(),
        true,
        Some(" key ".to_owned()),
        Some("gpt".to_owned()),
    )
    .unwrap();
    let o = c.openai.unwrap();
    assert_eq!(o.api_key, "key");
    assert_eq!(o.model, "gpt");
    assert_eq!(
        AgentConfig::from_openai("r".to_owned(), false, Some("k".to_owned()), None).unwrap_err(),
        CliError::InvalidArguments("OPENAI_MODEL is required when OPENAI_API_KEY is set".to_owned())
    );
    assert_eq!(
        AgentConfig::from_openai("r".to_owned(), false, None, Some("m".to_owned())).unwrap_err(),
        CliError::InvalidArguments("OPENAI_API_KEY is required when OPENAI_MODEL is set".to_owned())
    );
}

#[test]
fn errors_report_their_message() {
    assert_eq!(CliError::InvalidArguments("bad".to_owned()).message(), "bad");
    assert_eq!(
        CliError::UnexpectedStateOwned("boom".to_owned()).message(),
        "execution failed: boom"
    );
    assert_eq!(
        CliError::ReadFile { path: "a.yaml".to_owned(), message: "gone".to_owned() }.message(),
        "failed to read a.yaml: gone"
    );
    assert_eq!(
        CliError::UnknownRun(RunId { value: 0x0123456789abcdef0011223344556677 }).message(),
        "run 01234567-89ab-cdef-0011-223344556677 was not found"
    );
    assert_eq!(
        CliError::Store("locked".to_owned()).message(),
        "filesystem state initialization failed: locked"
    );
    assert_eq!(CliError::Engine("x".to_owned()).message(), "execution failed: x");
    assert_eq!(
        CliError::CreateDir { path: "d".to_owned(), message: "m".to_owned() }.message(),
        "failed to create d: m"
    );
    assert_eq!(
        CliError::WriteFile { path: "f".to_owned(), message: "m".to_owned() }.message(),
        "failed to write f: m"
    );
    assert_eq!(
        CliError::CopyPath {
            source_path: "a".to_owned(),
            target_path: "b".to_owned(),
            message: "m".to_owned(),
        }
        .message(),
        "failed to copy a to b: m"
    );
    assert_eq!(
        CliError::ToolNotInstalled { tool: "uv".to_owned(), hint: "Install it.".to_owned() }.message(),
        "uv is not installed. Install it."
    );
    assert_eq!(
        CliError::ToolIo { tool: "uv".to_owned(), message: "denied".to_owned() }.message(),
        "failed to run uv: denied"
    );
    assert_eq!(
        CliError::ToolFailed {
            tool: "cargo".to_owned(),
            status: "exit status: 1".to_owned(),
            stderr: "  \n".to_owned(),
        }
        .message(),
        "cargo exited with status exit status: 1"
    );
    assert_eq!(
        CliError::ToolFailed {
            tool: "cargo".to_owned(),
            status: "exit status: 2".to_owned(),
            stderr: " oops\n".to_owned(),
        }
        .message(),
        "cargo exited with status exit status: 2: oops"
    );
}

#[test]
fn engine_errors_become_cli_errors() {
    assert_eq!(
        CliError::from_eval(EvalError::ReadFile { path: "p".to_owned(), message: "m".to_owned() }),
        CliError::ReadFile { path: "p".to_owned(), message: "m".to_owned() }
    );
    assert_eq!(
        CliError::from_eval(EvalError::InvalidSpec("bad".to_owned())),
        CliError::UnexpectedStateOwned("bad".to_owned())
    );
    assert_eq!(
        CliError::from_eval(EvalError::Internal("x".to_owned())),
        CliError::UnexpectedStateOwned("x".to_owned())
    );
}

#[test]
fn a_watched_run_ends_when_it_completes_or_fails() {
    let run = RunId { value: 7 };
    assert_eq!(
        terminal_result(&ExecutionEvent::RunCompleted { run_id: run, value: Value::Null }),
        Some(Ok(()))
    );
    assert_eq!(
        terminal_result(&ExecutionEvent::RunFailed { run_id: run, message: "no".to_owned() }),
        Some(Err(CliError::UnexpectedStateOwned("no".to_owned())))
    );
    assert_eq!(terminal_result(&ExecutionEvent::RunStarted { run_id: run }), None);
}

#[test]
fn seeds_default_unless_one_is_named() {
    let default = Some("base".to_owned());
    assert_eq!(resolve_seed_name("db", &default, None).unwrap(), Some("base".to_owned()));
    assert_eq!(resolve_seed_name("db", &None, None).unwrap(), None);
    assert_eq!(resolve_seed_name("db", &default, Some("")).unwrap(), Some("base".to_owned()));
    assert_eq!(resolve_seed_name("db", &None, Some("x")).unwrap(), Some("x".to_owned()));
    assert_eq!(
        resolve_seed_name("db", &None, Some("")).unwrap_err(),
        CliError::UnexpectedStateOwned("database 'db' has no default seed".to_owned())
    );
}

fn loaded(raw: DocValue) -> LoadedEvalSpec {
    LoadedEvalSpec {
        raw,
        spec: EvalSpec {
            schema_version: Some(1),
            id: "trip".to_owned(),
            description: None,
            runtime: EvalRuntimeSpec {
                output_folder: "runs".to_owned(),
                skill_sources: Vec::new(),
                catalog: Vec::new(),
                active_skills: Vec::new(),
            },
            scenario: EvalScenarioSpec {
                purpose: "p".to_owned(),
                user: EvalUserSpec::Scripted {
                    task: "t".to_owned(),
                    known_info: "k".to_owned(),
                    initial_message: "m".to_owned(),
                },
                agent: EvalAgentSpec { persona: None },
                history: Vec::new(),
            },
            evaluation: EvalEvaluationSpec { criteria: Vec::new() },
            optimization: None,
        },
    }
}

#[test]
fn output_folder_overrides_reach_spec_and_document() {
    let mut spec = loaded(map(vec![("id", s("trip")), ("runtime", map(vec![("output_folder", s("runs"))]))]));
    spec.override_output_folder("elsewhere".to_owned()).unwrap();
    assert_eq!(spec.spec.runtime.output_folder, "elsewhere");
    assert_eq!(
        spec.raw,
        map(vec![("id", s("trip")), ("runtime", map(vec![("output_folder", s("elsewhere"))]))])
    );

    let mut spec = loaded(map(vec![("id", s("trip"))]));
    spec.override_output_folder("o".to_owned()).unwrap();
    assert_eq!(
        spec.raw,
        map(vec![("id", s("trip")), ("runtime", map(vec![("output_folder", s("o"))]))])
    );

    let mut spec = loaded(map(vec![("runtime", s("flat"))]));
    assert_eq!(
        spec.override_output_folder("o".to_owned()).unwrap_err(),
        EvalError::Internal("resolved eval spec runtime must be an object".to_owned())
    );
    assert_eq!(spec.spec.runtime.output_folder, "o");
    assert_eq!(spec.raw, map(vec![("runtime", s("flat"))]));

    let mut spec = loaded(s("not a mapping"));
    assert_eq!(
        spec.override_output_folder("o".to_owned()).unwrap_err(),
        EvalError::Internal("resolved eval spec root must be an object".to_owned())
    );
}

use pera::cli::artifacts::run_dir_candidate;

#[test]
fn run_directories_carry_time_slug_and_counter() {
    assert_eq!(run_dir_candidate("20260406T101500Z", "Berlin Trip", None), "20260406T101500Z-berlin-trip");
    assert_eq!(
        run_dir_candidate("20260406T101500Z", "Berlin Trip", Some(2)),
        "20260406T101500Z-berlin-trip-2"
    );
    assert_eq!(run_dir_candidate("t", "", Some(10)), "t-eval-10");
    assert_ne!(run_dir_candidate("t", "x", Some(1)), run_dir_candidate("t", "x", Some(11)));
}
