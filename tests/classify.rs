use cargo_dash::cargo::{
    classify, ClassifyError, CompilerEvent, Field, Outcome, RawTestMessage, SuiteEvent, TestEvent,
    TestMessage,
};
use cargo_dash::json::{chars_of, parse_count, parse_nanos, JsonError};

fn nanos(s: &str) -> Option<u64> {
    parse_nanos(&chars_of(s))
}

fn test_event(line: &str) -> TestEvent {
    match classify(line.as_bytes()) {
        Ok(TestMessage::Event(RawTestMessage::Test(t))) => t,
        _ => panic!("not a test event: {line}"),
    }
}

fn suite_event(line: &str) -> SuiteEvent {
    match classify(line.as_bytes()) {
        Ok(TestMessage::Event(RawTestMessage::Suite(s))) => s,
        _ => panic!("not a suite event: {line}"),
    }
}

fn error(line: &str) -> ClassifyError {
    match classify(line.as_bytes()) {
        Err(e) => e,
        Ok(_) => panic!("classified: {line}"),
    }
}

#[test]
fn nanos_from_decimal_and_exponent_forms() {
    assert_eq!(nanos("0.000003428"), Some(3428));
    assert_eq!(nanos("3.428e-6"), Some(3428));
    assert_eq!(nanos("8.1092e-5"), Some(81092));
    assert_eq!(nanos("0.000731068"), Some(731068));
    assert_eq!(nanos("1.5"), Some(1_500_000_000));
    assert_eq!(nanos("2"), Some(2_000_000_000));
    assert_eq!(nanos("1e+2"), Some(100_000_000_000));
    assert_eq!(nanos("1.0000000009"), Some(1_000_000_000));
    assert_eq!(nanos("0e99999999999999999999999"), Some(0));
    assert_eq!(nanos("5e-99999999999999999999999"), Some(0));
    assert_eq!(nanos("1e99999999999999999999999"), None);
    assert_eq!(nanos("-1.0"), None);
    assert_eq!(nanos("1."), None);
    assert_eq!(nanos(".5"), None);
    assert_eq!(nanos("1e"), None);
    assert_eq!(nanos(""), None);
    assert_eq!(nanos("18446744073.709551615"), Some(u64::MAX));
    assert_eq!(nanos("18446744073.709551616"), None);
}

#[test]
fn counts_from_digits_only() {
    assert_eq!(parse_count(&chars_of("0")), Some(0));
    assert_eq!(parse_count(&chars_of("18446744073709551615")), Some(u64::MAX));
    assert_eq!(parse_count(&chars_of("18446744073709551616")), None);
    assert_eq!(parse_count(&chars_of("1.0")), None);
    assert_eq!(parse_count(&chars_of("")), None);
}

#[test]
fn classify_test_started() {
    match test_event(r#"{"type":"test","event":"started","name":"a::b"}"#) {
        TestEvent::Started { name } => assert_eq!(name, "a::b"),
        _ => panic!(),
    }
}

#[test]
fn classify_test_ok_with_output() {
    let line = r#"{"type":"test","name":"t","event":"ok","exec_time":0.000003428,"stdout":"hello world","extra":[1,2]}"#;
    match test_event(line) {
        TestEvent::Finished { name, outcome, exec_time, stdout } => {
            assert_eq!(name, "t");
            assert_eq!(outcome, Outcome::Passed);
            assert_eq!(exec_time, 3428);
            assert_eq!(stdout.as_deref(), Some("hello world"));
        }
        _ => panic!(),
    }
}

#[test]
fn classify_test_failed_without_output() {
    match test_event(r#"{"type":"test","name":"f","event":"failed","exec_time":1.25,"stdout":null}"#) {
        TestEvent::Finished { outcome, exec_time, stdout, .. } => {
            assert_eq!(outcome, Outcome::Failed);
            assert_eq!(exec_time, 1_250_000_000);
            assert!(stdout.is_none());
        }
        _ => panic!(),
    }
}

#[test]
fn classify_test_ignored() {
    match test_event(r#"{"type":"test","event":"ignored","name":"slow"}"#) {
        TestEvent::Ignored { name } => assert_eq!(name, "slow"),
        _ => panic!(),
    }
}

#[test]
fn classify_suite_events() {
    assert_eq!(
        suite_event(r#"{"type":"suite","event":"started","test_count":3}"#),
        SuiteEvent::Started { test_count: 3 }
    );
    let line = r#"{"type":"suite","event":"ok","passed":2,"failed":0,"ignored":1,"measured":0,"filtered_out":4,"exec_time":0.000731068}"#;
    assert_eq!(
        suite_event(line),
        SuiteEvent::Finished {
            outcome: Outcome::Passed,
            passed: 2,
            failed: 0,
            ignored: 1,
            measured: 0,
            filtered_out: 4,
            exec_time: 731068,
        }
    );
}

#[test]
fn classify_missing_fields_are_named() {
    assert_eq!(
        error(r#"{"type":"test","event":"ok","name":"t"}"#),
        ClassifyError::MissingField(Field::ExecTime)
    );
    assert_eq!(
        error(r#"{"type":"test","event":"started"}"#),
        ClassifyError::MissingField(Field::Name)
    );
    assert_eq!(
        error(r#"{"type":"suite","event":"started"}"#),
        ClassifyError::MissingField(Field::TestCount)
    );
    assert_eq!(
        error(r#"{"type":"suite","event":"failed","passed":0,"failed":1,"ignored":0,"filtered_out":0,"exec_time":0.1}"#),
        ClassifyError::MissingField(Field::Measured)
    );
    assert_eq!(error(r#"{"event":"ok"}"#), ClassifyError::MissingField(Field::Type));
    assert_eq!(error(r#"{"type":"test"}"#), ClassifyError::MissingField(Field::Event));
}

#[test]
fn classify_rejects_bad_values() {
    assert_eq!(error(r#"{"type":"suite","event":"ignored"}"#), ClassifyError::SuiteIgnored);
    assert_eq!(
        error(r#"{"type":"bench","event":"ok"}"#),
        ClassifyError::InvalidField(Field::Type)
    );
    assert_eq!(
        error(r#"{"type":"test","event":"timeout","name":"t"}"#),
        ClassifyError::InvalidField(Field::Event)
    );
    assert_eq!(
        error(r#"{"type":"test","event":"started","name":7}"#),
        ClassifyError::InvalidField(Field::Name)
    );
    assert_eq!(
        error(r#"{"type":"suite","event":"started","test_count":-1}"#),
        ClassifyError::InvalidField(Field::TestCount)
    );
    assert_eq!(
        error(r#"{"type":"test","event":"ok","name":"t","exec_time":"1"}"#),
        ClassifyError::InvalidField(Field::ExecTime)
    );
    assert_eq!(
        error(r#"{"type":"test","event":"ok","name":"t","exec_time":1,"stdout":5}"#),
        ClassifyError::InvalidField(Field::Stdout)
    );
}

#[test]
fn classify_rejects_non_objects() {
    assert_eq!(error("not json"), ClassifyError::Json(JsonError::Syntax));
    assert_eq!(error("[1,2]"), ClassifyError::Json(JsonError::NotObject));
    assert_eq!(error(""), ClassifyError::Json(JsonError::Syntax));
}

const ARTIFACT: &str = r#"{"reason":"compiler-artifact","package_id":"demo 0.1.0 (path+file:///w/demo)","manifest_path":"/w/demo/Cargo.toml","target":{"name":"build-script-build","kind":["custom-build"],"src_path":"/w/demo/build.rs"},"profile":{"opt_level":"0","debuginfo":2,"debug_assertions":true,"overflow_checks":true,"test":false},"features":[],"filenames":["/w/t/build-script-build"],"executable":null,"fresh":false}"#;

#[test]
fn classify_compiler_artifact() {
    match classify(ARTIFACT.as_bytes()) {
        Ok(TestMessage::CompilerEvent(CompilerEvent::Artifact { unit, target })) => {
            assert_eq!(unit, "demo 0.1.0 (path+file:///w/demo)");
            assert_eq!(target, "build-script-build");
        }
        _ => panic!(),
    }
}

#[test]
fn classify_compiler_messages() {
    match classify(br#"{"reason":"build-finished","success":false}"#) {
        Ok(TestMessage::CompilerEvent(CompilerEvent::BuildFinished { success })) => assert!(!success),
        _ => panic!(),
    }
    let script = r#"{"reason":"build-script-executed","package_id":"demo 0.1.0 (path+file:///w/demo)","linked_libs":[],"linked_paths":[],"cfgs":[],"env":[],"out_dir":"/w/out"}"#;
    match classify(script.as_bytes()) {
        Ok(TestMessage::CompilerEvent(CompilerEvent::BuildScriptExecuted { unit })) => {
            assert_eq!(unit, "demo 0.1.0 (path+file:///w/demo)")
        }
        _ => panic!(),
    }
    let diag = r#"{"reason":"compiler-message","package_id":"demo 0.1.0 (path+file:///w/demo)","target":{"name":"demo","kind":["lib"],"src_path":"/w/demo/src/lib.rs"},"message":{"message":"unused variable","code":null,"level":"warning","spans":[],"children":[],"rendered":"warning: unused variable\n"}}"#;
    match classify(diag.as_bytes()) {
        Ok(TestMessage::CompilerEvent(CompilerEvent::Diagnostic { rendered, .. })) => {
            assert_eq!(rendered.as_deref(), Some("warning: unused variable\n"))
        }
        _ => panic!(),
    }
}

#[test]
fn classify_unknown_reason_falls_to_test_schema() {
    assert_eq!(
        error(r#"{"reason":"something-else","type":"test","event":"started"}"#),
        ClassifyError::MissingField(Field::Name)
    );
}
