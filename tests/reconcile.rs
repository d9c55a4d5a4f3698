use cargo_dash::cargo::{
    classify, CompilerEvent, Outcome, RawTestMessage, SuiteEvent, TestEvent, TestMessage,
};
use cargo_dash::monitor::Monitor;
use cargo_dash::test::{ReconcileError, TestState, TestStatus};

fn started(name: &str) -> TestMessage {
    TestMessage::Event(RawTestMessage::Test(TestEvent::Started { name: name.to_string() }))
}

fn finished(name: &str, outcome: Outcome, exec_time: u64, stdout: Option<&str>) -> TestMessage {
    TestMessage::Event(RawTestMessage::Test(TestEvent::Finished {
        name: name.to_string(),
        outcome,
        exec_time,
        stdout: stdout.map(|s| s.to_string()),
    }))
}

fn ignored(name: &str) -> TestMessage {
    TestMessage::Event(RawTestMessage::Test(TestEvent::Ignored { name: name.to_string() }))
}

fn suite_started(test_count: u64) -> TestMessage {
    TestMessage::Event(RawTestMessage::Suite(SuiteEvent::Started { test_count }))
}

fn diagnostic(text: &str) -> TestMessage {
    TestMessage::CompilerEvent(CompilerEvent::Diagnostic {
        unit: "demo 0.1.0".to_string(),
        rendered: Some(text.to_string()),
    })
}

fn secs(nanos: u64) -> f64 {
    nanos as f64 / 1e9
}

#[test]
fn started_then_passed_keeps_time_and_output() {
    let mut s = TestState::new();
    assert!(s.recv(started("t")).is_ok());
    assert_eq!(s.tests()[0].status, TestStatus::InProgress);
    assert!(s.tests()[0].exec_time.is_none());
    assert!(s.recv(finished("t", Outcome::Passed, 3428, Some("hello world"))).is_ok());
    let t = &s.tests()[0];
    assert_eq!(t.name, "t");
    assert_eq!(t.status, TestStatus::Passed);
    assert_eq!(t.exec_time, Some(3428));
    assert_eq!(secs(t.exec_time.unwrap()), 0.000003428);
    assert_eq!(t.stdout.as_deref(), Some("hello world"));
}

#[test]
fn started_then_passed_from_records() {
    let mut s = TestState::new();
    let a = classify(br#"{"type":"test","event":"started","name":"t"}"#).ok().unwrap();
    let b = classify(
        br#"{"type":"test","name":"t","event":"ok","exec_time":0.000003428,"stdout":"hello world"}"#,
    )
    .ok()
    .unwrap();
    assert!(s.recv(a).is_ok());
    assert!(s.recv(b).is_ok());
    let t = &s.tests()[0];
    assert_eq!(t.status, TestStatus::Passed);
    assert_eq!(secs(t.exec_time.unwrap()), 0.000003428);
    assert_eq!(t.stdout.as_deref(), Some("hello world"));
}

#[test]
fn terminal_event_without_start_is_rejected() {
    let mut s = TestState::new();
    assert_eq!(s.recv(finished("ghost", Outcome::Passed, 1, None)), Err(ReconcileError::UnknownTest));
    assert_eq!(s.recv(ignored("ghost")), Err(ReconcileError::UnknownTest));
    assert!(s.recv(started("other")).is_ok());
    assert_eq!(s.recv(finished("ghost", Outcome::Failed, 1, None)), Err(ReconcileError::UnknownTest));
    assert_eq!(s.tests().len(), 1);
    assert_eq!(s.tests()[0].status, TestStatus::InProgress);
}

#[test]
fn suite_counts_accumulate_in_any_order() {
    let mut a = TestState::new();
    assert!(a.recv(suite_started(3)).is_ok());
    assert!(a.recv(suite_started(2)).is_ok());
    assert_eq!(a.test_count(), 5);

    let mut b = TestState::new();
    assert!(b.recv(started("x")).is_ok());
    assert!(b.recv(suite_started(2)).is_ok());
    assert!(b.recv(finished("x", Outcome::Passed, 10, None)).is_ok());
    assert!(b.recv(started("y")).is_ok());
    assert!(b.recv(suite_started(3)).is_ok());
    assert_eq!(b.test_count(), 5);
}

#[test]
fn suite_count_saturates() {
    let mut s = TestState::new();
    assert!(s.recv(suite_started(u64::MAX)).is_ok());
    assert!(s.recv(suite_started(2)).is_ok());
    assert_eq!(s.test_count(), u64::MAX);
}

#[test]
fn diagnostic_inserted_once() {
    let mut s = TestState::new();
    assert!(s.recv(diagnostic("warning: x")).is_ok());
    assert!(s.recv(diagnostic("warning: x")).is_ok());
    assert!(s.recv(diagnostic("error: y")).is_ok());
    assert_eq!(s.diagnostics(), &vec!["warning: x".to_string(), "error: y".to_string()]);
}

#[test]
fn diagnostic_without_text_is_skipped() {
    let mut s = TestState::new();
    let m = TestMessage::CompilerEvent(CompilerEvent::Diagnostic { unit: "u".to_string(), rendered: None });
    assert!(s.recv(m).is_ok());
    assert!(s.diagnostics().is_empty());
}

#[test]
fn nothing_accepted_after_end() {
    let mut s = TestState::new();
    assert!(!s.is_done());
    assert!(s.recv(TestMessage::Finished).is_ok());
    assert!(s.is_done());
    assert_eq!(s.recv(started("late")), Err(ReconcileError::AfterEnd));
    assert_eq!(s.recv(TestMessage::Finished), Err(ReconcileError::AfterEnd));
    assert!(s.tests().is_empty());
}

#[test]
fn restarted_test_is_overwritten() {
    let mut s = TestState::new();
    assert!(s.recv(started("t")).is_ok());
    assert!(s.recv(started("t")).is_ok());
    assert_eq!(s.tests().len(), 1);
    assert!(s.recv(ignored("t")).is_ok());
    assert_eq!(s.tests()[0].status, TestStatus::Ignored);
    assert!(s.tests()[0].exec_time.is_none());
}

#[test]
fn build_units_are_keyed_by_id() {
    let mut s = TestState::new();
    let artifact = |unit: &str, target: &str| {
        TestMessage::CompilerEvent(CompilerEvent::Artifact {
            unit: unit.to_string(),
            target: target.to_string(),
        })
    };
    assert!(s.recv(artifact("a 1.0", "build-script-build")).is_ok());
    assert!(s
        .recv(TestMessage::CompilerEvent(CompilerEvent::BuildScriptExecuted { unit: "a 1.0".to_string() }))
        .is_ok());
    assert!(s.recv(artifact("a 1.0", "a")).is_ok());
    assert!(s.recv(artifact("b 2.0", "b")).is_ok());
    assert!(s.recv(artifact("b 2.0", "b")).is_ok());
    assert_eq!(s.artifacts(), 4);
    let units = s.units();
    assert_eq!(units.len(), 2);
    assert_eq!(units[0].id, "a 1.0");
    assert!(units[0].script_built && units[0].script_executed && units[0].compiled);
    assert_eq!(units[1].id, "b 2.0");
    assert!(!units[1].script_built && !units[1].script_executed && units[1].compiled);
    assert_eq!(s.build_success(), None);
    assert!(s.recv(TestMessage::CompilerEvent(CompilerEvent::BuildFinished { success: true })).is_ok());
    assert_eq!(s.build_success(), Some(true));
}

#[test]
fn tally_counts_each_state() {
    let mut s = TestState::new();
    for n in ["a", "b", "c", "d", "e"] {
        assert!(s.recv(started(n)).is_ok());
    }
    assert!(s.recv(finished("a", Outcome::Passed, 1, None)).is_ok());
    assert!(s.recv(finished("b", Outcome::Failed, 1, None)).is_ok());
    assert!(s.recv(finished("c", Outcome::Passed, 1, None)).is_ok());
    assert!(s.recv(ignored("d")).is_ok());
    let t = s.tally();
    assert_eq!((t.passing, t.failing, t.ignored, t.running), (2, 1, 1, 1));
}

#[test]
fn end_to_end_failed_suite() {
    let lines = [
        r#"{"type":"suite","event":"started","test_count":1}"#,
        r#"{"type":"test","event":"started","name":"fail"}"#,
        r#"{"type":"test","name":"fail","event":"failed","exec_time":0.000081092,"stdout":"...panicked..."}"#,
        r#"{"type":"suite","event":"failed","passed":0,"failed":1,"ignored":0,"measured":0,"filtered_out":0,"exec_time":0.000731068}"#,
    ];
    let mut text = String::new();
    for l in lines {
        text.push_str(l);
        text.push('\n');
    }
    let stream = text.as_bytes();
    let mut m = Monitor::new();
    let mut s = TestState::new();
    for chunk in stream.chunks(7) {
        for msg in m.on_chunk(chunk).ok().unwrap() {
            assert!(s.recv(msg).is_ok());
        }
    }
    assert!(s.recv(TestMessage::Finished).is_ok());
    assert_eq!(s.test_count(), 1);
    assert_eq!(s.tests().len(), 1);
    let t = &s.tests()[0];
    assert_eq!(t.name, "fail");
    assert_eq!(t.status, TestStatus::Failed);
    assert_eq!(secs(t.exec_time.unwrap()), 0.000081092);
    assert_eq!(t.stdout.as_deref(), Some("...panicked..."));
    assert_eq!(secs(s.time()), 0.000731068);
    assert!(s.is_done());
}
