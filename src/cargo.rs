//! The events of a build-and-test run, and the classifier that turns one
//! record of the stream into one of them.
use vstd::prelude::*;
use cargo_metadata::Message;
use crate::json::{
    chars_of, count_of, fields_view, find_field, json_object_of, lookup, nanos_of, parse_count,
    parse_nanos, parse_object, FieldsView, JsonError, JsonField, JsonFieldView,
};

verus! {

#[derive(Clone, Copy, Debug, PartialEq, Eq, Structural)]
pub enum Outcome {
    Passed,
    Failed,
}

/// An event about one test. Times are in nanoseconds.
pub enum TestEvent {
    Started { name: String },
    Finished { name: String, outcome: Outcome, exec_time: u64, stdout: Option<String> },
    Ignored { name: String },
}

pub enum TestEventView {
    Started { name: Seq<char> },
    Finished { name: Seq<char>, outcome: Outcome, exec_time: u64, stdout: Option<Seq<char>> },
    Ignored { name: Seq<char> },
}

pub open spec fn opt_str_view(s: Option<String>) -> Option<Seq<char>> {
    match s {
        Some(t) => Some(t@),
        None => None,
    }
}

impl View for TestEvent {
    type V = TestEventView;

    open spec fn view(&self) -> TestEventView {
        match self {
            TestEvent::Started { name } => TestEventView::Started { name: name@ },
            TestEvent::Finished { name, outcome, exec_time, stdout } => TestEventView::Finished {
                name: name@,
                outcome: *outcome,
                exec_time: *exec_time,
                stdout: opt_str_view(*stdout),
            },
            TestEvent::Ignored { name } => TestEventView::Ignored { name: name@ },
        }
    }
}

/// An event about one suite, that is one test binary's run. Times are in
/// nanoseconds.
#[derive(Clone, Copy, Debug, PartialEq, Eq, Structural)]
pub enum SuiteEvent {
    Started { test_count: u64 },
    Finished {
        outcome: Outcome,
        passed: u64,
        failed: u64,
        ignored: u64,
        measured: u64,
        filtered_out: u64,
        exec_time: u64,
    },
}

/// A record of the test harness's own protocol.
pub enum RawTestMessage {
    Test(TestEvent),
    Suite(SuiteEvent),
}

pub enum RawTestMessageView {
    Test(TestEventView),
    Suite(SuiteEvent),
}

impl View for RawTestMessage {
    type V = RawTestMessageView;

    open spec fn view(&self) -> RawTestMessageView {
        match self {
            RawTestMessage::Test(t) => RawTestMessageView::Test(t@),
            RawTestMessage::Suite(s) => RawTestMessageView::Suite(*s),
        }
    }
}

/// A record of the build tool about one build unit.
pub enum CompilerEvent {
    /// A unit produced an artifact of the named target.
    Artifact { unit: String, target: String },
    BuildScriptExecuted { unit: String },
    BuildFinished { success: bool },
    /// A compiler message, with its rendered text when it has one.
    Diagnostic { unit: String, rendered: Option<String> },
}

pub enum CompilerEventView {
    Artifact { unit: Seq<char>, target: Seq<char> },
    BuildScriptExecuted { unit: Seq<char> },
    BuildFinished { success: bool },
    Diagnostic { unit: Seq<char>, rendered: Option<Seq<char>> },
}

impl View for CompilerEvent {
    type V = CompilerEventView;

    open spec fn view(&self) -> CompilerEventView {
        match self {
            CompilerEvent::Artifact { unit, target } => CompilerEventView::Artifact {
                unit: unit@,
                target: target@,
            },
            CompilerEvent::BuildScriptExecuted { unit } => CompilerEventView::BuildScriptExecuted {
                unit: unit@,
            },
            CompilerEvent::BuildFinished { success } => CompilerEventView::BuildFinished {
                success: *success,
            },
            CompilerEvent::Diagnostic { unit, rendered } => CompilerEventView::Diagnostic {
                unit: unit@,
                rendered: opt_str_view(*rendered),
            },
        }
    }
}

/// One classified event of the stream; `Finished` marks its end.
pub enum TestMessage {
    CompilerEvent(CompilerEvent),
    Event(RawTestMessage),
    Finished,
}

pub enum TestMessageView {
    CompilerEvent(CompilerEventView),
    Event(RawTestMessageView),
    Finished,
}

impl View for TestMessage {
    type V = TestMessageView;

    open spec fn view(&self) -> TestMessageView {
        match self {
            TestMessage::CompilerEvent(c) => TestMessageView::CompilerEvent(c@),
            TestMessage::Event(e) => TestMessageView::Event(e@),
            TestMessage::Finished => TestMessageView::Finished,
        }
    }
}

/// The fields of the test protocol that the classifier reads.
#[derive(Clone, Copy, Debug, PartialEq, Eq, Structural)]
pub enum Field {
    Type,
    Event,
    Name,
    ExecTime,
    Stdout,
    TestCount,
    Passed,
    Failed,
    Ignored,
    Measured,
    FilteredOut,
}

impl Field {
    pub open spec fn key_spec(self) -> Seq<char> {
        match self {
            Field::Type => "type"@,
            Field::Event => "event"@,
            Field::Name => "name"@,
            Field::ExecTime => "exec_time"@,
            Field::Stdout => "stdout"@,
            Field::TestCount => "test_count"@,
            Field::Passed => "passed"@,
            Field::Failed => "failed"@,
            Field::Ignored => "ignored"@,
            Field::Measured => "measured"@,
            Field::FilteredOut => "filtered_out"@,
        }
    }

    /// The field's name in a record.
    pub fn key(&self) -> (r: String)
        ensures
            r@ == self.key_spec(),
    {
        let k = match self {
            Field::Type => "type",
            Field::Event => "event",
            Field::Name => "name",
            Field::ExecTime => "exec_time",
            Field::Stdout => "stdout",
            Field::TestCount => "test_count",
            Field::Passed => "passed",
            Field::Failed => "failed",
            Field::Ignored => "ignored",
            Field::Measured => "measured",
            Field::FilteredOut => "filtered_out",
        };
        k.to_owned()
    }
}

/// Why a record could not be classified.
#[derive(Clone, Copy, Debug, PartialEq, Eq, Structural)]
pub enum ClassifyError {
    /// The record is not a JSON object.
    Json(JsonError),
    /// A field that the record's type and event require is absent.
    MissingField(Field),
    /// A field has a value of the wrong kind, or one outside its range.
    InvalidField(Field),
    /// A suite cannot be ignored.
    SuiteIgnored,
}

/// The `event` of a test-protocol record.
#[derive(Clone, Copy, Debug, PartialEq, Eq, Structural)]
pub enum EventKind {
    Started,
    Passed,
    Failed,
    Ignored,
}

pub open spec fn event_kind_of(s: Seq<char>) -> Option<EventKind> {
    if s == "started"@ {
        Some(EventKind::Started)
    } else if s == "ok"@ {
        Some(EventKind::Passed)
    } else if s == "failed"@ {
        Some(EventKind::Failed)
    } else if s == "ignored"@ {
        Some(EventKind::Ignored)
    } else {
        None
    }
}

pub open spec fn outcome_of(k: EventKind) -> Outcome {
    if k == EventKind::Failed {
        Outcome::Failed
    } else {
        Outcome::Passed
    }
}

/// A required string field.
pub open spec fn str_field(fields: FieldsView, f: Field) -> Result<Seq<char>, ClassifyError> {
    match lookup(fields, f.key_spec()) {
        None => Err(ClassifyError::MissingField(f)),
        Some(JsonFieldView::Str(s)) => Ok(s),
        Some(_) => Err(ClassifyError::InvalidField(f)),
    }
}

/// An optional string field; `null` counts as absent.
pub open spec fn opt_str_field(fields: FieldsView, f: Field) -> Result<Option<Seq<char>>, ClassifyError> {
    match lookup(fields, f.key_spec()) {
        None => Ok(None),
        Some(JsonFieldView::Null) => Ok(None),
        Some(JsonFieldView::Str(s)) => Ok(Some(s)),
        Some(_) => Err(ClassifyError::InvalidField(f)),
    }
}

/// A required count field.
pub open spec fn count_field(fields: FieldsView, f: Field) -> Result<u64, ClassifyError> {
    match lookup(fields, f.key_spec()) {
        None => Err(ClassifyError::MissingField(f)),
        Some(JsonFieldView::Num(t)) => match count_of(t) {
            Some(v) => Ok(v),
            None => Err(ClassifyError::InvalidField(f)),
        },
        Some(_) => Err(ClassifyError::InvalidField(f)),
    }
}

/// A required time field, in nanoseconds.
pub open spec fn time_field(fields: FieldsView, f: Field) -> Result<u64, ClassifyError> {
    match lookup(fields, f.key_spec()) {
        None => Err(ClassifyError::MissingField(f)),
        Some(JsonFieldView::Num(t)) => match nanos_of(t) {
            Some(v) => Ok(v),
            None => Err(ClassifyError::InvalidField(f)),
        },
        Some(_) => Err(ClassifyError::InvalidField(f)),
    }
}

/// A `type=test` record with the given event.
pub open spec fn test_event_of(fields: FieldsView, k: EventKind) -> Result<TestEventView, ClassifyError> {
    match str_field(fields, Field::Name) {
        Err(e) => Err(e),
        Ok(name) => match k {
            EventKind::Started => Ok(TestEventView::Started { name }),
            EventKind::Ignored => Ok(TestEventView::Ignored { name }),
            _ => match time_field(fields, Field::ExecTime) {
                Err(e) => Err(e),
                Ok(exec_time) => match opt_str_field(fields, Field::Stdout) {
                    Err(e) => Err(e),
                    Ok(stdout) => Ok(
                        TestEventView::Finished { name, outcome: outcome_of(k), exec_time, stdout },
                    ),
                },
            },
        },
    }
}

/// The counts of a finished suite, in the order in which they are required.
pub open spec fn suite_counts_of(fields: FieldsView) -> Result<Seq<u64>, ClassifyError> {
    match count_field(fields, Field::Passed) {
        Err(e) => Err(e),
        Ok(passed) => match count_field(fields, Field::Failed) {
            Err(e) => Err(e),
            Ok(failed) => match count_field(fields, Field::Ignored) {
                Err(e) => Err(e),
                Ok(ignored) => match count_field(fields, Field::Measured) {
                    Err(e) => Err(e),
                    Ok(measured) => match count_field(fields, Field::FilteredOut) {
                        Err(e) => Err(e),
                        Ok(filtered_out) => Ok(seq![passed, failed, ignored, measured, filtered_out]),
                    },
                },
            },
        },
    }
}

/// A `type=suite` record with the given event.
pub open spec fn suite_event_of(fields: FieldsView, k: EventKind) -> Result<SuiteEvent, ClassifyError> {
    match k {
        EventKind::Ignored => Err(ClassifyError::SuiteIgnored),
        EventKind::Started => match count_field(fields, Field::TestCount) {
            Err(e) => Err(e),
            Ok(test_count) => Ok(SuiteEvent::Started { test_count }),
        },
        _ => match suite_counts_of(fields) {
            Err(e) => Err(e),
            Ok(c) => match time_field(fields, Field::ExecTime) {
                Err(e) => Err(e),
                Ok(exec_time) => Ok(
                    SuiteEvent::Finished {
                        outcome: outcome_of(k),
                        passed: c[0],
                        failed: c[1],
                        ignored: c[2],
                        measured: c[3],
                        filtered_out: c[4],
                        exec_time,
                    },
                ),
            },
        },
    }
}

/// What the test-protocol schema makes of a record's fields: `type` is `test`
/// or `suite`, `event` is `started`, `ok`, `failed` or `ignored`, and the
/// fields that the pair requires are read in order.
pub open spec fn test_message_of(fields: FieldsView) -> Result<RawTestMessageView, ClassifyError> {
    match str_field(fields, Field::Type) {
        Err(e) => Err(e),
        Ok(ty) => if ty != "test"@ && ty != "suite"@ {
            Err(ClassifyError::InvalidField(Field::Type))
        } else {
            match str_field(fields, Field::Event) {
                Err(e) => Err(e),
                Ok(ev) => match event_kind_of(ev) {
                    None => Err(ClassifyError::InvalidField(Field::Event)),
                    Some(k) => if ty == "test"@ {
                        match test_event_of(fields, k) {
                            Err(e) => Err(e),
                            Ok(t) => Ok(RawTestMessageView::Test(t)),
                        }
                    } else {
                        match suite_event_of(fields, k) {
                            Err(e) => Err(e),
                            Ok(s) => Ok(RawTestMessageView::Suite(s)),
                        }
                    },
                },
            }
        },
    }
}

fn get_str(fields: &Vec<(String, JsonField)>, f: Field) -> (r: Result<String, ClassifyError>)
    ensures
        match r {
            Ok(s) => str_field(fields_view(fields@), f) == Ok::<Seq<char>, ClassifyError>(s@),
            Err(e) => str_field(fields_view(fields@), f) == Err::<Seq<char>, ClassifyError>(e),
        },
{
    let key = f.key();
    match find_field(fields, &key) {
        None => Err(ClassifyError::MissingField(f)),
        Some(JsonField::Str(s)) => Ok(s.clone()),
        Some(_) => Err(ClassifyError::InvalidField(f)),
    }
}

fn get_opt_str(fields: &Vec<(String, JsonField)>, f: Field) -> (r: Result<Option<String>, ClassifyError>)
    ensures
        match r {
            Ok(s) => opt_str_field(fields_view(fields@), f) == Ok::<Option<Seq<char>>, ClassifyError>(
                opt_str_view(s),
            ),
            Err(e) => opt_str_field(fields_view(fields@), f) == Err::<Option<Seq<char>>, ClassifyError>(e),
        },
{
    let key = f.key();
    match find_field(fields, &key) {
        None => Ok(None),
        Some(JsonField::Null) => Ok(None),
        Some(JsonField::Str(s)) => Ok(Some(s.clone())),
        Some(_) => Err(ClassifyError::InvalidField(f)),
    }
}

fn get_count(fields: &Vec<(String, JsonField)>, f: Field) -> (r: Result<u64, ClassifyError>)
    ensures
        r == count_field(fields_view(fields@), f),
{
    let key = f.key();
    match find_field(fields, &key) {
        None => Err(ClassifyError::MissingField(f)),
        Some(JsonField::Num(t)) => {
            let cs = chars_of(t.as_str());
            match parse_count(&cs) {
                Some(v) => Ok(v),
                None => Err(ClassifyError::InvalidField(f)),
            }
        },
        Some(_) => Err(ClassifyError::InvalidField(f)),
    }
}

fn get_time(fields: &Vec<(String, JsonField)>, f: Field) -> (r: Result<u64, ClassifyError>)
    ensures
        r == time_field(fields_view(fields@), f),
{
    let key = f.key();
    match find_field(fields, &key) {
        None => Err(ClassifyError::MissingField(f)),
        Some(JsonField::Num(t)) => {
            let cs = chars_of(t.as_str());
            match parse_nanos(&cs) {
                Some(v) => Ok(v),
                None => Err(ClassifyError::InvalidField(f)),
            }
        },
        Some(_) => Err(ClassifyError::InvalidField(f)),
    }
}

fn event_kind(s: &String) -> (r: Option<EventKind>)
    ensures
        r == event_kind_of(s@),
{
    if *s == "started".to_owned() {
        Some(EventKind::Started)
    } else if *s == "ok".to_owned() {
        Some(EventKind::Passed)
    } else if *s == "failed".to_owned() {
        Some(EventKind::Failed)
    } else if *s == "ignored".to_owned() {
        Some(EventKind::Ignored)
    } else {
        None
    }
}

fn test_event(fields: &Vec<(String, JsonField)>, k: EventKind) -> (r: Result<TestEvent, ClassifyError>)
    ensures
        match r {
            Ok(t) => test_event_of(fields_view(fields@), k) == Ok::<TestEventView, ClassifyError>(t@),
            Err(e) => test_event_of(fields_view(fields@), k) == Err::<TestEventView, ClassifyError>(e),
        },
{
    let name = match get_str(fields, Field::Name) {
        Ok(n) => n,
        Err(e) => return Err(e),
    };
    match k {
        EventKind::Started => Ok(TestEvent::Started { name }),
        EventKind::Ignored => Ok(TestEvent::Ignored { name }),
        _ => {
            let exec_time = match get_time(fields, Field::ExecTime) {
                Ok(t) => t,
                Err(e) => return Err(e),
            };
            let stdout = match get_opt_str(fields, Field::Stdout) {
                Ok(s) => s,
                Err(e) => return Err(e),
            };
            let outcome = if k == EventKind::Failed {
                Outcome::Failed
            } else {
                Outcome::Passed
            };
            Ok(TestEvent::Finished { name, outcome, exec_time, stdout })
        },
    }
}

fn suite_event(fields: &Vec<(String, JsonField)>, k: EventKind) -> (r: Result<SuiteEvent, ClassifyError>)
    ensures
        r == suite_event_of(fields_view(fields@), k),
{
    match k {
        EventKind::Ignored => Err(ClassifyError::SuiteIgnored),
        EventKind::Started => match get_count(fields, Field::TestCount) {
            Ok(test_count) => Ok(SuiteEvent::Started { test_count }),
            Err(e) => Err(e),
        },
        _ => {
            let passed = match get_count(fields, Field::Passed) {
                Ok(v) => v,
                Err(e) => return Err(e),
            };
            let failed = match get_count(fields, Field::Failed) {
                Ok(v) => v,
                Err(e) => return Err(e),
            };
            let ignored = match get_count(fields, Field::Ignored) {
                Ok(v) => v,
                Err(e) => return Err(e),
            };
            let measured = match get_count(fields, Field::Measured) {
                Ok(v) => v,
                Err(e) => return Err(e),
            };
            let filtered_out = match get_count(fields, Field::FilteredOut) {
                Ok(v) => v,
                Err(e) => return Err(e),
            };
            let exec_time = match get_time(fields, Field::ExecTime) {
                Ok(t) => t,
                Err(e) => return Err(e),
            };
            let outcome = if k == EventKind::Failed {
                Outcome::Failed
            } else {
                Outcome::Passed
            };
            Ok(SuiteEvent::Finished { outcome, passed, failed, ignored, measured, filtered_out, exec_time })
        },
    }
}

/// Classifies a record's fields by the test-protocol schema.
pub fn classify_test(fields: &Vec<(String, JsonField)>) -> (r: Result<RawTestMessage, ClassifyError>)
    ensures
        match r {
            Ok(m) => test_message_of(fields_view(fields@)) == Ok::<RawTestMessageView, ClassifyError>(m@),
            Err(e) => test_message_of(fields_view(fields@)) == Err::<RawTestMessageView, ClassifyError>(e),
        },
{
    let ty = match get_str(fields, Field::Type) {
        Ok(t) => t,
        Err(e) => return Err(e),
    };
    let is_test = ty == "test".to_owned();
    let is_suite = ty == "suite".to_owned();
    if !is_test && !is_suite {
        return Err(ClassifyError::InvalidField(Field::Type));
    }
    let ev = match get_str(fields, Field::Event) {
        Ok(e) => e,
        Err(e) => return Err(e),
    };
    let k = match event_kind(&ev) {
        Some(k) => k,
        None => return Err(ClassifyError::InvalidField(Field::Event)),
    };
    if is_test {
        match test_event(fields, k) {
            Ok(t) => Ok(RawTestMessage::Test(t)),
            Err(e) => Err(e),
        }
    } else {
        match suite_event(fields, k) {
            Ok(s) => Ok(RawTestMessage::Suite(s)),
            Err(e) => Err(e),
        }
    }
}

/// What cargo_metadata makes of a record: one of its compiler messages, or
/// nothing when the record does not match that schema.
pub uninterp spec fn compiler_message_of(text: Seq<u8>) -> Option<CompilerEventView>;

/// Relies on cargo_metadata's Deserialize for Message, through
/// serde_json::from_slice: a record that matches cargo's `reason`-tagged schema
/// is one of its four kinds; any other record gives nothing.
#[verifier::external_body]
fn parse_compiler_message(text: &[u8]) -> (r: Option<CompilerEvent>)
    ensures
        match r {
            Some(e) => compiler_message_of(text@) == Some(e@),
            None => compiler_message_of(text@) is None,
        },
{
    match serde_json::from_slice::<Message>(text) {
        Ok(Message::CompilerArtifact(a)) => {
            Some(CompilerEvent::Artifact { unit: a.package_id.repr, target: a.target.name })
        },
        Ok(Message::BuildScriptExecuted(b)) => {
            Some(CompilerEvent::BuildScriptExecuted { unit: b.package_id.repr })
        },
        Ok(Message::BuildFinished(f)) => Some(CompilerEvent::BuildFinished { success: f.success }),
        Ok(Message::CompilerMessage(m)) => {
            Some(CompilerEvent::Diagnostic { unit: m.package_id.repr, rendered: m.message.rendered })
        },
        Ok(_) | Err(_) => None,
    }
}

/// Classification in its fixed order: a record that is no JSON object fails;
/// one that matches the compiler schema is a compiler event; any other is read
/// by the test-protocol schema.
pub open spec fn message_of(
    object: Result<FieldsView, JsonError>,
    compiled: Option<CompilerEventView>,
) -> Result<TestMessageView, ClassifyError> {
    match object {
        Err(e) => Err(ClassifyError::Json(e)),
        Ok(fields) => match compiled {
            Some(c) => Ok(TestMessageView::CompilerEvent(c)),
            None => match test_message_of(fields) {
                Err(e) => Err(e),
                Ok(m) => Ok(TestMessageView::Event(m)),
            },
        },
    }
}

pub open spec fn message_result_view(r: Result<TestMessage, ClassifyError>) -> Result<TestMessageView, ClassifyError> {
    match r {
        Ok(m) => Ok(m@),
        Err(e) => Err(e),
    }
}

/// Classifies a record from what the JSON parser and the compiler-message
/// schema made of it.
pub fn classify_parsed(
    object: Result<Vec<(String, JsonField)>, JsonError>,
    compiled: Option<CompilerEvent>,
) -> (r: Result<TestMessage, ClassifyError>)
    ensures
        message_result_view(r) == message_of(
            match object {
                Ok(f) => Ok::<FieldsView, JsonError>(fields_view(f@)),
                Err(e) => Err::<FieldsView, JsonError>(e),
            },
            match compiled {
                Some(c) => Some(c@),
                None => None::<CompilerEventView>,
            },
        ),
{
    match object {
        Err(e) => Err(ClassifyError::Json(e)),
        Ok(fields) => match compiled {
            Some(c) => Ok(TestMessage::CompilerEvent(c)),
            None => match classify_test(&fields) {
                Ok(m) => Ok(TestMessage::Event(m)),
                Err(e) => Err(e),
            },
        },
    }
}

/// Classifies one record of the stream.
pub fn classify(text: &[u8]) -> (r: Result<TestMessage, ClassifyError>)
    ensures
        message_result_view(r) == message_of(json_object_of(text@), compiler_message_of(text@)),
{
    let object = parse_object(text);
    let compiled = match object {
        Ok(_) => parse_compiler_message(text),
        Err(_) => None,
    };
    classify_parsed(object, compiled)
}

/// The fields that a test-protocol record of the given type and event must
/// carry, in the order in which they are read.
pub open spec fn required_fields(is_test: bool, k: EventKind) -> Seq<Field> {
    if is_test {
        match k {
            EventKind::Started | EventKind::Ignored => seq![Field::Name],
            _ => seq![Field::Name, Field::ExecTime],
        }
    } else {
        match k {
            EventKind::Started => seq![Field::TestCount],
            _ => seq![Field::Passed, Field::Failed, Field::Ignored, Field::Measured, Field::FilteredOut, Field::ExecTime],
        }
    }
}

/// Whether the record carries `f` with a value of the right kind and range.
pub open spec fn field_valid(fields: FieldsView, f: Field) -> bool {
    match f {
        Field::ExecTime => time_field(fields, f) is Ok,
        Field::Name | Field::Type | Field::Event | Field::Stdout => str_field(fields, f) is Ok,
        _ => count_field(fields, f) is Ok,
    }
}

pub open spec fn type_text(is_test: bool) -> Seq<char> {
    if is_test {
        "test"@
    } else {
        "suite"@
    }
}

/// A test-protocol record that carries every field its type and event require
/// is read into the event with exactly those values; one that lacks exactly
/// one of them fails, naming that field.
pub proof fn lemma_classify_fields(fields: FieldsView, is_test: bool, k: EventKind, missing: Option<Field>)
    requires
        str_field(fields, Field::Type) == Ok::<Seq<char>, ClassifyError>(type_text(is_test)),
        str_field(fields, Field::Event) matches Ok(ev) && event_kind_of(ev) == Some(k),
        is_test || k != EventKind::Ignored,
        opt_str_field(fields, Field::Stdout) is Ok,
        forall|g: Field| required_fields(is_test, k).contains(g) && Some(g) != missing ==> field_valid(fields, g),
        missing matches Some(f) ==> required_fields(is_test, k).contains(f)
            && lookup(fields, f.key_spec()) is None,
    ensures
        missing matches Some(f) ==> test_message_of(fields) == Err::<RawTestMessageView, ClassifyError>(
            ClassifyError::MissingField(f),
        ),
        missing is None && is_test ==> test_message_of(fields) == Ok::<RawTestMessageView, ClassifyError>(
            RawTestMessageView::Test(
                match k {
                    EventKind::Started => TestEventView::Started { name: str_field(fields, Field::Name)->Ok_0 },
                    EventKind::Ignored => TestEventView::Ignored { name: str_field(fields, Field::Name)->Ok_0 },
                    _ => TestEventView::Finished {
                        name: str_field(fields, Field::Name)->Ok_0,
                        outcome: outcome_of(k),
                        exec_time: time_field(fields, Field::ExecTime)->Ok_0,
                        stdout: opt_str_field(fields, Field::Stdout)->Ok_0,
                    },
                },
            ),
        ),
        missing is None && !is_test ==> test_message_of(fields) == Ok::<RawTestMessageView, ClassifyError>(
            RawTestMessageView::Suite(
                match k {
                    EventKind::Started => SuiteEvent::Started {
                        test_count: count_field(fields, Field::TestCount)->Ok_0,
                    },
                    _ => SuiteEvent::Finished {
                        outcome: outcome_of(k),
                        passed: count_field(fields, Field::Passed)->Ok_0,
                        failed: count_field(fields, Field::Failed)->Ok_0,
                        ignored: count_field(fields, Field::Ignored)->Ok_0,
                        measured: count_field(fields, Field::Measured)->Ok_0,
                        filtered_out: count_field(fields, Field::FilteredOut)->Ok_0,
                        exec_time: time_field(fields, Field::ExecTime)->Ok_0,
                    },
                },
            ),
        ),
{
    reveal_strlit("test");
    reveal_strlit("suite");
    let req = required_fields(is_test, k);
    assert forall|j: int| 0 <= j < req.len() && Some(req[j]) != missing implies field_valid(fields, req[j]) by {
        assert(req.contains(req[j]));
    }
    assert(Some(req[0]) != missing ==> field_valid(fields, req[0]));
    if req.len() > 1 {
        assert(Some(req[1]) != missing ==> field_valid(fields, req[1]));
    }
    if req.len() > 5 {
        assert(Some(req[2]) != missing ==> field_valid(fields, req[2]));
        assert(Some(req[3]) != missing ==> field_valid(fields, req[3]));
        assert(Some(req[4]) != missing ==> field_valid(fields, req[4]));
        assert(Some(req[5]) != missing ==> field_valid(fields, req[5]));
    }
    assert("test"@.len() == 4);
    assert("suite"@.len() == 5);
    assert(type_text(false) != type_text(true));
    if let Some(f) = missing {
        assert(str_field(fields, f) == Err::<Seq<char>, ClassifyError>(ClassifyError::MissingField(f)));
        assert(count_field(fields, f) == Err::<u64, ClassifyError>(ClassifyError::MissingField(f)));
        assert(time_field(fields, f) == Err::<u64, ClassifyError>(ClassifyError::MissingField(f)));
        let j = choose|j: int| 0 <= j < req.len() && req[j] == f;
        assert(req[j] == f);
    }
}

/// The package section of a manifest.
pub struct Package {
    pub name: String,
}

/// The part of a package manifest that the dashboard shows.
pub struct Metadata {
    pub package: Package,
}

} // verus!
