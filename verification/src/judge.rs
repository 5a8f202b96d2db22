//! The judge: invariant tests of a candidate version, and the verdict on it.

use crate::json::{
    empty_object, entries_map, entry_trees, json_compact, json_parse, lemma_entries_map,
    lemma_tree, text_list, Json, JsonTree,
};
use crate::kernel::{boot_envelope, boot_letter, Letter};
use crate::messages::{welcome_tree, Envelope, InvariantResult, TestResult, TestVerdict, Welcome};
use crate::msg_types;
use crate::scan::{
    contains_text, join_with, joined_with, law_joined_texts_are_found, law_parts_are_found,
};
use crate::split::{lemma_texts_push, texts};
use crate::text::{dec, decimal, str_eq};
use crate::update::{failed_ids, failed_tests, law_failed_tests_are_named};
use crate::version::{opt_text, sentence};
use vstd::prelude::*;
use vstd::string::*;

verus! {

/// An invariant test.
#[derive(Debug)]
pub struct InvariantSpec {
    pub id: String,
    pub name: String,
    pub description: String,
    pub timeout_secs: u64,
    pub test_type: String,
}

/// The invariant tests of the constitution.
#[derive(Debug)]
pub struct InvariantsConfig {
    pub version: String,
    pub tests: Vec<InvariantSpec>,
}

/// What a test does with a candidate.
#[derive(Debug, Clone, Copy, PartialEq, Eq, Structural)]
pub enum TestKind {
    Handshake,
    Echo,
    Heartbeat,
    Unknown,
}

/// What a test of the given type does.
pub open spec fn test_kind(t: Seq<char>) -> TestKind {
    if t == "handshake"@ {
        TestKind::Handshake
    } else if t == "echo"@ {
        TestKind::Echo
    } else if t == "heartbeat"@ {
        TestKind::Heartbeat
    } else {
        TestKind::Unknown
    }
}

/// How a test went.
pub enum TestOutcome {
    Passed,
    /// The test failed, and why.
    Failed(String),
    TimedOut,
}

/// The content of an `InvariantResult`.
pub ghost struct Tested {
    pub test_id: Seq<char>,
    pub passed: bool,
    pub detail: Option<Seq<char>>,
}

impl View for InvariantResult {
    type V = Tested;

    open spec fn view(&self) -> Tested {
        Tested { test_id: self.test_id@, passed: self.passed, detail: opt_text(self.detail) }
    }
}

/// The result of a test.
pub open spec fn tested(id: Seq<char>, timeout_secs: u64, o: TestOutcome) -> Tested {
    match o {
        TestOutcome::Passed => Tested { test_id: id, passed: true, detail: None },
        TestOutcome::Failed(e) => Tested { test_id: id, passed: false, detail: Some(e@) },
        TestOutcome::TimedOut => Tested {
            test_id: id,
            passed: false,
            detail: Some("Test timed out after "@ + dec(timeout_secs as nat) + "s"@),
        },
    }
}

/// Runs the tests of the constitution.
pub struct InvariantRunner {
    config: InvariantsConfig,
}

impl View for InvariantRunner {
    type V = Seq<InvariantSpec>;

    /// The tests.
    closed spec fn view(&self) -> Seq<InvariantSpec> {
        self.config.tests@
    }
}

impl InvariantRunner {
    pub fn new(config: InvariantsConfig) -> (r: InvariantRunner)
        ensures
            r@ == config.tests@,
    {
        InvariantRunner { config }
    }

    /// The tests, in the order in which they run.
    pub fn tests(&self) -> (t: &Vec<InvariantSpec>)
        ensures
            t@ == self@,
    {
        &self.config.tests
    }

    /// What a test does, or that its type is not known.
    pub fn execute_test(spec: &InvariantSpec) -> (r: Result<TestKind, String>)
        ensures
            r is Ok <==> !(test_kind(spec.test_type@) is Unknown),
            r is Ok ==> r->Ok_0 == test_kind(spec.test_type@),
            r is Err ==> r->Err_0@ == "Unknown test type: "@ + spec.test_type@,
    {
        let t = spec.test_type.as_str();
        if str_eq(t, "handshake") {
            Ok(TestKind::Handshake)
        } else if str_eq(t, "echo") {
            Ok(TestKind::Echo)
        } else if str_eq(t, "heartbeat") {
            Ok(TestKind::Heartbeat)
        } else {
            Err(sentence("Unknown test type: ", t))
        }
    }

    /// The result of a test, given how it went.
    pub fn run_single(spec: &InvariantSpec, outcome: TestOutcome) -> (r: InvariantResult)
        ensures
            r@ == tested(spec.id@, spec.timeout_secs, outcome),
    {
        match outcome {
            TestOutcome::Passed => InvariantResult {
                test_id: spec.id.clone(),
                passed: true,
                detail: None,
            },
            TestOutcome::Failed(e) => InvariantResult {
                test_id: spec.id.clone(),
                passed: false,
                detail: Some(e),
            },
            TestOutcome::TimedOut => {
                let mut m = sentence("Test timed out after ", decimal(spec.timeout_secs).as_str());
                m.append("s");
                InvariantResult { test_id: spec.id.clone(), passed: false, detail: Some(m) }
            },
        }
    }
}

/// The welcome that a candidate gets in a test.
pub open spec fn test_welcome(to: Seq<char>, id: Seq<char>) -> Letter {
    boot_letter(to, "Welcome"@, id, welcome_tree(text_list(Seq::empty()), 2))
}

/// The welcome that a candidate gets in a test.
pub fn welcome_candidate(hello: &Envelope) -> (e: Envelope)
    ensures
        e@ == test_welcome(hello.from@, hello.id@),
        e.payload.wf(),
{
    let none: Vec<String> = Vec::new();
    assert(texts(none@) =~= Seq::empty());
    let welcome = Welcome { accepted_capabilities: Json::strings(&none), runlevel: 2 };
    boot_envelope(hello.from.as_str(), msg_types::WELCOME, hello.id.as_str(), welcome.to_json())
}

/// Whether a candidate begins with a handshake. `payload_error` is what is
/// wrong with its payload, if anything.
pub fn test_handshake(msg_type: &str, payload_error: Option<String>) -> (r: Result<(), String>)
    ensures
        msg_type@ != "Hello"@ ==> r is Err && r->Err_0@ == "Expected Hello, got: "@ + msg_type@,
        msg_type@ == "Hello"@ && payload_error is Some ==> r is Err && r->Err_0@
            == "Invalid Hello payload: "@ + payload_error->Some_0@,
        msg_type@ == "Hello"@ && payload_error is None ==> r is Ok,
{
    if !str_eq(msg_type, msg_types::HELLO) {
        return Err(sentence("Expected Hello, got: ", msg_type));
    }
    match payload_error {
        Some(e) => Err(sentence("Invalid Hello payload: ", e.as_str())),
        None => Ok(()),
    }
}

/// Whether a candidate renews its lease. `payload_error` is what is wrong with
/// the renewal's payload, if anything.
pub fn test_heartbeat(msg_type: &str, payload_error: Option<String>) -> (r: Result<(), String>)
    ensures
        msg_type@ != "LeaseRenew"@ ==> r is Err && r->Err_0@ == "Expected LeaseRenew, got: "@
            + msg_type@,
        msg_type@ == "LeaseRenew"@ && payload_error is Some ==> r is Err && r->Err_0@
            == "Invalid LeaseRenew payload: "@ + payload_error->Some_0@,
        msg_type@ == "LeaseRenew"@ && payload_error is None ==> r is Ok,
{
    if !str_eq(msg_type, msg_types::LEASE_RENEW) {
        return Err(sentence("Expected LeaseRenew, got: ", msg_type));
    }
    match payload_error {
        Some(e) => Err(sentence("Invalid LeaseRenew payload: ", e.as_str())),
        None => Ok(()),
    }
}

/// What is echoed.
pub open spec fn ping() -> JsonTree {
    empty_object().set("echo"@, JsonTree::Text("ping"@))
}

/// The request for an echo.
pub fn echo_request(to: &str) -> (e: Envelope)
    ensures
        e@ == boot_letter(to@, "Echo"@, "echo-test-1"@, ping()),
        e.payload.wf(),
{
    let mut j = Json::object();
    j.set("echo", Json::text("ping"));
    boot_envelope(to, "Echo", "echo-test-1", j)
}

fn is_ping(j: &Json) -> (b: bool)
    requires
        j.wf(),
    ensures
        b == (j.tree() == ping()),
{
    proof {
        lemma_tree(*j);
    }
    match j {
        Json::Object(v) => {
            let ghost m = entries_map(entry_trees(v@));
            proof {
                lemma_entries_map(v@);
            }
            if v.len() != 1 {
                proof {
                    if j.tree() == ping() {
                        assert(m.contains_key("echo"@));
                        let i = choose|i: int| 0 <= i < v@.len() && (#[trigger] v@[i]).0@ == "echo"@;
                        let k = if i == 0 {
                            1int
                        } else {
                            0int
                        };
                        assert(v@[k].0@ != v@[i].0@) by {
                            if k < i {
                                assert(v@[k].0@ != v@[i].0@);
                            } else {
                                assert(v@[i].0@ != v@[k].0@);
                            }
                        }
                        assert(m.contains_key(v@[k].0@));
                        assert(ping()->Object_0.contains_key(v@[k].0@));
                    }
                }
                return false;
            }
            assert(m.contains_key(v@[0].0@));
            assert(m[v@[0].0@] == v@[0].1.tree());
            let key_ok = str_eq(v[0].0.as_str(), "echo");
            let value_ok = match v[0].1.as_str() {
                Some(s) => str_eq(s, "ping"),
                None => false,
            };
            proof {
                if key_ok && value_ok {
                    assert forall|k: Seq<char>| #[trigger] m.contains_key(k) <==> k == "echo"@ by {
                        if m.contains_key(k) {
                            let i = choose|i: int| 0 <= i < v@.len() && (#[trigger] v@[i]).0@ == k;
                            assert(i == 0);
                        }
                    }
                    assert(m =~= ping()->Object_0);
                } else if j.tree() == ping() {
                    assert(ping()->Object_0.contains_key(v@[0].0@));
                    assert(m["echo"@] == JsonTree::Text("ping"@));
                }
            }
            key_ok && value_ok
        },
        _ => false,
    }
}

/// How an echo test goes on after a message of the candidate.
pub enum EchoStep {
    Passed,
    /// A heartbeat came first: read one more message.
    ReadAgain,
    Failed(String),
}

/// How an echo test goes on; only the first message may be a heartbeat.
pub fn test_echo(response: &Envelope, first: bool) -> (s: EchoStep)
    requires
        response.payload.wf(),
    ensures
        ({
            let good = response.msg_type@ == "EchoResponse"@ && response.payload.tree() == ping();
            let beat = first && response.msg_type@ == "LeaseRenew"@;
            &&& s is Passed <==> good
            &&& s is ReadAgain <==> !good && beat
            &&& s is Failed ==> s->Failed_0@ == (if first {
                "Unexpected response: type="@
            } else {
                "Unexpected echo response: type="@
            }) + response.msg_type@ + ", payload="@ + json_compact(response.payload.tree())
        }),
{
    let t = response.msg_type.as_str();
    if str_eq(t, "EchoResponse") && is_ping(&response.payload) {
        return EchoStep::Passed;
    }
    if first && str_eq(t, msg_types::LEASE_RENEW) {
        return EchoStep::ReadAgain;
    }
    let start = if first {
        "Unexpected response: type="
    } else {
        "Unexpected echo response: type="
    };
    let mut m = sentence(start, t);
    m.append(", payload=");
    m.append(response.payload.compact().as_str());
    EchoStep::Failed(m)
}

/// The number of tests that passed.
pub open spec fn passed_tests(results: Seq<InvariantResult>) -> nat
    decreases results.len(),
{
    if results.len() == 0 {
        0
    } else {
        passed_tests(results.drop_last()) + if results.last().passed {
            1nat
        } else {
            0nat
        }
    }
}

/// Counts the tests that passed.
pub fn passed_count(results: &Vec<InvariantResult>) -> (n: usize)
    ensures
        n == passed_tests(results@),
        n <= results@.len(),
        n == results@.len() <==> !any_failed(results@),
{
    let mut n: usize = 0;
    let mut i: usize = 0;
    while i < results.len()
        invariant
            i <= results@.len(),
            n <= i,
            n == passed_tests(results@.take(i as int)),
            n == i <==> forall|k: int| 0 <= k < i ==> (#[trigger] results@[k]).passed,
        decreases results@.len() - i,
    {
        assert(results@.take(i + 1).drop_last() =~= results@.take(i as int));
        if results[i].passed {
            n += 1;
        }
        i += 1;
    }
    assert(results@.take(results@.len() as int) =~= results@);
    n
}

/// Whether a test failed.
pub open spec fn any_failed(results: Seq<InvariantResult>) -> bool {
    exists|i: int| 0 <= i < results.len() && !(#[trigger] results[i]).passed
}

/// A dimension's score held against its threshold, with both in the notation
/// of messages.
pub struct ScoredDimension {
    pub name: String,
    pub below: bool,
    pub score: String,
    pub threshold: String,
}

/// The score of a version, as far as floating-point arithmetic decides it.
pub struct ScoringResult {
    pub dimensions: Vec<ScoredDimension>,
    /// The scores, to be passed on.
    pub dimension_scores: Json,
    pub overall_score: Json,
    pub overall_text: String,
    pub below_overall_min: bool,
}

/// Whether some dimension is below its threshold.
pub open spec fn any_below(dims: Seq<ScoredDimension>) -> bool {
    exists|i: int| 0 <= i < dims.len() && (#[trigger] dims[i]).below
}

impl ScoringResult {
    /// Whether some dimension is below its threshold.
    pub fn any_below_threshold(&self) -> (b: bool)
        ensures
            b == any_below(self.dimensions@),
    {
        let mut i: usize = 0;
        while i < self.dimensions.len()
            invariant
                i <= self.dimensions@.len(),
                forall|k: int| 0 <= k < i ==> !(#[trigger] self.dimensions@[k]).below,
            decreases self.dimensions@.len() - i,
        {
            if self.dimensions[i].below {
                return true;
            }
            i += 1;
        }
        false
    }
}

/// The score of the version before, held against the new one.
pub struct Regression {
    /// Whether the loss reaches the tolerance.
    pub regressed: bool,
    pub old_text: String,
    pub tolerance_text: String,
}

/// What a version deserves. A broken invariant or a score below a minimum is a
/// hard failure, a regression a soft one.
pub open spec fn verdict(
    invariant_failed: bool,
    below: bool,
    regressed: bool,
) -> TestVerdict {
    if invariant_failed || below {
        TestVerdict::HardFail
    } else if regressed {
        TestVerdict::SoftFail
    } else {
        TestVerdict::Pass
    }
}

/// What the failed tests say of themselves.
pub open spec fn failure_details(results: Seq<InvariantResult>) -> Seq<Seq<char>>
    decreases results.len(),
{
    if results.len() == 0 {
        Seq::empty()
    } else {
        let before = failure_details(results.drop_last());
        let r = results.last();
        if !r.passed && r.detail is Some {
            before.push("  "@ + r.test_id@ + ": "@ + r.detail->Some_0@)
        } else {
            before
        }
    }
}

/// What is said of the dimensions below their thresholds.
pub open spec fn threshold_notes(dims: Seq<ScoredDimension>) -> Seq<Seq<char>>
    decreases dims.len(),
{
    if dims.len() == 0 {
        Seq::empty()
    } else {
        let before = threshold_notes(dims.drop_last());
        let d = dims.last();
        if d.below {
            before.push(d.name@ + " score "@ + d.score@ + " below min threshold "@ + d.threshold@)
        } else {
            before
        }
    }
}

/// What is suggested after a hard failure.
pub open spec fn hard_suggestion(
    results: Seq<InvariantResult>,
    dims: Seq<ScoredDimension>,
) -> Option<Seq<char>> {
    let ids = failed_ids(results);
    let parts = (if ids.len() > 0 {
        seq!["Failed invariant tests: ["@ + joined_with(ids, ", "@) + "]"@] + failure_details(
            results,
        )
    } else {
        Seq::empty()
    }) + threshold_notes(dims);
    if parts.len() == 0 {
        None
    } else {
        Some(joined_with(parts, "; "@))
    }
}

/// What is suggested after a soft failure.
pub open spec fn soft_suggestion(r: Regression, overall: Seq<char>) -> Seq<char> {
    "Score regression detected ("@ + r.old_text@ + " → "@ + overall + ", tolerance "@
        + r.tolerance_text@ + "). Version eligible for probation."@
}

fn push_details(parts: &mut Vec<String>, results: &Vec<InvariantResult>)
    ensures
        texts(final(parts)@) == texts(old(parts)@) + failure_details(results@),
{
    let mut i: usize = 0;
    assert(texts(parts@) =~= texts(old(parts)@) + failure_details(results@.take(0)));
    while i < results.len()
        invariant
            i <= results@.len(),
            texts(parts@) == texts(old(parts)@) + failure_details(results@.take(i as int)),
        decreases results@.len() - i,
    {
        assert(results@.take(i + 1).drop_last() =~= results@.take(i as int));
        let r = &results[i];
        match &r.detail {
            Some(d) => {
                if !r.passed {
                    let mut m = sentence("  ", r.test_id.as_str());
                    m.append(": ");
                    m.append(d.as_str());
                    proof {
                        lemma_texts_push(parts@, m);
                    }
                    parts.push(m);
                }
            },
            None => {},
        }
        assert(texts(parts@) =~= texts(old(parts)@) + failure_details(results@.take(i + 1)));
        i += 1;
    }
    assert(results@.take(results@.len() as int) =~= results@);
}

fn push_notes(parts: &mut Vec<String>, dims: &Vec<ScoredDimension>)
    ensures
        texts(final(parts)@) == texts(old(parts)@) + threshold_notes(dims@),
{
    let mut i: usize = 0;
    assert(texts(parts@) =~= texts(old(parts)@) + threshold_notes(dims@.take(0)));
    while i < dims.len()
        invariant
            i <= dims@.len(),
            texts(parts@) == texts(old(parts)@) + threshold_notes(dims@.take(i as int)),
        decreases dims@.len() - i,
    {
        assert(dims@.take(i + 1).drop_last() =~= dims@.take(i as int));
        let d = &dims[i];
        if d.below {
            let mut m = sentence(d.name.as_str(), " score ");
            m.append(d.score.as_str());
            m.append(" below min threshold ");
            m.append(d.threshold.as_str());
            proof {
                lemma_texts_push(parts@, m);
            }
            parts.push(m);
        }
        assert(texts(parts@) =~= texts(old(parts)@) + threshold_notes(dims@.take(i + 1)));
        i += 1;
    }
    assert(dims@.take(dims@.len() as int) =~= dims@);
}

/// What is suggested after a hard failure.
pub fn build_hard_fail_suggestion(
    results: &Vec<InvariantResult>,
    dims: &Vec<ScoredDimension>,
) -> (r: Option<String>)
    ensures
        opt_text(r) == hard_suggestion(results@, dims@),
{
    let mut parts: Vec<String> = Vec::new();
    assert(texts(parts@) =~= Seq::empty());
    let names = failed_tests(results);
    assert(texts(names@).len() == names@.len());
    if names.len() > 0 {
        let mut m = sentence("Failed invariant tests: [", join_with(&names, ", ").as_str());
        m.append("]");
        proof {
            lemma_texts_push(parts@, m);
        }
        parts.push(m);
        assert(texts(parts@) =~= seq![m@]);
        push_details(&mut parts, results);
    }
    push_notes(&mut parts, dims);
    assert(texts(parts@).len() == parts@.len());
    if parts.len() == 0 {
        None
    } else {
        Some(join_with(&parts, "; "))
    }
}

fn copy_results(results: &Vec<InvariantResult>) -> (r: Vec<InvariantResult>)
    ensures
        r@.len() == results@.len(),
        forall|i: int| 0 <= i < r@.len() ==> (#[trigger] r@[i])@ == results@[i]@,
{
    let mut r: Vec<InvariantResult> = Vec::new();
    let mut i: usize = 0;
    while i < results.len()
        invariant
            i <= results@.len(),
            r@.len() == i,
            forall|k: int| 0 <= k < i ==> (#[trigger] r@[k])@ == results@[k]@,
        decreases results@.len() - i,
    {
        let x = &results[i];
        r.push(
            InvariantResult {
                test_id: x.test_id.clone(),
                passed: x.passed,
                detail: x.detail.clone(),
            },
        );
        i += 1;
    }
    r
}

/// The judge's result on a version. `regression` holds it against the version
/// before, where that has a score.
pub fn build_test_result(
    version: &str,
    invariant_results: &Vec<InvariantResult>,
    scoring: &ScoringResult,
    regression: &Option<Regression>,
) -> (r: TestResult)
    requires
        scoring.dimension_scores.wf(),
        scoring.overall_score.wf(),
    ensures
        r.version@ == version@,
        r.verdict == verdict(
            any_failed(invariant_results@),
            any_below(scoring.dimensions@) || scoring.below_overall_min,
            regression is Some && regression->Some_0.regressed,
        ),
        r.invariant_results@.len() == invariant_results@.len(),
        forall|i: int|
            0 <= i < r.invariant_results@.len() ==> (#[trigger] r.invariant_results@[i])@
                == invariant_results@[i]@,
        r.dimension_scores.wf() && r.dimension_scores.tree() == scoring.dimension_scores.tree(),
        r.overall_score.wf() && r.overall_score.tree() == scoring.overall_score.tree(),
        opt_text(r.suggestion) == (match r.verdict {
            TestVerdict::HardFail => hard_suggestion(invariant_results@, scoring.dimensions@),
            TestVerdict::SoftFail => Some(
                soft_suggestion(regression->Some_0, scoring.overall_text@),
            ),
            TestVerdict::Pass => None,
        }),
{
    let failed = passed_count(invariant_results) < invariant_results.len();
    let suggestion;
    let outcome;
    if failed || scoring.any_below_threshold() || scoring.below_overall_min {
        outcome = TestVerdict::HardFail;
        suggestion = build_hard_fail_suggestion(invariant_results, &scoring.dimensions);
    } else {
        match regression {
            Some(x) => {
                if x.regressed {
                    let mut m = sentence("Score regression detected (", x.old_text.as_str());
                    m.append(" → ");
                    m.append(scoring.overall_text.as_str());
                    m.append(", tolerance ");
                    m.append(x.tolerance_text.as_str());
                    m.append("). Version eligible for probation.");
                    outcome = TestVerdict::SoftFail;
                    suggestion = Some(m);
                } else {
                    outcome = TestVerdict::Pass;
                    suggestion = None;
                }
            },
            None => {
                outcome = TestVerdict::Pass;
                suggestion = None;
            },
        }
    }
    TestResult {
        version: version.to_owned(),
        verdict: outcome,
        invariant_results: copy_results(invariant_results),
        dimension_scores: scoring.dimension_scores.copy(),
        overall_score: scoring.overall_score.copy(),
        suggestion,
    }
}

/// The score nought, as a number with a fraction.
pub open spec fn no_score() -> JsonTree {
    match json_parse("0.0"@) {
        Ok(t) => t,
        Err(_) => JsonTree::Null,
    }
}

/// The judge's result on a request that it could not read.
pub fn refuse_request(error: &str) -> (r: TestResult)
    ensures
        r.version@.len() == 0,
        r.verdict is HardFail,
        r.invariant_results@.len() == 0,
        r.dimension_scores.wf() && r.dimension_scores.tree() == text_list(Seq::empty()),
        r.overall_score.wf() && r.overall_score.tree() == no_score(),
        opt_text(r.suggestion) == Some("Invalid TestRequest payload: "@ + error@),
{
    let none: Vec<String> = Vec::new();
    assert(texts(none@) =~= Seq::empty());
    let score = match Json::parse("0.0") {
        Ok(j) => j,
        Err(_) => Json::Null,
    };
    TestResult {
        version: String::new(),
        verdict: TestVerdict::HardFail,
        invariant_results: Vec::new(),
        dimension_scores: Json::strings(&none),
        overall_score: score,
        suggestion: Some(sentence("Invalid TestRequest payload: ", error)),
    }
}

/// A version passes only if every invariant holds and no score is too low or
/// has fallen too far; a broken invariant can never be made up for.
pub proof fn law_verdict_is_proportionate(
    invariant_failed: bool,
    below: bool,
    regressed: bool,
)
    ensures
        verdict(invariant_failed, below, regressed) is Pass <==> !invariant_failed && !below
            && !regressed,
        invariant_failed ==> verdict(invariant_failed, below, regressed) is HardFail,
        verdict(invariant_failed, below, regressed) is SoftFail <==> !invariant_failed && !below
            && regressed,
{
}

/// The types of tests.
pub proof fn law_tests_are_told_apart_by_type(t: Seq<char>)
    ensures
        test_kind("handshake"@) is Handshake,
        test_kind("echo"@) is Echo,
        test_kind("heartbeat"@) is Heartbeat,
        t != "handshake"@ && t != "echo"@ && t != "heartbeat"@ ==> test_kind(t) is Unknown,
{
    reveal_strlit("handshake");
    reveal_strlit("echo");
    reveal_strlit("heartbeat");
    assert("handshake"@.len() == 9);
    assert("echo"@.len() == 4);
    assert("heartbeat"@.len() == 9);
    assert("handshake"@[1] == 'a');
    assert("heartbeat"@[1] == 'e');
}

/// A test is passed only where it passed, and one that was not says why.
pub proof fn law_results_follow_the_outcome(id: Seq<char>, secs: u64, o: TestOutcome)
    ensures
        tested(id, secs, o).test_id == id,
        tested(id, secs, o).passed <==> o is Passed,
        tested(id, secs, o).detail is None <==> o is Passed,
        o is Failed ==> tested(id, secs, o).detail == Some(o->Failed_0@),
        o is TimedOut ==> contains_text(tested(id, secs, o).detail->0, dec(secs as nat)),
{
    if o is TimedOut {
        law_parts_are_found(
            "Test timed out after "@,
            dec(secs as nat),
            "s"@,
            tested(id, secs, o).detail->0,
        );
    }
}

/// The passed tests are counted.
pub proof fn law_passed_tests_are_counted(results: Seq<InvariantResult>)
    ensures
        passed_tests(results) == results.filter(|r: InvariantResult| r.passed).len(),
    decreases results.len(),
{
    reveal(Seq::filter);
    if results.len() > 0 {
        law_passed_tests_are_counted(results.drop_last());
    }
}

proof fn lemma_details(results: Seq<InvariantResult>, i: int)
    requires
        0 <= i < results.len(),
        !results[i].passed,
        results[i].detail is Some,
    ensures
        failure_details(results).contains(
            "  "@ + results[i].test_id@ + ": "@ + results[i].detail->0@,
        ),
    decreases results.len(),
{
    let d = results.drop_last();
    let all = failure_details(results);
    if i < d.len() {
        lemma_details(d, i);
        let x = "  "@ + results[i].test_id@ + ": "@ + results[i].detail->0@;
        assert(d[i] == results[i]);
        let k = failure_details(d).index_of(x);
        assert(all[k] == x);
    } else {
        assert(all.last() == all[all.len() - 1]);
    }
}

proof fn lemma_notes(dims: Seq<ScoredDimension>, i: int)
    requires
        0 <= i < dims.len(),
        dims[i].below,
    ensures
        threshold_notes(dims).contains(
            dims[i].name@ + " score "@ + dims[i].score@ + " below min threshold "@
                + dims[i].threshold@,
        ),
    decreases dims.len(),
{
    let d = dims.drop_last();
    let all = threshold_notes(dims);
    if i < d.len() {
        lemma_notes(d, i);
        let x = dims[i].name@ + " score "@ + dims[i].score@ + " below min threshold "@
            + dims[i].threshold@;
        assert(d[i] == dims[i]);
        let k = threshold_notes(d).index_of(x);
        assert(all[k] == x);
    } else {
        assert(all.last() == all[all.len() - 1]);
    }
}

proof fn lemma_failed_is_listed(results: Seq<InvariantResult>, i: int)
    requires
        0 <= i < results.len(),
        !results[i].passed,
    ensures
        failed_ids(results).len() > 0,
{
    let r = results[i];
    let rest = seq![r] + results.skip(i + 1);
    law_failed_tests_are_named(results.take(i), rest, r);
    law_failed_tests_are_named(seq![r], results.skip(i + 1), r);
    assert(results =~= results.take(i) + rest);
}

/// What is suggested after a hard failure holds what each failed test says of
/// itself.
pub proof fn law_suggestions_hold_the_failed_tests(
    results: Seq<InvariantResult>,
    dims: Seq<ScoredDimension>,
    i: int,
)
    requires
        0 <= i < results.len(),
        !results[i].passed,
    ensures
        hard_suggestion(results, dims) is Some,
        results[i].detail is Some ==> contains_text(
            hard_suggestion(results, dims)->0,
            "  "@ + results[i].test_id@ + ": "@ + results[i].detail->0@,
        ),
{
    lemma_failed_is_listed(results, i);
    let ids = failed_ids(results);
    let first = "Failed invariant tests: ["@ + joined_with(ids, ", "@) + "]"@;
    let details = failure_details(results);
    let parts = (seq![first] + details) + threshold_notes(dims);
    assert(hard_suggestion(results, dims) == Some(joined_with(parts, "; "@)));
    if results[i].detail is Some {
        lemma_details(results, i);
        let x = "  "@ + results[i].test_id@ + ": "@ + results[i].detail->0@;
        let k = details.index_of(x);
        assert(parts[k + 1] == details[k]);
        law_joined_texts_are_found(parts, "; "@, k + 1);
    }
}

/// What is suggested after a hard failure holds a note for each dimension below
/// its threshold.
pub proof fn law_suggestions_hold_the_low_scores(
    results: Seq<InvariantResult>,
    dims: Seq<ScoredDimension>,
    i: int,
)
    requires
        0 <= i < dims.len(),
        dims[i].below,
    ensures
        hard_suggestion(results, dims) is Some,
        contains_text(
            hard_suggestion(results, dims)->0,
            dims[i].name@ + " score "@ + dims[i].score@ + " below min threshold "@
                + dims[i].threshold@,
        ),
{
    lemma_notes(dims, i);
    let ids = failed_ids(results);
    let head = if ids.len() > 0 {
        seq!["Failed invariant tests: ["@ + joined_with(ids, ", "@) + "]"@] + failure_details(
            results,
        )
    } else {
        Seq::empty()
    };
    let notes = threshold_notes(dims);
    let parts = head + notes;
    let x = dims[i].name@ + " score "@ + dims[i].score@ + " below min threshold "@
        + dims[i].threshold@;
    let k = notes.index_of(x);
    assert(parts[head.len() + k] == notes[k]);
    law_joined_texts_are_found(parts, "; "@, head.len() + k);
}

/// What is suggested after a soft failure holds both scores and the tolerance.
pub proof fn law_soft_failures_name_the_scores(r: Regression, overall: Seq<char>)
    ensures
        contains_text(soft_suggestion(r, overall), r.old_text@ + " → "@ + overall),
        contains_text(soft_suggestion(r, overall), r.tolerance_text@),
{
    let s = soft_suggestion(r, overall);
    let head = "Score regression detected ("@;
    let pair = r.old_text@ + " → "@ + overall;
    let end = "). Version eligible for probation."@;
    let tail = ", tolerance "@ + r.tolerance_text@ + end;
    assert(s =~= head + pair + tail);
    law_parts_are_found(head, pair, tail, s);
    assert(s =~= (head + pair + ", tolerance "@) + r.tolerance_text@ + end);
    law_parts_are_found(head + pair + ", tolerance "@, r.tolerance_text@, end, s);
}

/// The welcome in a test answers the handshake of the candidate.
pub proof fn law_candidates_are_welcomed(to: Seq<char>, id: Seq<char>)
    ensures
        test_welcome(to, id).to == to,
        test_welcome(to, id).id == id,
        test_welcome(to, id).msg_type == "Welcome"@,
        test_welcome(to, id).payload.get("runlevel"@) == Some(
            JsonTree::Number(crate::json::number_of(2)),
        ),
        ping().get_text("echo"@) == Some("ping"@),
{
    crate::messages::law_welcome_holds_its_parts(text_list(Seq::empty()), 2);
}

/// A result carries the results of all tests and the scores as they are, passes
/// only where all tests do and no score is too low, and suggests something
/// whenever it does not pass for a test.
pub proof fn law_results_carry_what_was_found(
    version: &str,
    results: Vec<InvariantResult>,
    scoring: ScoringResult,
    regression: Option<Regression>,
    r: TestResult,
)
    requires
        call_ensures(build_test_result, (version, &results, &scoring, &regression), r),
    ensures
        r.version@ == version@,
        r.verdict is Pass ==> (forall|i: int|
            0 <= i < results@.len() ==> (#[trigger] results@[i]).passed) && (forall|i: int|
            0 <= i < scoring.dimensions@.len() ==> !(#[trigger] scoring.dimensions@[i]).below)
            && !scoring.below_overall_min && r.suggestion is None,
        (exists|i: int| 0 <= i < results@.len() && !(#[trigger] results@[i]).passed)
            ==> r.verdict is HardFail && r.suggestion is Some,
        r.verdict is SoftFail ==> regression is Some && regression->0.regressed
            && r.suggestion is Some,
        r.invariant_results@.len() == results@.len(),
        r.overall_score.tree() == scoring.overall_score.tree(),
        r.dimension_scores.tree() == scoring.dimension_scores.tree(),
{
    if exists|i: int| 0 <= i < results@.len() && !(#[trigger] results@[i]).passed {
        let i = choose|i: int| 0 <= i < results@.len() && !(#[trigger] results@[i]).passed;
        law_suggestions_hold_the_failed_tests(results@, scoring.dimensions@, i);
    }
}

/// A candidate passes the handshake and the heartbeat with a message of the type
/// that is waited for and nothing wrong in it, and with no other; an echo has to
/// bring back what was sent, and only the first answer may be a heartbeat.
pub proof fn law_candidates_pass_with_what_is_waited_for(
    t: &str,
    e: Option<String>,
    response: Envelope,
    first: bool,
    a: Result<(), String>,
    b: Result<(), String>,
    s: EchoStep,
)
    requires
        call_ensures(test_handshake, (t, e), a),
        call_ensures(test_heartbeat, (t, e), b),
        response.payload.wf(),
        call_ensures(test_echo, (&response, first), s),
    ensures
        a is Ok <==> t@ == "Hello"@ && e is None,
        b is Ok <==> t@ == "LeaseRenew"@ && e is None,
        t@ == "Hello"@ && e is Some ==> contains_text(a->Err_0@, e->0@),
        t@ == "LeaseRenew"@ && e is Some ==> contains_text(b->Err_0@, e->0@),
        s is Passed <==> response.msg_type@ == "EchoResponse"@ && response.payload.tree()
            == ping(),
        s is ReadAgain ==> first && response.msg_type@ == "LeaseRenew"@,
        first && response.msg_type@ == "LeaseRenew"@ ==> s is ReadAgain,
        !first ==> !(s is ReadAgain),
{
    reveal_strlit("EchoResponse");
    reveal_strlit("LeaseRenew");
    assert("EchoResponse"@.len() == 12);
    assert("LeaseRenew"@.len() == 10);
    if e is Some {
        let none = Seq::<char>::empty();
        if t@ == "Hello"@ {
            assert(a->Err_0@ =~= "Invalid Hello payload: "@ + e->0@ + none);
            law_parts_are_found("Invalid Hello payload: "@, e->0@, none, a->Err_0@);
        }
        if t@ == "LeaseRenew"@ {
            assert(b->Err_0@ =~= "Invalid LeaseRenew payload: "@ + e->0@ + none);
            law_parts_are_found("Invalid LeaseRenew payload: "@, e->0@, none, b->Err_0@);
        }
    }
}

/// Only tests that failed and say why are told, and only dimensions below their
/// thresholds are noted, each in its place.
pub proof fn law_failures_are_told_in_order(
    results: Seq<InvariantResult>,
    r: InvariantResult,
    dims: Seq<ScoredDimension>,
    d: ScoredDimension,
)
    ensures
        failure_details(Seq::empty()).len() == 0,
        r.passed || r.detail is None ==> failure_details(results.push(r)) == failure_details(
            results,
        ),
        !r.passed && r.detail is Some ==> failure_details(results.push(r)) == failure_details(
            results,
        ).push("  "@ + r.test_id@ + ": "@ + r.detail->0@),
        threshold_notes(Seq::empty()).len() == 0,
        !d.below ==> threshold_notes(dims.push(d)) == threshold_notes(dims),
        d.below ==> threshold_notes(dims.push(d)) == threshold_notes(dims).push(
            d.name@ + " score "@ + d.score@ + " below min threshold "@ + d.threshold@,
        ),
{
    assert(results.push(r).drop_last() =~= results);
    assert(dims.push(d).drop_last() =~= dims);
}

/// Where nothing failed there is nothing to suggest; where only scores are too
/// low the notes on them are all that is.
pub proof fn law_suggestions_without_failed_tests(
    results: Seq<InvariantResult>,
    dims: Seq<ScoredDimension>,
)
    requires
        failed_ids(results).len() == 0,
    ensures
        threshold_notes(dims).len() == 0 ==> hard_suggestion(results, dims) is None,
        threshold_notes(dims).len() > 0 ==> hard_suggestion(results, dims) == Some(
            joined_with(threshold_notes(dims), "; "@),
        ),
{
    assert(Seq::<Seq<char>>::empty() + threshold_notes(dims) =~= threshold_notes(dims));
}

} // verus!
