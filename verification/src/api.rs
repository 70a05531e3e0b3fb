//! The service's API: its identity, and the evaluation of `POST /`, which
//! composes the exclusive-or service and the negation service:
//! `xnor(a, b) = NOT(a XOR b)`, true exactly when `a == b`.
//!
//! The evaluation alternates calls to the two dependencies with decisions on
//! what they answered; the decisions are the state machine [`Evaluation`]. Its
//! owner performs each [`Action::Call`] and hands the outcome back with
//! [`Evaluation::on_outcome`], until the machine answers with
//! [`Action::Respond`].

use vstd::prelude::*;
use crate::client::DepError;
use crate::json::{lemma_member_named_absent, lemma_member_named_first, Json, JsonValue};

verus! {

/// Dependency endpoints: the base URLs of the two services this one asks.
#[derive(Clone)]
pub struct Deps {
    pub xor_url: String,
    pub not_url: String,
}

/// The service's identity: its name, its concern and what it depends on.
pub struct Info {
    pub service: &'static str,
    pub concern: &'static str,
    pub depends_on: Vec<&'static str>,
}

/// `GET /`: the service's identity.
pub fn index() -> (info: Info)
    ensures
        info.service@ == "srvcs-xnor"@,
        info.concern@ == "logic: NOT XOR (equivalence)"@,
        info.depends_on@.len() == 2,
        info.depends_on@[0]@ == "srvcs-xor"@,
        info.depends_on@[1]@ == "srvcs-not"@,
{
    let mut depends_on: Vec<&'static str> = Vec::new();
    depends_on.push("srvcs-xor");
    depends_on.push("srvcs-not");
    Info { service: "srvcs-xnor", concern: "logic: NOT XOR (equivalence)", depends_on }
}

/// The operands of `POST /`; they are passed on as they came.
pub struct EvalRequest {
    pub a: JsonValue,
    pub b: JsonValue,
}

/// The answer of `POST /`: the operands and the verdict.
pub struct EvalResponse {
    pub a: JsonValue,
    pub b: JsonValue,
    pub result: bool,
}

/// The body that states an answer: `{"a": a, "b": b, "result": result}`.
pub open spec fn verdict_body(a: Json, b: Json, result: bool) -> Json {
    Json::Object(seq![("a"@, a), ("b"@, b), ("result"@, Json::Bool(result))])
}

impl EvalResponse {
    /// The answer as a JSON object (see [`verdict_body`]).
    pub fn to_json(self) -> (body: JsonValue)
        ensures
            body@ == verdict_body(self.a@, self.b@, self.result),
            body@ == Json::Object(seq![("a"@, self.a@), ("b"@, self.b@), ("result"@, Json::Bool(self.result))]),
    {
        JsonValue::object3("a", self.a, "b", self.b, "result", JsonValue::Bool(self.result))
    }
}

/// A reply of this service: a status code and a JSON body.
#[derive(Debug, PartialEq)]
pub struct Reply {
    pub status: u16,
    pub body: JsonValue,
}

impl View for Reply {
    type V = (u16, Json);

    open spec fn view(&self) -> (u16, Json) {
        (self.status, self.body@)
    }
}

/// The body of the reply that names an unavailable dependency.
pub open spec fn degraded_body(dependency: Seq<char>) -> Json {
    Json::Object(
        seq![
            ("dependency"@, Json::Str(dependency)),
            ("error"@, Json::Str("dependency unavailable"@)),
        ],
    )
}

/// `503`, naming the dependency that is unavailable.
pub fn degraded(dependency: &str) -> (reply: Reply)
    ensures
        reply@ == (503u16, degraded_body(dependency@)),
{
    Reply {
        status: 503,
        body: JsonValue::object2(
            "dependency",
            JsonValue::string(dependency),
            "error",
            JsonValue::string("dependency unavailable"),
        ),
    }
}

/// Checks a status code as `http::StatusCode::from_u16` does: it accepts the
/// codes 100 to 999 and gives them back unchanged (through `as_u16`).
#[verifier::external_body]
fn status_code(status: u16) -> (code: Option<u16>)
    ensures
        code == (if 100 <= status <= 999 { Some(status) } else { None::<u16> }),
{
    match axum::http::StatusCode::from_u16(status) {
        Ok(code) => Some(code.as_u16()),
        Err(_) => None,
    }
}

/// The status under which a dependency's reply is passed on: its own, where
/// it is a valid status code, else `502`.
pub open spec fn forwarded_status(status: u16) -> u16 {
    if 100 <= status <= 999 {
        status
    } else {
        502
    }
}

/// Passes a dependency's reply on unchanged (used to propagate `422` for
/// invalid input from a leaf dependency).
pub fn forward(status: u16, body: JsonValue) -> (reply: Reply)
    ensures
        reply@ == (forwarded_status(status), body@),
{
    let code = match status_code(status) {
        Some(code) => code,
        None => 502,
    };
    Reply { status: code, body }
}

/// What a call to a dependency came to: its status code and parsed body, or
/// the failure to reach it.
pub open spec fn outcome_view(outcome: &Result<(u16, JsonValue), DepError>) -> Result<(u16, Json), DepError> {
    match outcome {
        Ok((status, body)) => Ok((*status, body@)),
        Err(e) => Err(*e),
    }
}

/// The verdict that a `200` body states: its boolean member `result`, or
/// `false` where it has none.
pub open spec fn stated_verdict(body: Json) -> bool {
    match body.get("result"@) {
        Some(v) => match v.as_bool() {
            Some(b) => b,
            None => false,
        },
        None => false,
    }
}

/// What one dependency's outcome decides: its verdict, or the reply that this
/// service then gives. `200` gives the verdict; `422` is passed on; being
/// unreachable or any other status makes the service unavailable.
pub open spec fn asked(outcome: Result<(u16, Json), DepError>, dependency: Seq<char>) -> Result<bool, (u16, Json)> {
    match outcome {
        Err(_) => Err((503u16, degraded_body(dependency))),
        Ok((status, body)) => if status == 200 {
            Ok(stated_verdict(body))
        } else if status == 422 {
            Err((forwarded_status(422), body))
        } else {
            Err((503u16, degraded_body(dependency)))
        },
    }
}

/// Decides on one dependency's outcome (see [`asked`]).
pub fn ask(outcome: Result<(u16, JsonValue), DepError>, dependency: &str) -> (decision: Result<bool, Reply>)
    ensures
        match decision {
            Ok(b) => asked(outcome_view(&outcome), dependency@) == Ok::<bool, (u16, Json)>(b),
            Err(reply) => asked(outcome_view(&outcome), dependency@) == Err::<bool, (u16, Json)>(reply@),
        },
{
    match outcome {
        Err(DepError::Unreachable) => Err(degraded(dependency)),
        Ok((status, body)) => {
            if status == 200 {
                let key = "result".to_owned();
                let verdict = match body.get(&key) {
                    Some(v) => match v.as_bool() {
                        Some(b) => b,
                        None => false,
                    },
                    None => false,
                };
                Ok(verdict)
            } else if status == 422 {
                Err(forward(422, body))
            } else {
                Err(degraded(dependency))
            }
        },
    }
}

/// Where an evaluation stands.
#[derive(Debug, PartialEq, Eq, Structural)]
pub enum Phase {
    /// The exclusive-or service has been asked about the operands.
    AwaitXor,
    /// The negation service has been asked about the exclusive-or verdict.
    AwaitNot,
    /// The answer has been given.
    Finished,
}

/// The mathematical state of an evaluation.
pub struct EvalState {
    pub xor_url: Seq<char>,
    pub not_url: Seq<char>,
    pub a: Json,
    pub b: Json,
    pub phase: Phase,
}

/// The mathematical form of an [`Action`].
pub enum Step {
    Call { dependency: Seq<char>, url: Seq<char>, payload: Json },
    Respond { status: u16, body: Json },
}

/// What the exclusive-or service is asked: `{"a": a, "b": b}`.
pub open spec fn xor_payload(a: Json, b: Json) -> Json {
    Json::Object(seq![("a"@, a), ("b"@, b)])
}

/// What the negation service is asked: `{"value": x}`.
pub open spec fn not_payload(x: bool) -> Json {
    Json::Object(seq![("value"@, Json::Bool(x))])
}

/// The state in which an evaluation of `a` and `b` starts.
pub open spec fn initial_state(xor_url: Seq<char>, not_url: Seq<char>, a: Json, b: Json) -> EvalState {
    EvalState { xor_url, not_url, a, b, phase: Phase::AwaitXor }
}

/// The first thing an evaluation does: ask the exclusive-or service.
pub open spec fn first_step(s: EvalState) -> Step {
    Step::Call { dependency: "srvcs-xor"@, url: s.xor_url, payload: xor_payload(s.a, s.b) }
}

/// The state `s` with its phase set to `phase`.
pub open spec fn with_phase(s: EvalState, phase: Phase) -> EvalState {
    EvalState { phase, ..s }
}

/// What an evaluation does with the outcome of the call it is waiting for.
/// Once the exclusive-or service has given its verdict `x`, the negation
/// service is asked about `x`; once that one has given its verdict `r`, the
/// answer is `200` with the operands and `r`. A dependency's failure ends the
/// evaluation with the reply that [`asked`] gives.
pub open spec fn next_step(s: EvalState, outcome: Result<(u16, Json), DepError>) -> (EvalState, Step)
    recommends
        s.phase != Phase::Finished,
{
    match s.phase {
        Phase::AwaitXor => match asked(outcome, "srvcs-xor"@) {
            Ok(x) => (
                with_phase(s, Phase::AwaitNot),
                Step::Call { dependency: "srvcs-not"@, url: s.not_url, payload: not_payload(x) },
            ),
            Err((status, body)) => (with_phase(s, Phase::Finished), Step::Respond { status, body }),
        },
        _ => match asked(outcome, "srvcs-not"@) {
            Ok(r) => (
                with_phase(s, Phase::Finished),
                Step::Respond { status: 200, body: verdict_body(s.a, s.b, r) },
            ),
            Err((status, body)) => (with_phase(s, Phase::Finished), Step::Respond { status, body }),
        },
    }
}

/// A call to make: which dependency, at which base URL, with which body.
#[derive(Debug, PartialEq)]
pub struct Call {
    pub dependency: &'static str,
    pub url: String,
    pub payload: JsonValue,
}

/// What the owner of an evaluation is to do next.
#[derive(Debug, PartialEq)]
pub enum Action {
    /// Call a dependency and hand the outcome back.
    Call(Call),
    /// Answer the request; the evaluation is over.
    Respond(Reply),
}

impl View for Action {
    type V = Step;

    open spec fn view(&self) -> Step {
        match self {
            Action::Call(c) => Step::Call { dependency: c.dependency@, url: c.url@, payload: c.payload@ },
            Action::Respond(r) => Step::Respond { status: r.status, body: r.body@ },
        }
    }
}

/// One evaluation of `POST /`, from the request to the answer.
pub struct Evaluation {
    deps: Deps,
    a: JsonValue,
    b: JsonValue,
    phase: Phase,
}

impl View for Evaluation {
    type V = EvalState;

    closed spec fn view(&self) -> EvalState {
        EvalState {
            xor_url: self.deps.xor_url@,
            not_url: self.deps.not_url@,
            a: self.a@,
            b: self.b@,
            phase: self.phase,
        }
    }
}

impl Evaluation {
    /// Starts evaluating `request`: the first action asks the exclusive-or
    /// service about the operands.
    pub fn start(deps: Deps, request: EvalRequest) -> (started: (Evaluation, Action))
        ensures
            started.0@ == initial_state(deps.xor_url@, deps.not_url@, request.a@, request.b@),
            started.1@ == first_step(started.0@),
    {
        let payload = JsonValue::object2("a", request.a.duplicate(), "b", request.b.duplicate());
        let url = deps.xor_url.clone();
        let evaluation = Evaluation { deps, a: request.a, b: request.b, phase: Phase::AwaitXor };
        (evaluation, Action::Call(Call { dependency: "srvcs-xor", url, payload }))
    }

    /// Whether the evaluation has given its answer.
    pub fn is_finished(&self) -> (finished: bool)
        ensures
            finished == (self@.phase == Phase::Finished),
    {
        match self.phase {
            Phase::Finished => true,
            _ => false,
        }
    }

    /// Takes the outcome of the call that the last action asked for and
    /// decides the next action (see [`next_step`]).
    pub fn on_outcome(&mut self, outcome: Result<(u16, JsonValue), DepError>) -> (action: Action)
        requires
            old(self)@.phase != Phase::Finished,
        ensures
            (final(self)@, action@) == next_step(old(self)@, outcome_view(&outcome)),
    {
        match self.phase {
            Phase::AwaitXor => match ask(outcome, "srvcs-xor") {
                Ok(x) => {
                    self.phase = Phase::AwaitNot;
                    let payload = JsonValue::object1("value", JsonValue::Bool(x));
                    Action::Call(Call { dependency: "srvcs-not", url: self.deps.not_url.clone(), payload })
                },
                Err(reply) => {
                    self.phase = Phase::Finished;
                    Action::Respond(reply)
                },
            },
            _ => match ask(outcome, "srvcs-not") {
                Ok(r) => {
                    self.phase = Phase::Finished;
                    let verdict = EvalResponse { a: self.a.duplicate(), b: self.b.duplicate(), result: r };
                    Action::Respond(Reply { status: 200, body: verdict.to_json() })
                },
                Err(reply) => {
                    self.phase = Phase::Finished;
                    Action::Respond(reply)
                },
            },
        }
    }
}

/// A `200` body that states the verdict `v`: `{"result": v}`.
pub open spec fn result_body(v: bool) -> Json {
    Json::Object(seq![("result"@, Json::Bool(v))])
}

/// The answer of an evaluation whose first call comes to `xor_outcome` and
/// whose second call, if it makes one, comes to `not_outcome`.
pub open spec fn answer(s: EvalState, xor_outcome: Result<(u16, Json), DepError>, not_outcome: Result<(u16, Json), DepError>) -> Step {
    let (s1, step1) = next_step(s, xor_outcome);
    if s1.phase == Phase::Finished {
        step1
    } else {
        next_step(s1, not_outcome).1
    }
}

/// Equivalence: where the exclusive-or service answers `a != b` and the
/// negation service answers the negation of what it is asked, the answer for
/// the boolean operands `a` and `b` is `200` with `result` true exactly when
/// `a == b`; the negation service is asked about `a != b`.
pub proof fn lemma_equivalence(xor_url: Seq<char>, not_url: Seq<char>, a: bool, b: bool)
    ensures
        ({
            let s0 = initial_state(xor_url, not_url, Json::Bool(a), Json::Bool(b));
            let (s1, step1) = next_step(s0, Ok((200u16, result_body(a != b))));
            &&& step1 == Step::Call { dependency: "srvcs-not"@, url: not_url, payload: not_payload(a != b) }
            &&& next_step(s1, Ok((200u16, result_body(!(a != b))))).1 == Step::Respond {
                status: 200,
                body: verdict_body(Json::Bool(a), Json::Bool(b), a == b),
            }
        }),
{
    lemma_result_body_verdict(a != b);
    lemma_result_body_verdict(!(a != b));
}

/// The verdict that `{"result": v}` states is `v`.
pub proof fn lemma_result_body_verdict(v: bool)
    ensures
        stated_verdict(result_body(v)) == v,
{
    let m = seq![("result"@, Json::Bool(v))];
    assert(m[0].0 == "result"@);
}

/// No logic of its own: whatever the operands, where both dependencies answer
/// `200`, the negation service is asked about exactly the verdict of the
/// exclusive-or service, and the answer is `200` with the operands and exactly
/// the verdict of the negation service.
pub proof fn lemma_composes_verdicts(s: EvalState, xor_body: Json, not_body: Json)
    requires
        s.phase == Phase::AwaitXor,
    ensures
        ({
            let (s1, step1) = next_step(s, Ok((200u16, xor_body)));
            &&& s1.phase == Phase::AwaitNot
            &&& step1 == Step::Call {
                dependency: "srvcs-not"@,
                url: s.not_url,
                payload: not_payload(stated_verdict(xor_body)),
            }
            &&& answer(s, Ok((200u16, xor_body)), Ok((200u16, not_body))) == Step::Respond {
                status: 200,
                body: verdict_body(s.a, s.b, stated_verdict(not_body)),
            }
        }),
{
}

/// A failure of the exclusive-or service ends the evaluation at once: the
/// negation service is not asked. Unreachable, or answering a status other
/// than `200` and `422`, it makes the answer `503` naming `srvcs-xor`; its
/// `422` is passed on with its body.
pub proof fn lemma_xor_failure_ends(s: EvalState, outcome: Result<(u16, Json), DepError>)
    requires
        s.phase == Phase::AwaitXor,
        !(outcome matches Ok((200u16, _))),
    ensures
        next_step(s, outcome).0.phase == Phase::Finished,
        next_step(s, outcome).1 == match outcome {
            Ok((422u16, body)) => Step::Respond { status: 422, body },
            _ => Step::Respond { status: 503, body: degraded_body("srvcs-xor"@) },
        },
{
}

/// A failure of the negation service ends the evaluation: unreachable, or
/// answering a status other than `200` and `422`, it makes the answer `503`
/// naming `srvcs-not`; its `422` is passed on with its body.
pub proof fn lemma_not_failure_ends(s: EvalState, outcome: Result<(u16, Json), DepError>)
    requires
        s.phase == Phase::AwaitNot,
        !(outcome matches Ok((200u16, _))),
    ensures
        next_step(s, outcome).0.phase == Phase::Finished,
        next_step(s, outcome).1 == match outcome {
            Ok((422u16, body)) => Step::Respond { status: 422, body },
            _ => Step::Respond { status: 503, body: degraded_body("srvcs-not"@) },
        },
{
}

/// Every evaluation answers after at most two calls, and no step changes the
/// operands or the dependencies' URLs.
pub proof fn lemma_answers_within_two_calls(
    s: EvalState,
    xor_outcome: Result<(u16, Json), DepError>,
    not_outcome: Result<(u16, Json), DepError>,
)
    requires
        s.phase == Phase::AwaitXor,
    ensures
        ({
            let (s1, step1) = next_step(s, xor_outcome);
            let (s2, step2) = next_step(s1, not_outcome);
            &&& (s1.phase == Phase::Finished && step1 is Respond) || (s1.phase == Phase::AwaitNot
                && step1 is Call && s2.phase == Phase::Finished && step2 is Respond)
            &&& s1.a == s.a && s1.b == s.b && s1.xor_url == s.xor_url && s1.not_url == s.not_url
            &&& s2.a == s.a && s2.b == s.b && s2.xor_url == s.xor_url && s2.not_url == s.not_url
        }),
{
}

/// Every answer of an evaluation carries a valid status code (100 to 999).
pub proof fn lemma_answer_status_valid(s: EvalState, outcome: Result<(u16, Json), DepError>)
    ensures
        next_step(s, outcome).1 matches Step::Respond { status, .. } ==> 100 <= status <= 999,
{
}

/// The answer body holds exactly the three members `a`, `b` and `result`, in
/// this order and each once, so that it reads back the operands and the verdict
/// whichever of several equal names a reader would take.
pub proof fn lemma_answer_body_members(a: Json, b: Json, r: bool)
    ensures
        verdict_body(a, b, r) is Object,
        verdict_body(a, b, r)->Object_0.len() == 3,
        verdict_body(a, b, r)->Object_0[0] == ("a"@, a),
        verdict_body(a, b, r)->Object_0[1] == ("b"@, b),
        verdict_body(a, b, r)->Object_0[2] == ("result"@, Json::Bool(r)),
        forall|i: int, j: int|
            0 <= i < j < 3 ==> #[trigger] verdict_body(a, b, r)->Object_0[i].0 != #[trigger] verdict_body(
                a,
                b,
                r,
            )->Object_0[j].0,
        verdict_body(a, b, r).get("a"@) == Some(a),
        verdict_body(a, b, r).get("b"@) == Some(b),
        verdict_body(a, b, r).get("result"@) == Some(Json::Bool(r)),
{
    reveal_strlit("a");
    reveal_strlit("b");
    reveal_strlit("result");
    let m = verdict_body(a, b, r)->Object_0;
    assert("a"@.len() == 1 && "a"@[0] == 'a');
    assert("b"@.len() == 1 && "b"@[0] == 'b');
    assert("result"@.len() == 6);
    assert(m[0].0[0] != m[1].0[0]);
    assert(m[0].0 != m[1].0);
    assert(m[0].0.len() != m[2].0.len());
    assert(m[0].0 != m[2].0);
    assert(m[1].0 != m[2].0);
    lemma_member_named_first(m, "a"@, 0);
    lemma_member_named_first(m, "b"@, 1);
    lemma_member_named_first(m, "result"@, 2);
}

/// A `200` reply's verdict is its member named `result`, wherever that member
/// stands among the others: where the first member so named (at `i`) is a
/// boolean, the verdict is that boolean; where it is not a boolean, the verdict
/// is `false`.
pub proof fn lemma_verdict_is_result_member(members: Seq<(Seq<char>, Json)>, i: int, dependency: Seq<char>)
    requires
        0 <= i < members.len(),
        members[i].0 == "result"@,
        forall|j: int| 0 <= j < i ==> #[trigger] members[j].0 != "result"@,
    ensures
        asked(Ok((200u16, Json::Object(members))), dependency) == Ok::<bool, (u16, Json)>(
            match members[i].1 {
                Json::Bool(v) => v,
                _ => false,
            },
        ),
{
    lemma_member_named_first(members, "result"@, i);
}

/// A `200` reply that has no member named `result`, or is no object at all,
/// states the verdict `false`.
pub proof fn lemma_verdict_without_result_member(body: Json, dependency: Seq<char>)
    requires
        body matches Json::Object(members) ==> forall|j: int| 0 <= j < members.len() ==> #[trigger] members[j].0 != "result"@,
    ensures
        asked(Ok((200u16, body)), dependency) == Ok::<bool, (u16, Json)>(false),
{
    if let Json::Object(members) = body {
        lemma_member_named_absent(members, "result"@);
    }
}

/// What the negation service is asked is an object with the one member
/// `value`, plainly named, holding the verdict asked about; so the call writes
/// it as `{"value":x}` (see `client::prepare_call`).
pub proof fn lemma_not_payload_shape(x: bool)
    ensures
        not_payload(x) is Object,
        not_payload(x)->Object_0.len() == 1,
        not_payload(x)->Object_0[0] == ("value"@, Json::Bool(x)),
        crate::json::plain_name(not_payload(x)->Object_0[0].0),
{
    crate::client::lemma_plain_reply_names();
}

} // verus!
