//! Explanations of findings by a language model. A model only words what the
//! evidence says; it takes no part in finding it.
use crate::engine::severity_text;
use crate::engine;
use crate::finding::{Evidence, EvidenceView, Finding, FindingView};
use crate::json;
use crate::json::{parse_error, pointer_text, quote};
use crate::text;
use crate::time::Period;
use vstd::prelude::*;

verus! {

/// How long connecting to a model may take.
pub const DEFAULT_CONNECT_SECS: u64 = 5;

/// How long an answer of a model may take.
pub const DEFAULT_REQUEST_SECS: u64 = 30;

/// The model that is asked where none is named.
pub const DEFAULT_MODEL: &'static str = "gpt-4o-mini";

/// What a model is told of its task.
pub const SYSTEM_PROMPT: &'static str = "You are an operational intelligence engine for Bitcoin/Lightning infrastructure. Explain findings in plain language for a node operator. Be concise, specific, and cite the evidence numbers. Never invent facts.";

/// A request to explain a finding.
#[derive(Debug)]
pub struct ExplainRequest<'a> {
    pub finding: &'a Finding,
    /// What else the model may know, such as the version of the node.
    pub context: Option<String>,
}

/// Why a finding cannot be explained.
#[derive(Debug, PartialEq, Eq)]
pub enum LlmError {
    Configuration(String),
    Request(String),
    Transport(String),
    Response(String),
}

/// The mathematical value of a [`LlmError`].
pub enum LlmErrorView {
    Configuration(Seq<char>),
    Request(Seq<char>),
    Transport(Seq<char>),
    Response(Seq<char>),
}

impl DeepView for LlmError {
    type V = LlmErrorView;

    open spec fn deep_view(&self) -> LlmErrorView {
        match self {
            LlmError::Configuration(s) => LlmErrorView::Configuration(s@),
            LlmError::Request(s) => LlmErrorView::Request(s@),
            LlmError::Transport(s) => LlmErrorView::Transport(s@),
            LlmError::Response(s) => LlmErrorView::Response(s@),
        }
    }
}

/// What an error says.
pub open spec fn llm_error_text(e: LlmErrorView) -> Seq<char> {
    match e {
        LlmErrorView::Configuration(s) => "invalid LLM configuration: "@ + s,
        LlmErrorView::Request(s) => "LLM request failed: "@ + s,
        LlmErrorView::Transport(s) => "transport error: "@ + s,
        LlmErrorView::Response(s) => "unexpected LLM response: "@ + s,
    }
}

impl LlmError {
    /// What the error says.
    pub fn to_text(&self) -> (r: String)
        ensures
            r@ == llm_error_text(self.deep_view()),
    {
        match self {
            LlmError::Configuration(s) => "invalid LLM configuration: ".to_owned().concat(
                s.as_str(),
            ),
            LlmError::Request(s) => "LLM request failed: ".to_owned().concat(s.as_str()),
            LlmError::Transport(s) => "transport error: ".to_owned().concat(s.as_str()),
            LlmError::Response(s) => "unexpected LLM response: ".to_owned().concat(s.as_str()),
        }
    }
}

/// The outcome of an explanation over mathematical values.
pub open spec fn explained(r: Result<Option<String>, LlmError>) -> Result<
    Option<Seq<char>>,
    LlmErrorView,
> {
    match r {
        Ok(text) => Ok(text.deep_view()),
        Err(e) => Err(e.deep_view()),
    }
}

/// Something that can explain a finding in plain language. It gives nothing
/// where no explanation is to be had.
pub trait LlmClient {
    /// The explanation of a finding.
    fn explain(&self, request: &ExplainRequest) -> Result<Option<String>, LlmError>;
}

/// The client that stands in where no model is set up.
pub struct NullClient;

impl LlmClient for NullClient {
    fn explain(&self, request: &ExplainRequest) -> (r: Result<Option<String>, LlmError>)
        ensures
            r == Ok::<Option<String>, LlmError>(None),
    {
        Ok(None)
    }
}

/// One line for each piece of evidence.
pub open spec fn evidence_lines(evidence: Seq<EvidenceView>) -> Seq<char>
    decreases evidence.len(),
{
    if evidence.len() == 0 {
        seq![]
    } else {
        evidence_lines(evidence.drop_last()) + "- "@ + evidence.last().key + ": "@
            + json::json_text(evidence.last().value) + "\n"@
    }
}

/// The line that gives a model its context.
pub open spec fn context_line(context: Option<Seq<char>>) -> Seq<char> {
    match context {
        Some(c) => "Context: "@ + c + "\n"@,
        None => seq![],
    }
}

/// What a model is asked about a finding.
pub open spec fn prompt_text(f: FindingView, context: Option<Seq<char>>) -> Seq<char> {
    "A detector named `"@ + f.detector + "` raised a "@ + engine::severity_name(f.severity)
        + " finding.\n"@ + context_line(context) + "Evidence:\n"@ + evidence_lines(f.evidence)
        + "Write a 2-3 sentence explanation for a node operator. Start with what is abnormal, then the likely operational impact, then the recommended next step. Cite the evidence numbers."@
}

fn list_evidence(evidence: &Vec<Evidence>) -> (r: String)
    ensures
        r@ == evidence_lines(evidence.deep_view()),
{
    let ghost all = evidence.deep_view();
    let mut out = String::new();
    let mut i: usize = 0;
    while i < evidence.len()
        invariant
            i <= evidence.len(),
            all == evidence.deep_view(),
            out@ == evidence_lines(all.take(i as int)),
        decreases evidence.len() - i,
    {
        assert(all.take(i + 1).drop_last() =~= all.take(i as int));
        assert(all.take(i + 1).last() == evidence[i as int].deep_view());
        out.append("- ");
        out.append(evidence[i].key.as_str());
        out.append(": ");
        out.append(evidence[i].value.to_text().as_str());
        out.append("\n");
        assert(out@ =~= evidence_lines(all.take(i + 1)));
        i += 1;
    }
    assert(all.take(i as int) =~= all);
    out
}

/// What a model is asked about a finding. The same finding in the same context
/// is always put in the same words.
pub fn build_explanation_prompt(finding: &Finding, context: Option<&str>) -> (r: String)
    ensures
        r@ == prompt_text(finding.deep_view(), context.deep_view()),
{
    let line = match context {
        Some(c) => "Context: ".to_owned().concat(c).concat("\n"),
        None => String::new(),
    };
    assert(line@ =~= context_line(context.deep_view()));
    "A detector named `".to_owned().concat(finding.detector.as_str()).concat("` raised a ").concat(
        severity_text(finding.severity),
    ).concat(" finding.\n").concat(line.as_str()).concat("Evidence:\n").concat(
        list_evidence(&finding.evidence).as_str(),
    ).concat(
        "Write a 2-3 sentence explanation for a node operator. Start with what is abnormal, then the likely operational impact, then the recommended next step. Cite the evidence numbers.",
    )
}

/// What is wrong with the deadlines of a client.
pub open spec fn timeouts_refusal(connect: Period, request: Period) -> Option<Seq<char>> {
    if connect.nothing() {
        Some("connect timeout must be greater than zero"@)
    } else if request.nothing() {
        Some("request timeout must be greater than zero"@)
    } else {
        None
    }
}

/// Checks the deadlines of a client: neither may be zero.
pub fn check_timeouts(connect: Period, request: Period) -> (r: Result<(), LlmError>)
    ensures
        match r {
            Ok(_) => timeouts_refusal(connect, request) is None,
            Err(e) => e matches LlmError::Configuration(message) && timeouts_refusal(
                connect,
                request,
            ) == Some(message@),
        },
{
    if connect.is_zero() {
        return Err(
            LlmError::Configuration("connect timeout must be greater than zero".to_owned()),
        );
    }
    if request.is_zero() {
        return Err(
            LlmError::Configuration("request timeout must be greater than zero".to_owned()),
        );
    }
    Ok(())
}

/// What a client of a model is set up with.
#[derive(Debug, PartialEq, Eq)]
pub struct LlmSettings {
    pub endpoint: String,
    pub api_key: Option<String>,
    pub model: String,
}

/// The settings that the environment gives: none without an endpoint, and an
/// error where the endpoint cannot be read. A model that is not named, or
/// cannot be read, is the default one.
pub fn settings_from_env(
    endpoint: Result<Option<String>, String>,
    api_key: Option<String>,
    model: Option<String>,
) -> (r: Result<Option<LlmSettings>, LlmError>)
    ensures
        match endpoint {
            Err(message) => (r matches Err(e) && e.deep_view() == LlmErrorView::Configuration(
                "RIEKO_LLM_ENDPOINT is invalid: "@ + message@,
            )),
            Ok(None) => r == Ok::<Option<LlmSettings>, LlmError>(None),
            Ok(Some(url)) => (r matches Ok(Some(s)) && s.endpoint@ == url@ && s.api_key == api_key
                && s.model@ == (match model {
                Some(m) => m@,
                None => DEFAULT_MODEL@,
            })),
        },
{
    let endpoint = match endpoint {
        Ok(Some(endpoint)) => endpoint,
        Ok(None) => {
            return Ok(None);
        },
        Err(message) => {
            return Err(
                LlmError::Configuration(
                    "RIEKO_LLM_ENDPOINT is invalid: ".to_owned().concat(message.as_str()),
                ),
            );
        },
    };
    let model = match model {
        Some(model) => model,
        None => DEFAULT_MODEL.to_owned(),
    };
    Ok(Some(LlmSettings { endpoint, api_key, model }))
}

/// The body of a request to a model.
pub open spec fn body_text(model: Seq<char>, prompt: Seq<char>) -> Seq<char> {
    "{\"max_tokens\":300,\"messages\":[{\"content\":"@ + json::quoted(SYSTEM_PROMPT@)
        + ",\"role\":\"system\"},{\"content\":"@ + json::quoted(prompt)
        + ",\"role\":\"user\"}],\"model\":"@ + json::quoted(model) + ",\"temperature\":0.2}"@
}

/// The body of a request to a model: the task, the prompt, and little freedom.
pub fn request_body(model: &str, prompt: &str) -> (r: String)
    ensures
        r@ == body_text(model@, prompt@),
{
    "{\"max_tokens\":300,\"messages\":[{\"content\":".to_owned().concat(
        quote(SYSTEM_PROMPT).as_str(),
    ).concat(",\"role\":\"system\"},{\"content\":").concat(quote(prompt).as_str()).concat(
        ",\"role\":\"user\"}],\"model\":",
    ).concat(quote(model).as_str()).concat(",\"temperature\":0.2}")
}

/// Checks the status of a model's answer; `shown` is how it reads.
pub fn check_status(status: u16, shown: &str) -> (r: Result<(), LlmError>)
    ensures
        match r {
            Ok(_) => 200 <= status < 300,
            Err(e) => !(200 <= status < 300) && e.deep_view() == LlmErrorView::Request(
                "LLM endpoint returned "@ + shown@,
            ),
        },
{
    if 200 <= status && status < 300 {
        Ok(())
    } else {
        Err(LlmError::Request("LLM endpoint returned ".to_owned().concat(shown)))
    }
}

/// The explanation in a model's answer, where its parts have been read.
pub open spec fn answer_of(error: Option<Seq<char>>, content: Option<Seq<char>>) -> Result<
    Option<Seq<char>>,
    LlmErrorView,
> {
    match error {
        Some(message) => Err(LlmErrorView::Transport(message)),
        None => match content {
            Some(text) => Ok(Some(text)),
            None => Err(LlmErrorView::Response("no choices/0/message/content"@)),
        },
    }
}

/// The explanation in a model's answer, where its parts have been read.
pub fn read_answer(error: Option<String>, content: Option<String>) -> (r: Result<
    Option<String>,
    LlmError,
>)
    ensures
        explained(r) == answer_of(error.deep_view(), content.deep_view()),
{
    match error {
        Some(message) => Err(LlmError::Transport(message)),
        None => match content {
            Some(text) => Ok(Some(text)),
            None => Err(LlmError::Response("no choices/0/message/content".to_owned())),
        },
    }
}

/// The explanation in the body of a model's answer.
pub fn explanation_from(body: &str) -> (r: Result<Option<String>, LlmError>)
    ensures
        explained(r) == answer_of(
            json::json_parse_error(body@),
            json::json_pointer_text(body@, "/choices/0/message/content"@),
        ),
{
    read_answer(parse_error(body), pointer_text(body, "/choices/0/message/content"))
}

/// Every key of the evidence, and the context, stand in the prompt.
pub proof fn lemma_prompt_names_the_evidence(f: FindingView, context: Option<Seq<char>>, i: int)
    requires
        0 <= i < f.evidence.len(),
    ensures
        text::occurs(prompt_text(f, context), f.evidence[i].key),
        text::occurs(prompt_text(f, context), json::json_text(f.evidence[i].value)),
        text::occurs(prompt_text(f, context), f.detector),
        context is Some ==> text::occurs(prompt_text(f, context), context->0),
{
    let head = "A detector named `"@;
    let p1 = head + f.detector;
    let tail = "Write a 2-3 sentence explanation for a node operator. Start with what is abnormal, then the likely operational impact, then the recommended next step. Cite the evidence numbers."@;
    let p2 = p1 + "` raised a "@ + engine::severity_name(f.severity) + " finding.\n"@;
    let p3 = p2 + context_line(context);
    let p4 = p3 + "Evidence:\n"@;
    let lines = evidence_lines(f.evidence);
    let whole = p4 + lines + tail;
    assert(whole == prompt_text(f, context));
    lemma_line_occurs(f.evidence, i);
    lemma_occurs_inside(lines, f.evidence[i].key, p4, tail);
    lemma_occurs_inside(lines, json::json_text(f.evidence[i].value), p4, tail);
    let rest = whole.skip(p1.len() as int);
    assert(whole =~= head + f.detector + rest);
    lemma_occurs_itself(f.detector);
    lemma_occurs_inside(f.detector, f.detector, head, rest);
    if context is Some {
        let c = context->0;
        let before = p2 + "Context: "@;
        let after = whole.skip((before.len() + c.len()) as int);
        assert(whole =~= before + c + after);
        lemma_occurs_itself(c);
        lemma_occurs_inside(c, c, before, after);
    }
}

proof fn lemma_occurs_itself(s: Seq<char>)
    ensures
        text::occurs(s, s),
{
    text::lemma_occurs_itself(s);
}

proof fn lemma_occurs_inside(s: Seq<char>, needle: Seq<char>, before: Seq<char>, after: Seq<char>)
    requires
        text::occurs(s, needle),
    ensures
        text::occurs(before + s + after, needle),
{
    text::lemma_occurs_inside(s, needle, before, after);
}

proof fn lemma_line_occurs(evidence: Seq<EvidenceView>, i: int)
    requires
        0 <= i < evidence.len(),
    ensures
        text::occurs(evidence_lines(evidence), evidence[i].key),
        text::occurs(evidence_lines(evidence), json::json_text(evidence[i].value)),
    decreases evidence.len(),
{
    let rest = evidence.drop_last();
    let key = evidence.last().key;
    let value = json::json_text(evidence.last().value);
    let before = evidence_lines(rest);
    let line = "- "@ + key + ": "@ + value + "\n"@;
    assert(evidence_lines(evidence) =~= before + line + Seq::<char>::empty());
    if i < rest.len() {
        lemma_line_occurs(rest, i);
        assert(evidence_lines(evidence) =~= Seq::<char>::empty() + before + line);
        lemma_occurs_inside(before, evidence[i].key, Seq::empty(), line);
        lemma_occurs_inside(before, json::json_text(evidence[i].value), Seq::empty(), line);
    } else {
        lemma_occurs_itself(key);
        lemma_occurs_itself(value);
        let head = before + "- "@;
        assert(evidence_lines(evidence) =~= head + key + (": "@ + value + "\n"@));
        lemma_occurs_inside(key, key, head, ": "@ + value + "\n"@);
        let mid = before + "- "@ + key + ": "@;
        assert(evidence_lines(evidence) =~= mid + value + "\n"@);
        lemma_occurs_inside(value, value, mid, "\n"@);
    }
}

/// The time allowed is taken exactly if there is some for connecting and some for
/// the request.
pub proof fn lemma_which_timeouts_are_taken(connect: Period, request: Period)
    ensures
        timeouts_refusal(connect, request) is None <==> (connect.secs > 0 || connect.nanos > 0) && (
        request.secs > 0 || request.nanos > 0),
{
}

/// An answer explains exactly if it can be read and has a text where the text
/// belongs; the explanation is that text. An answer that cannot be read is told
/// from one without the text.
pub proof fn lemma_what_an_answer_says(error: Option<Seq<char>>, content: Option<Seq<char>>)
    ensures
        answer_of(error, content) is Ok <==> error is None && content is Some,
        answer_of(error, content) is Ok ==> answer_of(error, content)->Ok_0 == content,
        error is Some ==> answer_of(error, content)->Err_0 == LlmErrorView::Transport(error->0),
        error is None && content is None ==> answer_of(error, content)->Err_0 is Response,
{
}

/// What is sent holds the prompt and the name of the model, each as a string of
/// JSON.
pub proof fn lemma_requests_hold_the_prompt(model: Seq<char>, prompt: Seq<char>)
    ensures
        text::occurs(body_text(model, prompt), json::quoted(prompt)),
        text::occurs(body_text(model, prompt), json::quoted(model)),
        text::occurs(body_text(model, prompt), json::quoted(SYSTEM_PROMPT@)),
{
    let a = "{\"max_tokens\":300,\"messages\":[{\"content\":"@;
    let b = json::quoted(SYSTEM_PROMPT@);
    let c = ",\"role\":\"system\"},{\"content\":"@;
    let d = json::quoted(prompt);
    let e = ",\"role\":\"user\"}],\"model\":"@;
    let f = json::quoted(model);
    let g = ",\"temperature\":0.2}"@;
    let whole = body_text(model, prompt);
    lemma_occurs_itself(b);
    lemma_occurs_itself(d);
    lemma_occurs_itself(f);
    lemma_occurs_inside(b, b, a, c + d + e + f + g);
    assert(whole =~= a + b + (c + d + e + f + g));
    lemma_occurs_inside(d, d, a + b + c, e + f + g);
    assert(whole =~= (a + b + c) + d + (e + f + g));
    lemma_occurs_inside(f, f, a + b + c + d + e, g);
    assert(whole =~= (a + b + c + d + e) + f + g);
}

/// Every piece of evidence has a line of its own, in the order of the evidence.
pub proof fn lemma_evidence_is_listed_in_order(evidence: Seq<EvidenceView>, e: EvidenceView)
    ensures
        evidence_lines(seq![]).len() == 0,
        evidence_lines(evidence.push(e)) == evidence_lines(evidence) + "- "@ + e.key + ": "@
            + json::json_text(e.value) + "\n"@,
{
    assert(evidence.push(e).drop_last() =~= evidence);
}

} // verus!
