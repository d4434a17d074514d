//! The decisions of the chat agents: what to do with a model reply, what
//! a tool call answers, and when to retry a request.
use vstd::prelude::*;
use vstd::string::*;

use crate::json::{doc_member, item_text, JsonDoc, JsonDocView};
use crate::text::{decimal, push_decimal, push_str, same_text, text_or};
use crate::tools::{tool_error_text, ToolCallError};

verus! {

// ───────────── Model replies ─────────────

/// A content block of a model reply, as far as the decisions read it.
#[derive(Debug)]
pub enum ReplyBlock {
    /// Text for the user.
    Text { text: String },
    /// A call of one of the league tools.
    ToolUse { id: String, name: String, input: JsonDoc },
    /// Anything else (server-side tools and their results).
    Other,
}

/// The texts of the text blocks, concatenated.
pub open spec fn reply_text(blocks: Seq<ReplyBlock>) -> Seq<char>
    decreases blocks.len(),
{
    if blocks.len() == 0 {
        Seq::empty()
    } else {
        reply_text(blocks.drop_last()) + match blocks.last() {
            ReplyBlock::Text { text } => text@,
            _ => Seq::empty(),
        }
    }
}

/// The positions of the tool calls, in order.
pub open spec fn tool_use_positions(blocks: Seq<ReplyBlock>) -> Seq<usize>
    decreases blocks.len(),
{
    if blocks.len() == 0 {
        Seq::empty()
    } else if blocks.last() is ToolUse {
        tool_use_positions(blocks.drop_last()).push((blocks.len() - 1) as usize)
    } else {
        tool_use_positions(blocks.drop_last())
    }
}

/// Extract all text from content blocks, joining them together.
pub fn extract_text(blocks: &Vec<ReplyBlock>) -> (r: String)
    ensures
        r@ == reply_text(blocks@),
{
    let mut r = String::new();
    for i in 0..blocks.len()
        invariant
            r@ == reply_text(blocks@.take(i as int)),
    {
        assert(blocks@.take(i + 1).drop_last() =~= blocks@.take(i as int));
        assert(blocks@.take(i + 1).last() == blocks@[i as int]);
        match &blocks[i] {
            ReplyBlock::Text { text } => push_str(&mut r, text.as_str()),
            _ => {
                assert(r@ =~= r@ + Seq::<char>::empty());
            },
        }
    }
    assert(blocks@.take(blocks.len() as int) =~= blocks@);
    r
}

/// What the agent does with a reply.
#[derive(Debug)]
pub enum AgentDecision {
    /// Answer the user with this text.
    Answer(String),
    /// Give up with this message.
    Fail(String),
    /// Run the tool calls at these positions of the reply, in order, and
    /// send their results back.
    UseTools(Vec<usize>),
}

/// What the agent does with a reply: by its stop reason ("unknown" when
/// missing), a finished turn is answered with its text, a tool request
/// runs the tools, and any other stop is answered with its text when it
/// has some, else it fails.
pub open spec fn agent_decision_spec(stop_reason: Option<Seq<char>>, blocks: Seq<ReplyBlock>) -> (int, Seq<char>, Seq<usize>) {
    // (0: answer, 1: fail, 2: use tools; text or message; positions)
    let reason = match stop_reason {
        Some(r) => r,
        None => "unknown"@,
    };
    let text = reply_text(blocks);
    if reason == "end_turn"@ {
        (0, text, Seq::empty())
    } else if reason == "tool_use"@ {
        (2, Seq::empty(), tool_use_positions(blocks))
    } else if text.len() > 0 {
        (0, text, Seq::empty())
    } else if reason == "max_tokens"@ {
        (1, "Agent stopped due to max_tokens with no text output"@, Seq::empty())
    } else {
        (1, "Agent stopped with unexpected reason: "@ + reason, Seq::empty())
    }
}

/// The plain values of a decision.
pub open spec fn decision_view(d: AgentDecision) -> (int, Seq<char>, Seq<usize>) {
    match d {
        AgentDecision::Answer(t) => (0, t@, Seq::empty()),
        AgentDecision::Fail(m) => (1, m@, Seq::empty()),
        AgentDecision::UseTools(v) => (2, Seq::empty(), v@),
    }
}

/// What to do with a reply of the Anthropic agent.
pub fn agent_decision(stop_reason: Option<&str>, blocks: &Vec<ReplyBlock>) -> (d: AgentDecision)
    ensures
        decision_view(d) == agent_decision_spec(
            match stop_reason { Some(r) => Some(r@), None => None },
            blocks@,
        ),
{
    let reason: &str = match stop_reason {
        Some(r) => r,
        None => "unknown",
    };
    if same_text(reason, "end_turn") {
        return AgentDecision::Answer(extract_text(blocks));
    }
    if same_text(reason, "tool_use") {
        let mut v: Vec<usize> = Vec::new();
        for i in 0..blocks.len()
            invariant
                v@ == tool_use_positions(blocks@.take(i as int)),
        {
            assert(blocks@.take(i + 1).drop_last() =~= blocks@.take(i as int));
            assert(blocks@.take(i + 1).last() == blocks@[i as int]);
            if let ReplyBlock::ToolUse { .. } = &blocks[i] {
                v.push(i);
            }
        }
        assert(blocks@.take(blocks.len() as int) =~= blocks@);
        return AgentDecision::UseTools(v);
    }
    let text = extract_text(blocks);
    if text.unicode_len() > 0 {
        return AgentDecision::Answer(text);
    }
    if same_text(reason, "max_tokens") {
        AgentDecision::Fail(String::from_str("Agent stopped due to max_tokens with no text output"))
    } else {
        let mut m = String::new();
        push_str(&mut m, "Agent stopped with unexpected reason: ");
        push_str(&mut m, reason);
        AgentDecision::Fail(m)
    }
}

/// The message when the agent ran out of rounds.
pub open spec fn exhausted_text(agent: Seq<char>, max_iterations: u32) -> Seq<char> {
    agent + " exceeded maximum iterations ("@ + decimal(max_iterations as nat) + ")"@
}

/// The message when an agent ran out of rounds (`agent` is "Agent" or
/// "Gemini agent").
pub fn exhausted_message(agent: &str, max_iterations: u32) -> (r: String)
    ensures
        r@ == exhausted_text(agent@, max_iterations),
{
    let mut r = String::new();
    push_str(&mut r, agent);
    push_str(&mut r, " exceeded maximum iterations (");
    push_decimal(&mut r, max_iterations as u64);
    push_str(&mut r, ")");
    r
}

// ───────────── Tool results ─────────────

/// The result sent back for one tool call: its text, and whether it
/// reports an error.
#[derive(Debug)]
pub struct ToolReply {
    pub content: String,
    pub is_error: bool,
}

/// The reply for a tool call that could not be parsed.
pub open spec fn parse_failure_text(e: ToolCallError) -> Seq<char> {
    "Error parsing tool call: "@ + tool_error_text(e)
}

/// The reply for a tool call that could not be understood.
pub fn parse_failure_reply(e: &ToolCallError) -> (r: ToolReply)
    ensures
        r.content@ == parse_failure_text(*e),
        r.is_error,
{
    let mut c = String::new();
    push_str(&mut c, "Error parsing tool call: ");
    let m = e.message();
    push_str(&mut c, m.as_str());
    ToolReply { content: c, is_error: true }
}

/// The reply for a tool that ran: its output, or its error message.
pub open spec fn execution_text(outcome: Result<Seq<char>, Seq<char>>) -> (Seq<char>, bool) {
    match outcome {
        Ok(out) => (out, false),
        Err(e) => ("Error executing tool: "@ + e, true),
    }
}

/// The reply for a tool that ran, given its output or error message.
pub fn execution_reply(outcome: Result<String, String>) -> (r: ToolReply)
    ensures
        (r.content@, r.is_error) == execution_text(
            match outcome { Ok(o) => Ok(o@), Err(e) => Err(e@) },
        ),
{
    match outcome {
        Ok(out) => ToolReply { content: out, is_error: false },
        Err(e) => {
            let mut c = String::new();
            push_str(&mut c, "Error executing tool: ");
            push_str(&mut c, e.as_str());
            ToolReply { content: c, is_error: true }
        },
    }
}

// ───────────── Gemini replies ─────────────

/// A part of a Gemini reply: its text and its function call (name and
/// arguments), as far as the decisions read them.
#[derive(Debug)]
pub struct GeminiPart {
    pub text: Option<String>,
    pub function_call: Option<(String, JsonDoc)>,
}

/// The texts of the parts, concatenated.
pub open spec fn parts_text(parts: Seq<GeminiPart>) -> Seq<char>
    decreases parts.len(),
{
    if parts.len() == 0 {
        Seq::empty()
    } else {
        parts_text(parts.drop_last()) + text_or(parts.last().text, Seq::empty())
    }
}

/// The positions of the parts holding a function call, in order.
pub open spec fn call_positions(parts: Seq<GeminiPart>) -> Seq<usize>
    decreases parts.len(),
{
    if parts.len() == 0 {
        Seq::empty()
    } else if parts.last().function_call is Some {
        call_positions(parts.drop_last()).push((parts.len() - 1) as usize)
    } else {
        call_positions(parts.drop_last())
    }
}

/// Extract all text from response parts.
pub fn extract_parts_text(parts: &Vec<GeminiPart>) -> (r: String)
    ensures
        r@ == parts_text(parts@),
{
    proof {
        reveal_strlit("");
    }
    assert(""@ =~= Seq::<char>::empty());
    let mut r = String::new();
    for i in 0..parts.len()
        invariant
            r@ == parts_text(parts@.take(i as int)),
            ""@ == Seq::<char>::empty(),
    {
        assert(parts@.take(i + 1).drop_last() =~= parts@.take(i as int));
        assert(parts@.take(i + 1).last() == parts@[i as int]);
        push_str(&mut r, crate::text::str_or(&parts[i].text, ""));
    }
    assert(parts@.take(parts.len() as int) =~= parts@);
    r
}

/// What the Gemini agent does with a reply: with no function call it
/// answers with the reply's text, whatever the finish reason; else it runs
/// the calls at the returned positions, in order.
pub fn gemini_decision(parts: &Vec<GeminiPart>) -> (d: AgentDecision)
    ensures
        decision_view(d) == if call_positions(parts@).len() == 0 {
            (0int, parts_text(parts@), Seq::<usize>::empty())
        } else {
            (2int, Seq::<char>::empty(), call_positions(parts@))
        },
{
    let mut v: Vec<usize> = Vec::new();
    for i in 0..parts.len()
        invariant
            v@ == call_positions(parts@.take(i as int)),
    {
        assert(parts@.take(i + 1).drop_last() =~= parts@.take(i as int));
        assert(parts@.take(i + 1).last() == parts@[i as int]);
        if parts[i].function_call.is_some() {
            v.push(i);
        }
    }
    assert(parts@.take(parts.len() as int) =~= parts@);
    if v.len() == 0 {
        AgentDecision::Answer(extract_parts_text(parts))
    } else {
        AgentDecision::UseTools(v)
    }
}

/// The query of a web search call: its "query" argument when it is a
/// string, else empty.
pub open spec fn search_query_text(args: JsonDocView) -> Seq<char> {
    match item_text(doc_member(args, "query"@)) {
        Some(q) => q,
        None => Seq::empty(),
    }
}

/// The query of a web search call.
pub fn search_query(args: &JsonDoc) -> (q: String)
    ensures
        q@ == search_query_text(args@),
{
    match args.get_str("query") {
        Some(q) => String::from_str(q),
        None => String::new(),
    }
}

// ───────────── Gemini requests ─────────────

/// The address of the Gemini model's generate call for an API key.
pub open spec fn gemini_url_text(api_key: Seq<char>) -> Seq<char> {
    "https://generativelanguage.googleapis.com/v1beta/models/gemini-2.5-flash:generateContent?key="@ + api_key
}

/// The address of the Gemini model's generate call for an API key.
pub fn gemini_api_url(api_key: &str) -> (r: String)
    ensures
        r@ == gemini_url_text(api_key@),
{
    let mut r = String::new();
    push_str(
        &mut r,
        "https://generativelanguage.googleapis.com/v1beta/models/gemini-2.5-flash:generateContent?key=",
    );
    push_str(&mut r, api_key);
    r
}

/// The texts concatenated.
pub open spec fn concat_texts(texts: Seq<Seq<char>>) -> Seq<char>
    decreases texts.len(),
{
    if texts.len() == 0 {
        Seq::empty()
    } else {
        concat_texts(texts.drop_last()) + texts.last()
    }
}

/// A trade review from Gemini: the texts of all parts of all candidates,
/// concatenated; an error when that is empty.
pub fn gemini_trade_reply(texts: &Vec<String>) -> (r: Result<String, String>)
    ensures
        match r {
            Ok(t) => t@ == concat_texts(crate::text::views(texts@)) && t@.len() > 0,
            Err(e) => concat_texts(crate::text::views(texts@)).len() == 0 && e@ == "Gemini returned empty response"@,
        },
{
    let mut t = String::new();
    for i in 0..texts.len()
        invariant
            t@ == concat_texts(crate::text::views(texts@.take(i as int))),
    {
        assert(crate::text::views(texts@.take(i + 1)).drop_last() =~= crate::text::views(texts@.take(i as int)));
        push_str(&mut t, texts[i].as_str());
    }
    assert(texts@.take(texts.len() as int) =~= texts@);
    if t.unicode_len() == 0 {
        Err(String::from_str("Gemini returned empty response"))
    } else {
        Ok(t)
    }
}

// ───────────── Retrying requests ─────────────

/// The waits, in seconds, before the first and the three retried
/// attempts of a request.
pub open spec fn retry_delay_spec(attempt: nat) -> Option<u64> {
    if attempt == 0 {
        Some(0)
    } else if attempt == 1 {
        Some(1)
    } else if attempt == 2 {
        Some(2)
    } else if attempt == 3 {
        Some(4)
    } else {
        None
    }
}

/// A failed HTTP status worth retrying: rate limiting or a server error.
pub open spec fn retryable_status(code: u16) -> bool {
    code == 429 || code >= 500
}

/// The attempts of one request to a model service.
pub struct RetryLoop {
    attempt: usize,
    last_error: Option<String>,
}

impl RetryLoop {
    /// How many attempts were made.
    pub closed spec fn attempts(&self) -> nat {
        self.attempt as nat
    }

    /// The message of the last retryable failure.
    pub closed spec fn last_failure(&self) -> Option<Seq<char>> {
        match self.last_error {
            Some(e) => Some(e@),
            None => None,
        }
    }

    /// No attempt made yet.
    pub fn new() -> (r: Self)
        ensures
            r.attempts() == 0,
            r.last_failure() is None,
    {
        RetryLoop { attempt: 0, last_error: None }
    }

    /// The wait before the next attempt, `None` once four attempts were
    /// made.
    pub fn next_delay(&self) -> (d: Option<u64>)
        ensures
            d == retry_delay_spec(self.attempts()),
    {
        if self.attempt == 0 {
            Some(0)
        } else if self.attempt == 1 {
            Some(1)
        } else if self.attempt == 2 {
            Some(2)
        } else if self.attempt == 3 {
            Some(4)
        } else {
            None
        }
    }

    /// Record a failed attempt that got HTTP status `code` with `body`:
    /// a retryable status is kept as the last failure ("HTTP code: body")
    /// and `None` is returned; any other status ends the request with
    /// "`service` API error code: body".
    pub fn record_status(&mut self, service: &str, code: u16, body: &str) -> (fatal: Option<String>)
        requires
            old(self).attempts() < 4,
        ensures
            final(self).attempts() == old(self).attempts() + 1,
            retryable_status(code) ==> {
                &&& fatal is None
                &&& final(self).last_failure() == Some("HTTP "@ + decimal(code as nat) + ": "@ + body@)
            },
            !retryable_status(code) ==> {
                &&& fatal matches Some(m) && m@ == service@ + " API error "@ + decimal(code as nat) + ": "@ + body@
                &&& final(self).last_failure() == old(self).last_failure()
            },
    {
        self.attempt = self.attempt + 1;
        if code == 429 || code >= 500 {
            let mut e = String::new();
            push_str(&mut e, "HTTP ");
            push_decimal(&mut e, code as u64);
            push_str(&mut e, ": ");
            push_str(&mut e, body);
            self.last_error = Some(e);
            None
        } else {
            let mut m = String::new();
            push_str(&mut m, service);
            push_str(&mut m, " API error ");
            push_decimal(&mut m, code as u64);
            push_str(&mut m, ": ");
            push_str(&mut m, body);
            Some(m)
        }
    }

    /// Record an attempt that failed before any status came back.
    pub fn record_transport_error(&mut self, message: String)
        requires
            old(self).attempts() < 4,
        ensures
            final(self).attempts() == old(self).attempts() + 1,
            final(self).last_failure() == Some(message@),
    {
        self.attempt = self.attempt + 1;
        self.last_error = Some(message);
    }

    /// The error once every attempt failed: the last failure, or
    /// "`service` API failed after retries" when there was none.
    pub fn give_up_message(&self, service: &str) -> (m: String)
        ensures
            m@ == match self.last_failure() {
                Some(e) => e,
                None => service@ + " API failed after retries"@,
            },
    {
        match &self.last_error {
            Some(e) => e.clone(),
            None => {
                let mut m = String::new();
                push_str(&mut m, service);
                push_str(&mut m, " API failed after retries");
                m
            },
        }
    }
}

} // verus!
