//! What the library reads from the replies of an OpenAI-compatible chat API, and how
//! it addresses and retries that API.
use crate::json::JsonValue;
use crate::text::{byte_count, prefix};
use crate::tools::{str_or, u64_or};
use crate::types::{ToolCall, ToolCallFunction};
use vstd::prelude::*;

verus! {

/// What a chat call returned: its text, its tool calls, and the tokens it used.
#[derive(Debug)]
pub struct ChatResponse {
    pub content: Option<String>,
    pub tool_calls: Option<Vec<ToolCall>>,
    pub tokens: u32,
}

/// `v.as_i64().unwrap_or(d)`.
pub open spec fn i64_or(v: JsonValue, d: i64) -> i64 {
    match v.i64_of() {
        Some(n) => n,
        None => d,
    }
}

/// A token count as the reply states it: the larger of its `u64` reading and its
/// non-negative `i64` reading (0 where it has neither).
pub open spec fn count_field(v: JsonValue) -> u64 {
    let a = u64_or(v, 0);
    let b = if i64_or(v, 0) > 0 {
        i64_or(v, 0) as u64
    } else {
        0u64
    };
    if a >= b {
        a
    } else {
        b
    }
}

/// The token usage of a reply: `usage.total_tokens` where it is a number; else the
/// sum of prompt and completion tokens where positive; else half the length in bytes
/// of the first choice's text; else 0. Counts are cut to 32 bits as `as u32` does.
pub open spec fn reply_tokens(json: JsonValue) -> u32 {
    let usage = json.at("usage"@);
    let total = usage.at("total_tokens"@);
    if total.u64_of() is Some {
        total.u64_of()->0 as u32
    } else if total.i64_of() is Some {
        if total.i64_of()->0 > 0 {
            total.i64_of()->0 as u32
        } else {
            0
        }
    } else {
        let sum = count_field(usage.at("prompt_tokens"@)) + count_field(usage.at("completion_tokens"@));
        if sum > 0 {
            sum as u32
        } else {
            let len = byte_count(str_or(json.at("choices"@).nth(0).at("message"@).at("content"@), ""@)) as u32;
            if len > 0 {
                (len / 2) as u32
            } else {
                0
            }
        }
    }
}

/// Whether the prompt and completion counts of a reply can be added in 64 bits.
pub open spec fn usage_sum_fits(json: JsonValue) -> bool {
    let usage = json.at("usage"@);
    count_field(usage.at("prompt_tokens"@)) + count_field(usage.at("completion_tokens"@)) <= u64::MAX
}

/// `count_field` of a reply field.
fn count_of(v: &JsonValue) -> (res: u64)
    ensures
        res == count_field(*v),
{
    let a = match v.as_u64() {
        Some(n) => n,
        None => 0,
    };
    let i = match v.as_i64() {
        Some(n) => n,
        None => 0,
    };
    let b: u64 = if i > 0 {
        i as u64
    } else {
        0
    };
    if a >= b {
        a
    } else {
        b
    }
}

/// Whether the prompt and completion counts of a reply can be added in 64 bits (the
/// condition under which its tokens can be read).
pub fn usage_fits(json: &JsonValue) -> (res: bool)
    ensures
        res == usage_sum_fits(*json),
{
    let usage = json.get("usage");
    let prompt = count_of(usage.get("prompt_tokens"));
    let completion = count_of(usage.get("completion_tokens"));
    prompt <= u64::MAX - completion
}

/// The tokens that a reply used.
pub fn extract_tokens(json: &JsonValue) -> (res: u32)
    requires
        usage_sum_fits(*json),
    ensures
        res == reply_tokens(*json),
{
    let usage = json.get("usage");
    let total = usage.get("total_tokens");
    if let Some(n) = total.as_u64() {
        return n as u32;
    }
    if let Some(n) = total.as_i64() {
        return if n > 0 {
            n as u32
        } else {
            0
        };
    }
    let prompt = count_of(usage.get("prompt_tokens"));
    let completion = count_of(usage.get("completion_tokens"));
    if prompt + completion > 0 {
        return (prompt + completion) as u32;
    }
    let content = match json.get("choices").index(0).get("message").get("content").as_str() {
        Some(s) => s,
        None => "",
    };
    let len = content.len() as u32;
    if len > 0 {
        return len / 2;
    }
    0
}

/// Whether `c` is the tool call that the reply element `tc` describes: `id` and
/// `function.name` as given, `type` by default "function", `function.arguments` by
/// default "{}".
pub open spec fn call_from_json(c: ToolCall, tc: JsonValue) -> bool {
    &&& tc.at("id"@).str_of() == Some(c.id@)
    &&& c.call_type@ == str_or(tc.at("type"@), "function"@)
    &&& tc.at("function"@).at("name"@).str_of() == Some(c.function.name@)
    &&& c.function.arguments@ == str_or(tc.at("function"@).at("arguments"@), "{}"@)
}

/// Whether a reply element describes a usable tool call (it has an id and a name).
pub open spec fn call_readable(tc: JsonValue) -> bool {
    tc.at("id"@).str_of() is Some && tc.at("function"@).at("name"@).str_of() is Some
}

/// The tool calls of a reply's choice: `None` where `message.tool_calls` is not an
/// array, is empty, or has an element without id or name; else one call per element.
pub open spec fn tool_calls_ok(res: Option<Vec<ToolCall>>, choice: JsonValue) -> bool {
    match choice.at("message"@).at("tool_calls"@).array_of() {
        None => res is None,
        Some(a) => if a.len() == 0 || exists|i: int| 0 <= i < a.len() && !call_readable(#[trigger] a[i]) {
            res is None
        } else {
            res matches Some(v) && v@.len() == a.len() && forall|i: int|
                0 <= i < a.len() ==> call_from_json(#[trigger] v@[i], a[i])
        },
    }
}

/// The tool calls of a reply's choice.
pub fn extract_tool_calls(choice: &JsonValue) -> (res: Option<Vec<ToolCall>>)
    ensures
        tool_calls_ok(res, *choice),
{
    let calls = match choice.get("message").get("tool_calls").as_array() {
        Some(a) => a,
        None => return None,
    };
    if calls.len() == 0 {
        return None;
    }
    let mut result: Vec<ToolCall> = Vec::new();
    let mut i: usize = 0;
    while i < calls.len()
        invariant
            i <= calls@.len(),
            calls@.len() > 0,
            choice.at("message"@).at("tool_calls"@).array_of() == Some(calls@),
            result@.len() == i,
            forall|k: int| 0 <= k < i ==> call_readable(calls@[k]),
            forall|k: int| 0 <= k < i ==> call_from_json(#[trigger] result@[k], calls@[k]),
        decreases calls.len() - i,
    {
        let tc = &calls[i];
        let id = match tc.get("id").as_str() {
            Some(s) => crate::text::owned(s),
            None => {
                assert(!call_readable(calls@[i as int]));
                return None;
            },
        };
        let call_type = match tc.get("type").as_str() {
            Some(s) => crate::text::owned(s),
            None => crate::text::owned("function"),
        };
        let name = match tc.get("function").get("name").as_str() {
            Some(s) => crate::text::owned(s),
            None => {
                assert(!call_readable(calls@[i as int]));
                return None;
            },
        };
        let arguments = match tc.get("function").get("arguments").as_str() {
            Some(s) => crate::text::owned(s),
            None => crate::text::owned("{}"),
        };
        result.push(ToolCall { id, call_type, function: ToolCallFunction { name, arguments } });
        i = i + 1;
    }
    Some(result)
}

/// The reply of a tool-calling chat: the first choice's text and tool calls, and the
/// tokens used.
pub fn parse_tool_reply(json: &JsonValue) -> (res: ChatResponse)
    requires
        usage_sum_fits(*json),
    ensures
        match json.at("choices"@).nth(0).at("message"@).at("content"@).str_of() {
            Some(t) => res.content matches Some(c) && c@ == t,
            None => res.content is None,
        },
        tool_calls_ok(res.tool_calls, json.at("choices"@).nth(0)),
        res.tokens == reply_tokens(*json),
{
    let choice = json.get("choices").index(0);
    let content = match choice.get("message").get("content").as_str() {
        Some(s) => Some(crate::text::owned(s)),
        None => None,
    };
    let tool_calls = extract_tool_calls(choice);
    let tokens = extract_tokens(json);
    ChatResponse { content, tool_calls, tokens }
}

/// The reply of a plain chat: the first choice's text, required, and the tokens used;
/// `Err` with "Missing content in LLM response" where the reply has no text.
pub fn parse_text_reply(json: &JsonValue) -> (res: Result<ChatResponse, String>)
    requires
        usage_sum_fits(*json),
    ensures
        match json.at("choices"@).nth(0).at("message"@).at("content"@).str_of() {
            Some(t) => res matches Ok(r) && r.content matches Some(c) && c@ == t && r.tool_calls is None
                && r.tokens == reply_tokens(*json),
            None => res matches Err(e) && e@ == "Missing content in LLM response"@,
        },
{
    let content = match json.get("choices").index(0).get("message").get("content").as_str() {
        Some(s) => crate::text::owned(s),
        None => return Err(crate::text::owned("Missing content in LLM response")),
    };
    let tokens = extract_tokens(json);
    Ok(ChatResponse { content: Some(content), tool_calls: None, tokens })
}

/// `s` without its trailing '/' characters.
pub open spec fn trim_slashes(s: Seq<char>) -> Seq<char>
    decreases s.len(),
{
    if s.len() > 0 && s.last() == '/' {
        trim_slashes(s.drop_last())
    } else {
        s
    }
}

/// The chat completions endpoint under a base URL.
pub fn completions_url(base_url: &str) -> (res: String)
    ensures
        res@ == trim_slashes(base_url@) + "/v1/chat/completions"@,
{
    let cs = crate::text::chars_of(base_url);
    let mut end: usize = cs.len();
    assert(cs@.take(end as int) =~= cs@);
    while end > 0 && cs[end - 1] == '/'
        invariant
            end <= cs@.len(),
            cs@ == base_url@,
            trim_slashes(cs@.take(end as int)) == trim_slashes(base_url@),
        decreases end,
    {
        assert(cs@.take(end as int).drop_last() =~= cs@.take(end - 1));
        end = end - 1;
    }
    let mut kept: Vec<char> = Vec::new();
    let mut i: usize = 0;
    while i < end
        invariant
            i <= end <= cs@.len(),
            kept@ == cs@.take(i as int),
        decreases end - i,
    {
        kept.push(cs[i]);
        i = i + 1;
        assert(kept@ =~= cs@.take(i as int));
    }
    let mut s = crate::text::string_from_chars(&kept);
    s.append("/v1/chat/completions");
    s
}

/// What to do with an HTTP status of a chat call.
#[derive(Debug, PartialEq, Eq)]
pub enum StatusOutcome {
    /// A 2xx status: read the reply.
    Success,
    /// A 4xx status other than 429: fail at once.
    Fail,
    /// Any other status: try again.
    Retry,
}

/// How a tool-calling chat treats an HTTP status: success on 2xx, failure on a client
/// error other than 429 (too many requests), another attempt otherwise.
pub fn status_outcome(code: u16) -> (res: StatusOutcome)
    ensures
        200 <= code < 300 ==> res == StatusOutcome::Success,
        400 <= code < 500 && code != 429 ==> res == StatusOutcome::Fail,
        !(200 <= code < 300) && !(400 <= code < 500 && code != 429) ==> res == StatusOutcome::Retry,
{
    if 200 <= code && code < 300 {
        StatusOutcome::Success
    } else if 400 <= code && code < 500 && code != 429 {
        StatusOutcome::Fail
    } else {
        StatusOutcome::Retry
    }
}

/// The number of attempts of a tool-calling chat.
pub const CHAT_ATTEMPTS: u32 = 3;

/// The pause before attempt `attempt` (counting from 0) of a tool-calling chat, in
/// milliseconds: none before the first, then 500 · 2^attempt.
pub fn retry_delay_ms(attempt: u32) -> (res: u64)
    requires
        attempt < CHAT_ATTEMPTS,
    ensures
        attempt == 0 ==> res == 0,
        attempt == 1 ==> res == 1000,
        attempt == 2 ==> res == 2000,
{
    if attempt == 0 {
        0
    } else {
        let a = attempt as u64;
        let factor: u64 = 1u64 << a;
        assert(a == 1 ==> (1u64 << a) == 2u64) by (bit_vector);
        assert(a == 2 ==> (1u64 << a) == 4u64) by (bit_vector);
        500 * factor
    }
}

// ── The attempts of a tool-calling chat ──

/// How one attempt of a tool-calling chat ended.
#[derive(Debug)]
pub enum AttemptOutcome {
    /// The request could not be sent; the transport's error.
    SendFailed(String),
    /// The server answered with a status other than 2xx: its code, the status as text
    /// (such as "404 Not Found"), and the body.
    HttpError { code: u16, status: String, body: String },
    /// The body was not JSON; the parse error.
    BadReply(String),
    /// The reply, read.
    Reply(ChatResponse),
}

/// What to do after an attempt.
#[derive(Debug)]
pub enum ChatStep {
    /// Wait this long, then attempt again.
    Retry { delay_ms: u64 },
    /// The call is over, with this outcome.
    Done(Result<ChatResponse, String>),
}

/// The attempts of a tool-calling chat so far: the number of the current attempt
/// (from 0) and the error of the last failed one.
#[derive(Debug)]
pub struct ChatAttempts {
    pub attempt: u32,
    pub last_error: Option<String>,
}

/// The error that an attempt's failure reports.
pub open spec fn attempt_error(o: AttemptOutcome) -> Seq<char> {
    match o {
        AttemptOutcome::SendFailed(e) => "HTTP request failed: "@ + e@,
        AttemptOutcome::HttpError { status, body, .. } => "LLM API error "@ + status@ + ": "@ + body@,
        AttemptOutcome::BadReply(e) => "Failed to parse JSON response: "@ + e@,
        AttemptOutcome::Reply(_) => seq![],
    }
}

/// Whether an attempt's failure ends the call at once: a client error (4xx) other
/// than 429.
pub open spec fn fails_at_once(o: AttemptOutcome) -> bool {
    o matches AttemptOutcome::HttpError { code, .. } && 400 <= code < 500 && code != 429
}

/// The pause before attempt `attempt` (from 1): 500 · 2^attempt milliseconds.
pub open spec fn pause_before(attempt: u32) -> u64 {
    if attempt == 1 {
        1000
    } else {
        2000
    }
}

impl ChatAttempts {
    /// The state before the first attempt.
    pub fn new() -> (res: Self)
        ensures
            res.attempt == 0,
            res.last_error is None,
    {
        ChatAttempts { attempt: 0, last_error: None }
    }

    /// Takes the outcome of the current attempt: a reply ends the call; a client error
    /// other than 429 ends it with that error; any other failure is remembered and,
    /// before the third attempt, retried after a pause of 1 s then 2 s; after the
    /// third, the call ends with the last error.
    pub fn next(&mut self, outcome: AttemptOutcome) -> (step: ChatStep)
        requires
            old(self).attempt < CHAT_ATTEMPTS,
            outcome matches AttemptOutcome::HttpError { code, .. } ==> !(200 <= code < 300),
        ensures
            match outcome {
                AttemptOutcome::Reply(r) => step == ChatStep::Done(Ok(r)) && *final(self) == *old(self),
                _ => if fails_at_once(outcome) {
                    step matches ChatStep::Done(Err(e)) && e@ == attempt_error(outcome) && *final(self) == *old(self)
                } else {
                    &&& final(self).last_error matches Some(e) && e@ == attempt_error(outcome)
                    &&& if old(self).attempt + 1 < CHAT_ATTEMPTS {
                        &&& final(self).attempt == old(self).attempt + 1
                        &&& step == ChatStep::Retry { delay_ms: pause_before((old(self).attempt + 1) as u32) }
                    } else {
                        &&& final(self).attempt == old(self).attempt
                        &&& step matches ChatStep::Done(Err(e)) && e@ == attempt_error(outcome)
                    }
                },
            },
    {
        let error = match outcome {
            AttemptOutcome::Reply(r) => return ChatStep::Done(Ok(r)),
            AttemptOutcome::SendFailed(e) => {
                let mut m = crate::text::owned("HTTP request failed: ");
                m.append(e.as_str());
                m
            },
            AttemptOutcome::HttpError { code, status, body } => {
                let mut m = crate::text::owned("LLM API error ");
                m.append(status.as_str());
                m.append(": ");
                m.append(body.as_str());
                match status_outcome(code) {
                    StatusOutcome::Fail => return ChatStep::Done(Err(m)),
                    _ => {},
                }
                m
            },
            AttemptOutcome::BadReply(e) => {
                let mut m = crate::text::owned("Failed to parse JSON response: ");
                m.append(e.as_str());
                m
            },
        };
        if self.attempt + 1 < CHAT_ATTEMPTS {
            self.attempt = self.attempt + 1;
            self.last_error = Some(error);
            ChatStep::Retry { delay_ms: retry_delay_ms(self.attempt) }
        } else {
            let e = error.clone();
            self.last_error = Some(error);
            ChatStep::Done(Err(e))
        }
    }
}

/// Whether the model backend must be made anew for a profile: there is none yet, or
/// it was made with another API key.
pub fn backend_stale(current_api_key: Option<&str>, profile: &crate::config::LlmProfile) -> (res: bool)
    ensures
        res == match current_api_key {
            Some(k) => k@ != profile.api_key@,
            None => true,
        },
{
    match current_api_key {
        Some(k) => !crate::text::str_eq(k, profile.api_key.as_str()),
        None => true,
    }
}

} // verus!
