use vstd::prelude::*;
use vstd::string::StringExecFns;

use crate::errors::TranslateError;
use crate::prompt::spec_build_prompt;
use crate::prompt::build_prompt;
use crate::prompt::extract_translation;
use crate::prompt::spec_extract;
use crate::text::chars_to_string;
use crate::text::is_blank;
use crate::text::spec_trim;
use crate::text::str_chars;
use crate::Config;

verus! {

// The translation client's decidable half: it prepares the exact JSON request
// for the chat-completion endpoint and classifies whatever came back. The
// HTTP exchange itself is outside work; callers perform it and hand the
// status and body text to `resolve_exchange`.

/// One entry of the model-listing endpoint's answer.
#[derive(Clone, Debug, PartialEq, Eq)]
pub struct ModelInfo {
    pub id: String,
    pub name: String,
}

/// What an attempted HTTP exchange produced: nothing (the send or the body
/// read failed), or a status code with the body text.
#[derive(Debug)]
pub enum HttpOutcome {
    TransportFailed,
    Response { status: u16, body: String },
}

/// The chat-completion endpoint.
pub fn chat_completions_url() -> (r: &'static str)
    ensures
        r@ == "https://openrouter.ai/api/v1/chat/completions"@,
{
    "https://openrouter.ai/api/v1/chat/completions"
}

/// The model-listing endpoint.
pub fn models_url() -> (r: &'static str)
    ensures
        r@ == "https://openrouter.ai/api/v1/models"@,
{
    "https://openrouter.ai/api/v1/models"
}

/// A character made safe for a log line: line breaks become spaces.
pub open spec fn clean_char(c: char) -> char {
    if c == '\n' || c == '\r' {
        ' '
    } else {
        c
    }
}

/// A length-bounded, line-break-free preview of `s`: the first `limit`
/// cleaned characters, with a trailing ellipsis when anything was cut.
pub open spec fn spec_preview(s: Seq<char>, limit: int) -> Seq<char> {
    let cleaned = s.map_values(|c: char| clean_char(c));
    if s.len() <= limit {
        cleaned
    } else {
        cleaned.subrange(0, limit) + "..."@
    }
}

/// Bounded preview of a string for diagnostics.
pub fn preview(input: &str, limit: usize) -> (r: String)
    ensures
        r@ == spec_preview(input@, limit as int),
{
    let v = str_chars(input);
    let n = v.len();
    let m = if n <= limit {
        n
    } else {
        limit
    };
    let ghost cleaned = v@.map_values(|c: char| clean_char(c));
    let mut out: Vec<char> = Vec::new();
    let mut i: usize = 0;
    while i < m
        invariant
            i <= m,
            m <= n,
            n == v@.len(),
            cleaned == v@.map_values(|c: char| clean_char(c)),
            out@ == cleaned.subrange(0, i as int),
        decreases m - i,
    {
        let c = v[i];
        if c == '\n' || c == '\r' {
            out.push(' ');
        } else {
            out.push(c);
        }
        i = i + 1;
        proof {
            assert(out@ =~= cleaned.subrange(0, i as int));
        }
    }
    if n > limit {
        out.push('.');
        out.push('.');
        out.push('.');
        proof {
            reveal_strlit("...");
            assert(out@ =~= cleaned.subrange(0, limit as int) + "..."@);
        }
    } else {
        proof {
            assert(cleaned.subrange(0, n as int) =~= cleaned);
        }
    }
    chars_to_string(&out)
}

pub open spec fn spec_hex_digit(n: int) -> char {
    if n < 10 {
        (48 + n) as char
    } else {
        (87 + n) as char
    }
}

/// How one character appears inside a JSON string literal.
pub open spec fn spec_escape_char(c: char) -> Seq<char> {
    if c == '"' {
        seq!['\\', '"']
    } else if c == '\\' {
        seq!['\\', '\\']
    } else if c == '\n' {
        seq!['\\', 'n']
    } else if c == '\r' {
        seq!['\\', 'r']
    } else if c == '\t' {
        seq!['\\', 't']
    } else if (c as u32) < 32 {
        seq![
            '\\',
            'u',
            '0',
            '0',
            spec_hex_digit((c as u32 / 16) as int),
            spec_hex_digit((c as u32 % 16) as int),
        ]
    } else {
        seq![c]
    }
}

/// The body of a JSON string literal holding exactly the characters of `s`.
pub open spec fn spec_json_escape(s: Seq<char>) -> Seq<char>
    decreases s.len(),
{
    if s.len() == 0 {
        Seq::empty()
    } else {
        spec_escape_char(s[0]) + spec_json_escape(s.subrange(1, s.len() as int))
    }
}

fn hex_digit(n: u32) -> (r: char)
    requires
        n < 16,
    ensures
        r == spec_hex_digit(n as int),
{
    if n < 10 {
        ((48 + n) as u8) as char
    } else {
        ((87 + n) as u8) as char
    }
}

fn push_escaped(out: &mut Vec<char>, c: char)
    ensures
        final(out)@ == old(out)@ + spec_escape_char(c),
{
    if c == '"' {
        out.push('\\');
        out.push('"');
    } else if c == '\\' {
        out.push('\\');
        out.push('\\');
    } else if c == '\n' {
        out.push('\\');
        out.push('n');
    } else if c == '\r' {
        out.push('\\');
        out.push('r');
    } else if c == '\t' {
        out.push('\\');
        out.push('t');
    } else if (c as u32) < 32 {
        let n = c as u32;
        out.push('\\');
        out.push('u');
        out.push('0');
        out.push('0');
        out.push(hex_digit(n / 16));
        out.push(hex_digit(n % 16));
    } else {
        out.push(c);
    }
    proof {
        assert(out@ =~= old(out)@ + spec_escape_char(c));
    }
}

/// Escape a string for inclusion in a JSON string literal.
pub fn json_escape(s: &str) -> (r: String)
    ensures
        r@ == spec_json_escape(s@),
{
    let v = str_chars(s);
    let n = v.len();
    let mut out: Vec<char> = Vec::new();
    let mut i: usize = 0;
    proof {
        assert(v@.subrange(0, n as int) =~= v@);
    }
    while i < n
        invariant
            i <= n,
            n == v@.len(),
            spec_json_escape(v@) == out@ + spec_json_escape(v@.subrange(i as int, n as int)),
        decreases n - i,
    {
        let ghost rem = v@.subrange(i as int, n as int);
        proof {
            assert(rem[0] == v@[i as int]);
            assert(rem.subrange(1, rem.len() as int) =~= v@.subrange(i + 1, n as int));
        }
        let ghost pre = out@;
        push_escaped(&mut out, v[i]);
        proof {
            assert(pre + (spec_escape_char(v@[i as int]) + spec_json_escape(
                v@.subrange(i + 1, n as int),
            )) =~= (pre + spec_escape_char(v@[i as int])) + spec_json_escape(
                v@.subrange(i + 1, n as int),
            ));
        }
        i = i + 1;
    }
    proof {
        assert(v@.subrange(n as int, n as int) =~= Seq::<char>::empty());
    }
    chars_to_string(&out)
}

/// The exact JSON body sent to the chat-completion endpoint: the model id,
/// one user message holding the prompt, and the reasoning toggle.
pub open spec fn spec_chat_request(model: Seq<char>, prompt: Seq<char>, reasoning: bool) -> Seq<
    char,
> {
    "{\"model\":\""@ + spec_json_escape(model)
        + "\",\"messages\":[{\"role\":\"user\",\"content\":\""@ + spec_json_escape(prompt)
        + "\"}],\"reasoning\":{\"enabled\":"@ + (if reasoning {
        "true"@
    } else {
        "false"@
    }) + "}}"@
}

/// Serialize the chat-completion request body.
pub fn build_chat_request(model: &str, prompt: &str, reasoning: bool) -> (r: String)
    ensures
        r@ == spec_chat_request(model@, prompt@, reasoning),
{
    let mut r = String::new();
    r.append("{\"model\":\"");
    r.append(json_escape(model).as_str());
    r.append("\",\"messages\":[{\"role\":\"user\",\"content\":\"");
    r.append(json_escape(prompt).as_str());
    r.append("\"}],\"reasoning\":{\"enabled\":");
    if reasoning {
        r.append("true");
    } else {
        r.append("false");
    }
    r.append("}}");
    r
}

/// Everything the caller needs to perform the remote call: the request body
/// and the bearer token, for the chat-completion endpoint.
#[derive(Debug)]
pub struct PreparedRequest {
    pub body: String,
    pub api_key: String,
}

/// Check the key, build the prompt and serialize the request. Fails exactly
/// when the API key is blank; no request may be issued then.
pub fn prepare_request(config: &Config, input: &str) -> (r: Result<PreparedRequest, TranslateError>)
    ensures
        spec_trim(config.api_key@).len() == 0 <==> (r matches Err(e) && e
            == TranslateError::AuthMissingKey),
        spec_trim(config.api_key@).len() > 0 ==> (r matches Ok(p) && p.body@ == spec_chat_request(
            config.model@,
            spec_build_prompt(input@, config.target_language@),
            config.reasoning_enabled,
        ) && p.api_key@ == config.api_key@),
{
    if is_blank(config.api_key.as_str()) {
        return Err(TranslateError::AuthMissingKey);
    }
    let prompt = build_prompt(input, config.target_language.as_str());
    let body = build_chat_request(config.model.as_str(), prompt.as_str(), config.reasoning_enabled);
    Ok(PreparedRequest { body, api_key: config.api_key.clone() })
}

/// The contents of the `choices` array of a chat-completion response body:
/// each choice's message content, or `None` when the body is not JSON of that
/// shape. A function of the body text alone.
pub uninterp spec fn spec_chat_choices(body: Seq<char>) -> Option<Seq<Seq<char>>>;

/// Relies on `serde_json::from_str::<Value>` and the `Value` accessors
/// `get`, `as_array` and `as_str`: parsing is deterministic in the body text,
/// yielding the content string of each choice, or nothing when the body is
/// not JSON carrying `choices[*].message` objects with string `role` and
/// `content` fields.
#[verifier::external_body]
fn parse_chat_choices(body: &str) -> (r: Option<Vec<String>>)
    ensures
        r.deep_view() == spec_chat_choices(body@),
{
    let v: serde_json::Value = serde_json::from_str(body).ok()?;
    let choices = v.get("choices")?.as_array()?;
    let mut out: Vec<String> = Vec::new();
    for c in choices {
        let msg = c.get("message")?;
        msg.get("role")?.as_str()?;
        out.push(msg.get("content")?.as_str()?.to_string());
    }
    Some(out)
}

/// Classify a chat-completion response: non-2xx status, malformed body, no
/// choices, missing markers, or the extracted translation.
pub fn handle_response(status: u16, body: &str) -> (r: Result<String, TranslateError>)
    ensures
        !(200 <= status < 300) ==> (r matches Err(e) && e matches
            TranslateError::RemoteStatusError { status: st, body_preview } && st == status
            && body_preview@ == spec_preview(body@, 400)),
        200 <= status < 300 ==> match spec_chat_choices(body@) {
            None => r matches Err(e) && e == TranslateError::ResponseParseError,
            Some(cs) => {
                if cs.len() == 0 {
                    r matches Err(e) && e == TranslateError::EmptyChoices
                } else {
                    match spec_extract(cs[0]) {
                        None => r matches Err(e) && e == TranslateError::MarkerExtractionFailed,
                        Some(t) => r matches Ok(s) && s@ == t,
                    }
                }
            },
        },
{
    if !(200 <= status && status < 300) {
        return Err(
            TranslateError::RemoteStatusError { status, body_preview: preview(body, 400) },
        );
    }
    match parse_chat_choices(body) {
        None => Err(TranslateError::ResponseParseError),
        Some(choices) => {
            proof {
                assert(spec_chat_choices(body@) matches Some(cs) && cs.len() == choices@.len());
            }
            if choices.len() == 0 {
                return Err(TranslateError::EmptyChoices);
            }
            let first = &choices[0];
            proof {
                assert(spec_chat_choices(body@)->Some_0[0] == choices@[0]@);
            }
            match extract_translation(first.as_str()) {
                None => Err(TranslateError::MarkerExtractionFailed),
                Some(t) => Ok(t),
            }
        },
    }
}

/// Fold a whole HTTP attempt into the run's result: a failed transport is a
/// network error; an answered request is classified by `handle_response`.
pub fn resolve_exchange(outcome: HttpOutcome) -> (r: Result<String, TranslateError>)
    ensures
        outcome matches HttpOutcome::TransportFailed ==> r matches Err(e) && e
            == TranslateError::NetworkError,
        outcome matches HttpOutcome::Response { status, body } ==> ({
            &&& !(200 <= status < 300) ==> (r matches Err(e) && e matches
                TranslateError::RemoteStatusError { status: st, body_preview } && st == status
                && body_preview@ == spec_preview(body@, 400))
            &&& 200 <= status < 300 ==> match spec_chat_choices(body@) {
                None => r matches Err(e) && e == TranslateError::ResponseParseError,
                Some(cs) => {
                    if cs.len() == 0 {
                        r matches Err(e) && e == TranslateError::EmptyChoices
                    } else {
                        match spec_extract(cs[0]) {
                            None => r matches Err(e) && e
                                == TranslateError::MarkerExtractionFailed,
                            Some(t) => r matches Ok(s) && s@ == t,
                        }
                    }
                },
            }
        }),
{
    match outcome {
        HttpOutcome::TransportFailed => Err(TranslateError::NetworkError),
        HttpOutcome::Response { status, body } => handle_response(status, body.as_str()),
    }
}

/// The entries of the model-listing response body: each model's id and name,
/// or `None` when the body is not JSON of that shape. A function of the body
/// text alone.
pub uninterp spec fn spec_models(body: Seq<char>) -> Option<Seq<(Seq<char>, Seq<char>)>>;

/// Relies on `serde_json::from_str::<Value>` and the `Value` accessors
/// `get`, `as_array` and `as_str`: parsing is deterministic in the body text,
/// yielding each entry's `id` and `name` strings from the top-level `data`
/// array, or nothing when the body is not JSON of that shape.
#[verifier::external_body]
fn parse_models_body(body: &str) -> (r: Option<Vec<(String, String)>>)
    ensures
        r.deep_view() == spec_models(body@),
{
    let v: serde_json::Value = serde_json::from_str(body).ok()?;
    let data = v.get("data")?.as_array()?;
    let mut out: Vec<(String, String)> = Vec::new();
    for m in data {
        out.push((m.get("id")?.as_str()?.to_string(), m.get("name")?.as_str()?.to_string()));
    }
    Some(out)
}

/// Classify a model-listing response exactly as `handle_response` does, but
/// yielding the model list.
pub fn handle_models_response(status: u16, body: &str) -> (r: Result<
    Vec<ModelInfo>,
    TranslateError,
>)
    ensures
        !(200 <= status < 300) ==> (r matches Err(e) && e matches
            TranslateError::RemoteStatusError { status: st, body_preview } && st == status
            && body_preview@ == spec_preview(body@, 400)),
        200 <= status < 300 ==> match spec_models(body@) {
            None => r matches Err(e) && e == TranslateError::ResponseParseError,
            Some(ms) => r matches Ok(v) && v@.len() == ms.len() && (forall|i: int|
                0 <= i < ms.len() ==> v@[i].id@ == ms[i].0 && v@[i].name@ == ms[i].1),
        },
{
    if !(200 <= status && status < 300) {
        return Err(
            TranslateError::RemoteStatusError { status, body_preview: preview(body, 400) },
        );
    }
    match parse_models_body(body) {
        None => Err(TranslateError::ResponseParseError),
        Some(pairs) => {
            let ghost ms = spec_models(body@)->Some_0;
            let n = pairs.len();
            let mut out: Vec<ModelInfo> = Vec::new();
            let mut i: usize = 0;
            proof {
                assert(ms.len() == pairs@.len());
            }
            while i < n
                invariant
                    i <= n,
                    n == pairs@.len(),
                    ms.len() == n,
                    forall|j: int| 0 <= j < n ==> ms[j] == (pairs@[j].0@, pairs@[j].1@),
                    out@.len() == i,
                    forall|j: int| 0 <= j < i ==> out@[j].id@ == ms[j].0 && out@[j].name@ == ms[j].1,
                decreases n - i,
            {
                let pair = &pairs[i];
                out.push(ModelInfo { id: pair.0.clone(), name: pair.1.clone() });
                i = i + 1;
            }
            Ok(out)
        },
    }
}

} // verus!
