//! The decisions of the LLM providers around their HTTP calls: endpoints,
//! credentials, how a response status is read, and how a response is turned
//! into text.

use vstd::prelude::*;
use crate::clock::{duration_from_secs, duration_micros, duration_of_secs};
use crate::text::{has_prefix, lemma_fields_nonempty, newline_fields, split_on, starts_with, text_lines};

verus! {

/// A failure of an LLM provider.
#[derive(Debug)]
pub enum LlmError {
    /// Missing or bad configuration.
    ConfigError(String),
    /// The API answered with an error.
    ApiError(String),
    /// A request or response could not be encoded or decoded.
    SerializationError(String),
    /// The API asked to slow down, maybe saying for how long.
    RateLimited(Option<std::time::Duration>),
}

// ---------------------------------------------------------------------------
// Bedrock
// ---------------------------------------------------------------------------

/// The Bedrock endpoint that runs `model_id` in `region`.
pub open spec fn bedrock_url(region: Seq<char>, model_id: Seq<char>) -> Seq<char> {
    "https://bedrock-runtime."@ + region + ".amazonaws.com/model/"@ + model_id + "/invoke"@
}

/// The Bedrock endpoint that runs `model_id` in `region`.
pub fn bedrock_endpoint_url(region: &str, model_id: &str) -> (r: String)
    ensures
        r@ == bedrock_url(region@, model_id@),
{
    String::from_str("https://bedrock-runtime.").concat(region).concat(".amazonaws.com/model/").concat(
        model_id,
    ).concat("/invoke")
}

/// The AWS credentials read from the environment; refused unless both the
/// key id and the secret are set.
pub fn bedrock_credentials_from_env(access_key_id: Option<String>, secret_access_key: Option<String>) -> (r: Result<(String, String), LlmError>)
    ensures
        match (access_key_id, secret_access_key) {
            (Some(a), Some(s)) => r matches Ok(p) && p.0@ == a@ && p.1@ == s@,
            _ => r matches Err(LlmError::ConfigError(m)) && m@
                == "AWS credentials not found in environment variables. Set AWS_ACCESS_KEY_ID and AWS_SECRET_ACCESS_KEY."@,
        },
{
    match (access_key_id, secret_access_key) {
        (Some(a), Some(s)) => Ok((a, s)),
        _ => Err(
            LlmError::ConfigError(
                String::from_str(
                    "AWS credentials not found in environment variables. Set AWS_ACCESS_KEY_ID and AWS_SECRET_ACCESS_KEY.",
                ),
            ),
        ),
    }
}

/// The credential a request uses: the one configured, else the one from the
/// environment; refused with `missing` when there is neither.
pub fn resolve_credential(configured: &Option<String>, from_env: Option<String>, missing: &str) -> (r: Result<String, LlmError>)
    ensures
        match (*configured, from_env) {
            (Some(c), _) => r matches Ok(v) && v@ == c@,
            (None, Some(e)) => r matches Ok(v) && v@ == e@,
            (None, None) => r matches Err(LlmError::ConfigError(m)) && m@ == missing@,
        },
{
    match configured {
        Some(c) => Ok(c.clone()),
        None => match from_env {
            Some(e) => Ok(e),
            None => Err(LlmError::ConfigError(missing.to_owned())),
        },
    }
}

/// The token budget of a Bedrock request: the one asked for, 4096 by default.
pub fn bedrock_max_tokens(requested: Option<u32>) -> (n: u32)
    ensures
        n == match requested {
            Some(m) => m,
            None => 4096,
        },
{
    match requested {
        Some(m) => m,
        None => 4096,
    }
}

/// A block of a Bedrock answer.
pub enum BedrockBlock {
    /// Text.
    Text(String),
    /// A tool call; `input` is its JSON arguments.
    ToolUse { id: String, name: String, input: String },
}

/// A tool call of an answer.
#[derive(Debug)]
pub struct ToolUse {
    pub id: String,
    pub name: String,
    pub input: String,
}

/// The text of an answer: its text blocks in order, a newline before each
/// one that follows text already gathered (an empty text gathered so far
/// takes no newline before the next).
pub open spec fn joined_text(blocks: Seq<BedrockBlock>) -> Seq<char>
    decreases blocks.len(),
{
    if blocks.len() == 0 {
        Seq::empty()
    } else {
        let acc = joined_text(blocks.drop_last());
        match blocks.last() {
            BedrockBlock::Text(t) => if acc.len() == 0 {
                t@
            } else {
                acc.push('\n') + t@
            },
            _ => acc,
        }
    }
}

/// The tool calls of an answer, in order: (id, name, input).
pub open spec fn tool_uses(blocks: Seq<BedrockBlock>) -> Seq<(Seq<char>, Seq<char>, Seq<char>)>
    decreases blocks.len(),
{
    if blocks.len() == 0 {
        Seq::empty()
    } else {
        let acc = tool_uses(blocks.drop_last());
        match blocks.last() {
            BedrockBlock::ToolUse { id, name, input } => acc.push((id@, name@, input@)),
            _ => acc,
        }
    }
}

/// Splits an answer into its text and its tool calls.
pub fn bedrock_answer(blocks: &Vec<BedrockBlock>) -> (r: (String, Vec<ToolUse>))
    ensures
        r.0@ == joined_text(blocks@),
        Seq::new(r.1@.len(), |i: int| (r.1@[i].id@, r.1@[i].name@, r.1@[i].input@)) == tool_uses(blocks@),
{
    let mut text = String::new();
    let mut calls: Vec<ToolUse> = Vec::new();
    let mut i: usize = 0;
    proof {
        assert(blocks@.take(0) =~= Seq::<BedrockBlock>::empty());
        assert(Seq::new(0, |k: int| (calls@[k].id@, calls@[k].name@, calls@[k].input@)) =~= Seq::<(Seq<char>, Seq<char>, Seq<char>)>::empty());
    }
    while i < blocks.len()
        invariant
            i <= blocks@.len(),
            text@ == joined_text(blocks@.take(i as int)),
            Seq::new(calls@.len(), |k: int| (calls@[k].id@, calls@[k].name@, calls@[k].input@)) == tool_uses(blocks@.take(i as int)),
        decreases blocks@.len() - i,
    {
        proof {
            assert(blocks@.take(i + 1).drop_last() =~= blocks@.take(i as int));
            assert(blocks@.take(i + 1).last() == blocks@[i as int]);
        }
        let ghost before = Seq::new(calls@.len(), |k: int| (calls@[k].id@, calls@[k].name@, calls@[k].input@));
        match &blocks[i] {
            BedrockBlock::Text(t) => {
                if text.unicode_len() == 0 {
                    text = t.clone();
                } else {
                    text = text.concat("\n").concat(t.as_str());
                    proof {
                        reveal_strlit("\n");
                    }
                }
            },
            BedrockBlock::ToolUse { id, name, input } => {
                calls.push(ToolUse { id: id.clone(), name: name.clone(), input: input.clone() });
                assert(Seq::new(calls@.len(), |k: int| (calls@[k].id@, calls@[k].name@, calls@[k].input@)) =~= before.push((id@, name@, input@)));
            },
        }
        i = i + 1;
    }
    proof {
        assert(blocks@.take(blocks@.len() as int) =~= blocks@);
    }
    (text, calls)
}

/// The token counts of an answer: prompt, completion, and their sum.
pub fn bedrock_usage(input_tokens: u32, output_tokens: u32) -> (r: (u32, u32, u32))
    requires
        input_tokens + output_tokens <= u32::MAX,
    ensures
        r == (input_tokens, output_tokens, (input_tokens + output_tokens) as u32),
{
    (input_tokens, output_tokens, input_tokens + output_tokens)
}

// ---------------------------------------------------------------------------
// Gemini
// ---------------------------------------------------------------------------

/// The default Gemini API base.
pub open spec fn gemini_base() -> Seq<char> {
    "https://generativelanguage.googleapis.com/v1beta"@
}

/// The model used for embeddings when none is named.
pub open spec fn gemini_embedding_model() -> Seq<char> {
    "text-embedding-004"@
}

/// The Gemini endpoint that generates content, streamed or not.
pub open spec fn gemini_url(base: Seq<char>, model: Seq<char>, key: Seq<char>, stream: bool) -> Seq<char> {
    if stream {
        base + "/models/"@ + model + ":streamGenerateContent?key="@ + key + "&alt=sse"@
    } else {
        base + "/models/"@ + model + ":generateContent?key="@ + key
    }
}

/// The Gemini endpoint that generates content, streamed or not.
pub fn gemini_generate_url(base: &str, model: &str, key: &str, stream: bool) -> (r: String)
    ensures
        r@ == gemini_url(base@, model@, key@, stream),
{
    let head = String::from_str(base).concat("/models/").concat(model);
    if stream {
        head.concat(":streamGenerateContent?key=").concat(key).concat("&alt=sse")
    } else {
        head.concat(":generateContent?key=").concat(key)
    }
}

/// `c` is an ASCII digit.
pub open spec fn is_digit(c: char) -> bool {
    '0' <= c && c <= '9'
}

/// The value of a string of ASCII digits.
pub open spec fn digits_value(s: Seq<char>) -> nat
    decreases s.len(),
{
    if s.len() == 0 {
        0
    } else {
        digits_value(s.drop_last()) * 10 + ((s.last() as u32) - ('0' as u32)) as nat
    }
}

/// What `u64::from_str` accepts: an optional `+`, then one or more ASCII
/// digits whose value fits in 64 bits.
pub open spec fn parse_u64_spec(s: Seq<char>) -> Option<u64> {
    let d = unsigned_part(s);
    if d.len() > 0 && all_digits(d) && digits_value(d) <= u64::MAX {
        Some(digits_value(d) as u64)
    } else {
        None
    }
}

/// `s` without a leading `+`.
pub open spec fn unsigned_part(s: Seq<char>) -> Seq<char> {
    if s.len() > 0 && s[0] == '+' {
        s.drop_first()
    } else {
        s
    }
}

/// Every character of `d` is an ASCII digit.
pub open spec fn all_digits(d: Seq<char>) -> bool {
    forall|i: int| 0 <= i < d.len() ==> is_digit(#[trigger] d[i])
}

/// Reads a decimal number of seconds (an optional `+`, then digits).
pub fn parse_u64(s: &str) -> (r: Option<u64>)
    ensures
        r == parse_u64_spec(s@),
{
    let n = s.unicode_len();
    let mut start: usize = 0;
    if n > 0 && s.get_char(0) == '+' {
        start = 1;
    }
    let ghost d = unsigned_part(s@);
    assert(d =~= s@.subrange(start as int, n as int));
    if start == n {
        return None;
    }
    let mut value: u64 = 0;
    let mut i: usize = start;
    assert(s@.subrange(start as int, start as int) =~= Seq::<char>::empty());
    while i < n
        invariant
            n == s@.len(),
            start < n,
            start <= i <= n,
            d == unsigned_part(s@),
            d == s@.subrange(start as int, n as int),
            forall|k: int| start <= k < i ==> is_digit(#[trigger] s@[k]),
            value == digits_value(s@.subrange(start as int, i as int)),
        decreases n - i,
    {
        let c = s.get_char(i);
        proof {
            assert(s@.subrange(start as int, i + 1).drop_last() =~= s@.subrange(start as int, i as int));
        }
        if !('0' <= c && c <= '9') {
            assert(d[i - start] == s@[i as int]);
            assert(!is_digit(d[i - start]));
            assert(!all_digits(d));
            return None;
        }
        let digit: u64 = ((c as u32) - ('0' as u32)) as u64;
        if value > (u64::MAX - digit) / 10 {
            proof {
                lemma_digits_grow(s@, start as int, i as int, n as int);
            }
            return None;
        }
        value = value * 10 + digit;
        i = i + 1;
    }
    assert forall|k: int| 0 <= k < d.len() implies is_digit(#[trigger] d[k]) by {
        assert(d[k] == s@[start + k]);
    }
    assert(s@.subrange(start as int, n as int) == d);
    Some(value)
}

proof fn lemma_digits_monotone(s: Seq<char>, a: int, b: int)
    requires
        0 <= a <= b <= s.len(),
        all_digits(s),
    ensures
        digits_value(s.subrange(0, a)) <= digits_value(s.subrange(0, b)),
    decreases b - a,
{
    if a < b {
        lemma_digits_monotone(s, a, b - 1);
        assert(s.subrange(0, b).drop_last() =~= s.subrange(0, b - 1));
    }
}

proof fn lemma_digits_grow(s: Seq<char>, start: int, i: int, n: int)
    requires
        0 <= start <= i < n == s.len(),
        digits_value(s.subrange(start, i)) > (u64::MAX - ((s[i] as u32) - ('0' as u32))) / 10,
        is_digit(s[i]),
    ensures
        ({
            let d = s.subrange(start, n);
            (forall|k: int| 0 <= k < d.len() ==> is_digit(#[trigger] d[k])) ==> digits_value(d) > u64::MAX
        }),
{
    let d = s.subrange(start, n);
    if all_digits(d) {
        let j = i - start;
        assert(d.subrange(0, j + 1).drop_last() =~= d.subrange(0, j));
        assert(d.subrange(0, j) =~= s.subrange(start, i));
        let v = digits_value(s.subrange(start, i));
        let dg = ((s[i] as u32) - ('0' as u32)) as nat;
        assert(digits_value(d.subrange(0, j + 1)) == v * 10 + dg);
        assert(v * 10 + dg > u64::MAX) by (nonlinear_arith)
            requires
                v > (u64::MAX - dg) / 10,
                dg <= 9,
        ;
        lemma_digits_monotone(d, j + 1, d.len() as int);
        assert(d.subrange(0, d.len() as int) =~= d);
    }
}

/// How a response status is read.
#[derive(Debug, PartialEq, Eq, Structural)]
pub enum StatusClass {
    /// 2xx: read the body.
    Success,
    /// 429: slow down, for the given number of seconds when the answer says.
    RateLimited(Option<u64>),
    /// Any other status: the request failed.
    Failure,
}

/// Reads a response status, with the `Retry-After` header when it is text.
pub fn classify_status(status: u16, retry_after: Option<&str>) -> (r: StatusClass)
    ensures
        status == 429 ==> r == StatusClass::RateLimited(match retry_after {
            Some(s) => parse_u64_spec(s@),
            None => None,
        }),
        status != 429 && 200 <= status <= 299 ==> r == StatusClass::Success,
        status != 429 && !(200 <= status <= 299) ==> r == StatusClass::Failure,
{
    if status == 429 {
        let secs = match retry_after {
            Some(s) => parse_u64(s),
            None => None,
        };
        StatusClass::RateLimited(secs)
    } else if 200 <= status && status <= 299 {
        StatusClass::Success
    } else {
        StatusClass::Failure
    }
}

/// The refusal for a 429 answer.
pub fn rate_limited_error(secs: Option<u64>) -> (e: LlmError)
    ensures
        e matches LlmError::RateLimited(d) && match (d, secs) {
            (Some(x), Some(s)) => x == duration_of_secs(s) && duration_micros(x) == s * 1_000_000,
            (None, None) => true,
            _ => false,
        },
{
    match secs {
        Some(s) => LlmError::RateLimited(Some(duration_from_secs(s))),
        None => LlmError::RateLimited(None),
    }
}

/// The text of a Gemini answer, given the texts of the parts of each
/// candidate: the first part of the first candidate; refused when there is
/// no candidate or the first has no part.
pub fn gemini_answer_text(candidates: &Vec<Vec<String>>) -> (r: Result<String, LlmError>)
    ensures
        candidates@.len() == 0 ==> (r matches Err(LlmError::ApiError(m)) && m@ == "No candidates in response"@),
        candidates@.len() > 0 && candidates@[0]@.len() == 0 ==> (r matches Err(LlmError::ApiError(m)) && m@
            == "No parts in content"@),
        candidates@.len() > 0 && candidates@[0]@.len() > 0 ==> (r matches Ok(t) && t@ == candidates@[0]@[0]@),
{
    if candidates.len() == 0 {
        return Err(LlmError::ApiError(String::from_str("No candidates in response")));
    }
    if candidates[0].len() == 0 {
        return Err(LlmError::ApiError(String::from_str("No parts in content")));
    }
    Ok(candidates[0][0].clone())
}

/// The payloads of the `data: ` lines of a chunk of an event stream, in
/// order.
pub open spec fn data_payloads(lines: Seq<Seq<char>>) -> Seq<Seq<char>>
    decreases lines.len(),
{
    if lines.len() == 0 {
        Seq::empty()
    } else {
        let acc = data_payloads(lines.drop_last());
        if has_prefix(lines.last(), "data: "@) {
            acc.push(lines.last().subrange(6, lines.last().len() as int))
        } else {
            acc
        }
    }
}

/// The payloads of the `data: ` lines of a chunk of a Gemini event stream,
/// in order (each still to be decoded as JSON).
pub fn stream_data_payloads(chunk: &str) -> (r: Vec<String>)
    ensures
        Seq::new(r@.len(), |i: int| r@[i]@) == data_payloads(text_lines(chunk@)),
{
    let fields = split_on(chunk, '\n');
    let ghost f = newline_fields(chunk@);
    let ghost lines = text_lines(chunk@);
    proof {
        lemma_fields_nonempty(chunk@, '\n');
    }
    let nf = fields.len();
    let k: usize = if fields[nf - 1].unicode_len() == 0 {
        nf - 1
    } else {
        nf
    };
    assert(k == lines.len());
    let mut out: Vec<String> = Vec::new();
    let mut i: usize = 0;
    proof {
        assert(lines.take(0) =~= Seq::<Seq<char>>::empty());
        assert(Seq::new(0, |j: int| out@[j]@) =~= Seq::<Seq<char>>::empty());
    }
    while i < k
        invariant
            f == newline_fields(chunk@),
            lines == text_lines(chunk@),
            fields@.len() == f.len(),
            nf == f.len(),
            forall|j: int| 0 <= j < fields@.len() ==> #[trigger] fields@[j]@ == f[j],
            k == lines.len(),
            k <= nf,
            i <= k,
            Seq::new(out@.len(), |j: int| out@[j]@) == data_payloads(lines.take(i as int)),
        decreases k - i,
    {
        let field = fields[i].as_str();
        let len = field.unicode_len();
        let line: &str = if i < nf - 1 && len > 0 && field.get_char(len - 1) == '\r' {
            field.substring_char(0, len - 1)
        } else {
            field
        };
        assert(line@ == lines[i as int]);
        let ghost before = Seq::new(out@.len(), |j: int| out@[j]@);
        proof {
            assert(lines.take(i + 1).drop_last() =~= lines.take(i as int));
            assert(lines.take(i + 1).last() == lines[i as int]);
        }
        if starts_with(line, "data: ") {
            proof {
                reveal_strlit("data: ");
            }
            let n = line.unicode_len();
            let payload = String::from_str(line.substring_char(6, n));
            out.push(payload);
            assert(Seq::new(out@.len(), |j: int| out@[j]@) =~= before.push(lines[i as int].subrange(6, lines[i as int].len() as int)));
        }
        i = i + 1;
    }
    proof {
        assert(lines.take(k as int) =~= lines);
    }
    out
}

} // verus!
