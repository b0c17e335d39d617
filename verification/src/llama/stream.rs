//! Decisions of a streamed generation: the request that a prompt carries
//! (a pivot marker, and a JSON envelope of messages and overrides), whether
//! a prompt is already framed by a chat template, the thinking budget, the
//! prompt-token budget, reuse of the cached prefix, and the per-token
//! tracking of think blocks.
use vstd::prelude::*;
use crate::documents::{json_document, parse_json};
use crate::json::{jget, jobject, oarray, or_default, ostr, str_opt, Json, JsonView};
use crate::text::{
    char_is_ws, concat, contains, contains_seq, lowercase_seq, matches_at, occurs_at, parse_usize,
    parse_usize_seq, starts_with, starts_with_seq, str_eq, to_lowercase, trim, trim_seq, trim_start_seq,
};

verus! {

/// The marker that opens a prompt continuing an interrupted generation.
pub open spec fn pivot_marker() -> Seq<char> {
    "[PIVOT_CONTINUE]"@
}

/// `s` without every leading pivot marker.
pub open spec fn drop_markers(s: Seq<char>) -> Seq<char>
    decreases s.len(),
{
    if s.len() >= 16 && starts_with_seq(s, pivot_marker()) {
        drop_markers(s.subrange(16, s.len() as int))
    } else {
        s
    }
}

/// The text a prompt carries: for a pivot, the prompt without its leading
/// markers and the white space after them; else the prompt itself.
pub open spec fn request_text(prompt: Seq<char>) -> Seq<char> {
    if starts_with_seq(prompt, pivot_marker()) {
        trim_start_seq(drop_markers(prompt))
    } else {
        prompt
    }
}

/// Is a document a request envelope: an object with a `messages` or a
/// `pivot_prompt` member?
pub open spec fn is_envelope(d: Option<JsonView>) -> bool {
    match d {
        Some(v) => jobject(v) is Some && (jget(v, "messages"@) is Some || jget(v, "pivot_prompt"@) is Some),
        None => false,
    }
}

/// A message of an envelope: its `role` (`user` by default) and its
/// `content` (empty by default).
pub open spec fn message_of(m: JsonView) -> (Seq<char>, Seq<char>) {
    (or_default(ostr(jget(m, "role"@)), "user"@), or_default(ostr(jget(m, "content"@)), Seq::empty()))
}

/// The messages of an envelope: its `pivot_prompt` text as one user
/// message, else each item of its `messages` array.
pub open spec fn envelope_messages(v: JsonView) -> Seq<(Seq<char>, Seq<char>)> {
    match ostr(jget(v, "pivot_prompt"@)) {
        Some(p) => seq![("user"@, p)],
        None => match oarray(jget(v, "messages"@)) {
            Some(items) => items.map_values(|m: JsonView| message_of(m)),
            None => Seq::empty(),
        },
    }
}

/// A generation request as mathematical data.
pub ghost struct RequestView {
    pub is_pivot: bool,
    pub text: Seq<char>,
    pub messages: Seq<(Seq<char>, Seq<char>)>,
    pub samplers: Option<JsonView>,
    pub think_mode: Option<Seq<char>>,
    pub response_length: Option<Seq<char>>,
}

/// The request that a prompt carries: whether it is a pivot, its text and,
/// when serde_json reads an envelope from the text, the envelope's
/// messages, sampler overrides, think mode and response length.
pub open spec fn generation_request_spec(prompt: Seq<char>) -> RequestView {
    let text = request_text(prompt);
    let d = json_document(text);
    if is_envelope(d) {
        let v = d->0;
        RequestView {
            is_pivot: starts_with_seq(prompt, pivot_marker()),
            text,
            messages: envelope_messages(v),
            samplers: jget(v, "samplers"@),
            think_mode: ostr(jget(v, "think_mode"@)),
            response_length: ostr(jget(v, "response_length"@)),
        }
    } else {
        RequestView {
            is_pivot: starts_with_seq(prompt, pivot_marker()),
            text,
            messages: Seq::empty(),
            samplers: None,
            think_mode: None,
            response_length: None,
        }
    }
}

/// What a prompt asks of a generation.
#[derive(Debug)]
pub struct GenerationRequest {
    /// Does the prompt continue an interrupted generation?
    pub is_pivot: bool,
    /// The prompt text, without pivot markers.
    pub text: String,
    /// The chat messages of an envelope, as (role, content).
    pub messages: Vec<(String, String)>,
    /// The envelope's sampler overrides.
    pub samplers: Option<Json>,
    pub think_mode: Option<String>,
    pub response_length: Option<String>,
}

/// Views of string pairs.
pub open spec fn pair_views(v: Seq<(String, String)>) -> Seq<(Seq<char>, Seq<char>)> {
    v.map_values(|p: (String, String)| (p.0@, p.1@))
}

/// View of an optional string.
pub open spec fn ostring(o: Option<String>) -> Option<Seq<char>> {
    match o {
        Some(s) => Some(s@),
        None => None,
    }
}

impl View for GenerationRequest {
    type V = RequestView;

    open spec fn view(&self) -> RequestView {
        RequestView {
            is_pivot: self.is_pivot,
            text: self.text@,
            messages: pair_views(self.messages@),
            samplers: match self.samplers {
                Some(j) => Some(j@),
                None => None,
            },
            think_mode: ostring(self.think_mode),
            response_length: ostring(self.response_length),
        }
    }
}

/// `s` without its leading pivot markers.
fn strip_markers(s: &str) -> (r: &str)
    ensures
        r@ == drop_markers(s@),
{
    proof {
        reveal_strlit("[PIVOT_CONTINUE]");
    }
    let n = s.unicode_len();
    let mut i: usize = 0;
    assert(s@.subrange(0, n as int) =~= s@);
    while n - i >= 16 && matches_at(s, "[PIVOT_CONTINUE]", i)
        invariant
            n == s@.len(),
            i <= n,
            pivot_marker().len() == 16,
            drop_markers(s@) == drop_markers(s@.subrange(i as int, n as int)),
        decreases n - i,
    {
        proof {
            let t = s@.subrange(i as int, n as int);
            assert(t.subrange(0, 16) =~= s@.subrange(i as int, i + 16));
            assert(starts_with_seq(t, pivot_marker()));
            assert(t.subrange(16, t.len() as int) =~= s@.subrange(i + 16, n as int));
        }
        i = i + 16;
    }
    proof {
        let t = s@.subrange(i as int, n as int);
        if t.len() >= 16 && starts_with_seq(t, pivot_marker()) {
            assert(s@.subrange(i as int, i + 16) =~= t.subrange(0, 16));
            assert(occurs_at(s@, pivot_marker(), i as int));
        }
    }
    s.substring_char(i, n)
}

/// `s` without its leading white space, as `str::trim_start` leaves it.
fn trim_start(s: &str) -> (r: &str)
    ensures
        r@ == trim_start_seq(s@),
{
    let n = s.unicode_len();
    let mut i: usize = 0;
    assert(s@.subrange(0, n as int) =~= s@);
    while i < n && char_is_ws(s.get_char(i))
        invariant
            n == s@.len(),
            i <= n,
            trim_start_seq(s@) == trim_start_seq(s@.subrange(i as int, n as int)),
        decreases n - i,
    {
        proof {
            let t = s@.subrange(i as int, n as int);
            assert(t.subrange(1, t.len() as int) =~= s@.subrange(i + 1, n as int));
        }
        i = i + 1;
    }
    s.substring_char(i, n)
}

/// The messages of an envelope.
fn messages_of(v: &Json) -> (r: Vec<(String, String)>)
    ensures
        pair_views(r@) == envelope_messages(v@),
{
    if let Some(p) = str_opt(v.get("pivot_prompt")) {
        let mut r: Vec<(String, String)> = Vec::new();
        r.push((String::from_str("user"), String::from_str(p)));
        assert(pair_views(r@) =~= envelope_messages(v@));
        return r;
    }
    let mut r: Vec<(String, String)> = Vec::new();
    match v.get("messages") {
        Some(m) => match m.as_array() {
            Some(items) => {
                let ghost iv = crate::json::json_views(items@);
                let mut i: usize = 0;
                while i < items.len()
                    invariant
                        i <= items@.len(),
                        iv == crate::json::json_views(items@),
                        pair_views(r@) == iv.subrange(0, i as int).map_values(|m: JsonView| message_of(m)),
                    decreases items@.len() - i,
                {
                    let it = &items[i];
                    let role = match str_opt(it.get("role")) {
                        Some(x) => String::from_str(x),
                        None => String::from_str("user"),
                    };
                    let content = match str_opt(it.get("content")) {
                        Some(x) => String::from_str(x),
                        None => String::new(),
                    };
                    let ghost before = r@;
                    r.push((role, content));
                    proof {
                        assert(iv[i as int] == items@[i as int]@);
                        assert(pair_views(r@) =~= pair_views(before).push(message_of(iv[i as int])));
                        assert(iv.subrange(0, i + 1).map_values(|m: JsonView| message_of(m)) =~= iv.subrange(
                            0,
                            i as int,
                        ).map_values(|m: JsonView| message_of(m)).push(message_of(iv[i as int])));
                    }
                    i = i + 1;
                }
                assert(iv.subrange(0, iv.len() as int) =~= iv);
                r
            },
            None => {
                assert(pair_views(r@) =~= envelope_messages(v@));
                r
            },
        },
        None => {
            assert(pair_views(r@) =~= envelope_messages(v@));
            r
        },
    }
}

/// An optional text member as an owned string.
fn text_member(v: &Json, k: &str) -> (r: Option<String>)
    ensures
        ostring(r) == ostr(jget(v@, k@)),
{
    match str_opt(v.get(k)) {
        Some(x) => Some(String::from_str(x)),
        None => None,
    }
}

/// Parses the request a prompt carries: a pivot marker in front (every
/// leading marker and the white space after them are dropped), then,
/// where serde_json reads an object with `messages` or `pivot_prompt` from
/// the text, its messages, `samplers`, `think_mode` and `response_length`.
pub fn parse_generation_request(prompt: &str) -> (r: GenerationRequest)
    ensures
        r@ == generation_request_spec(prompt@),
        r.is_pivot == starts_with_seq(prompt@, pivot_marker()),
{
    proof {
        reveal_strlit("[PIVOT_CONTINUE]");
    }
    let is_pivot = starts_with(prompt, "[PIVOT_CONTINUE]");
    let text: &str = if is_pivot {
        trim_start(strip_markers(prompt))
    } else {
        prompt
    };
    let doc = parse_json(text);
    let mut req = GenerationRequest {
        is_pivot,
        text: String::from_str(text),
        messages: Vec::new(),
        samplers: None,
        think_mode: None,
        response_length: None,
    };
    assert(pair_views(req.messages@) =~= Seq::empty());
    if let Some(v) = &doc {
        let is_object = match v {
            Json::Object(_) => true,
            _ => false,
        };
        if is_object && (v.get("messages").is_some() || v.get("pivot_prompt").is_some()) {
            req.messages = messages_of(v);
            req.samplers = match v.get("samplers") {
                Some(x) => Some(x.deep_copy()),
                None => None,
            };
            req.think_mode = text_member(v, "think_mode");
            req.response_length = text_member(v, "response_length");
        }
    }
    assert(req@ =~= generation_request_spec(prompt@));
    req
}

/// Is a prompt already framed by a chat template: does it hold
/// `<|im_start|>`, `<|user|>`, `<start_of_turn>`, `<|turn>` or `[INST]`?
pub open spec fn prompt_is_framed_spec(t: Seq<char>) -> bool {
    ||| contains_seq(t, "<|im_start|>"@)
    ||| contains_seq(t, "<|user|>"@)
    ||| contains_seq(t, "<start_of_turn>"@)
    ||| contains_seq(t, "<|turn>"@)
    ||| contains_seq(t, "[INST]"@)
}

/// Is a prompt already framed by a chat template (and so used as it is)?
pub fn prompt_is_framed(text: &str) -> (r: bool)
    ensures
        r == prompt_is_framed_spec(text@),
{
    contains(text, "<|im_start|>") || contains(text, "<|user|>") || contains(text, "<start_of_turn>") || contains(
        text,
        "<|turn>",
    ) || contains(text, "[INST]")
}

/// The think mode or response length in force: the request's, else the
/// configured one, lower-cased.
pub fn effective_setting(requested: Option<&str>, configured: &str) -> (r: String)
    ensures
        r@ == lowercase_seq(
            match requested {
                Some(q) => q@,
                None => configured@,
            },
        ),
{
    let src = match requested {
        Some(q) => q,
        None => configured,
    };
    to_lowercase(src)
}

/// Whether thinking is suppressed, and the most thinking tokens allowed,
/// for a lower-cased think mode: `off`, `false` and `0` suppress it; `low`
/// allows 512 tokens, `medium` 1024; `high`, `on`, `max` and `auto` no
/// limit; a decimal number is the limit, and 0 suppresses; anything else
/// has no limit.
pub open spec fn think_budget_spec(mode: Seq<char>) -> (bool, int) {
    if mode == "off"@ || mode == "false"@ || mode == "0"@ {
        (true, 0)
    } else if mode == "low"@ {
        (false, 512)
    } else if mode == "medium"@ {
        (false, 1024)
    } else if mode == "high"@ || mode == "on"@ || mode == "max"@ || mode == "auto"@ {
        (false, usize::MAX as int)
    } else {
        match parse_usize_seq(mode) {
            Some(b) => if b == 0 {
                (true, 0)
            } else {
                (false, b)
            },
            None => (false, usize::MAX as int),
        }
    }
}

/// The thinking budget of a lower-cased think mode (see
/// [`think_budget_spec`]).
pub fn think_budget(mode: &str) -> (r: (bool, usize))
    ensures
        (r.0, r.1 as int) == think_budget_spec(mode@),
{
    if str_eq(mode, "off") || str_eq(mode, "false") || str_eq(mode, "0") {
        (true, 0)
    } else if str_eq(mode, "low") {
        (false, 512)
    } else if str_eq(mode, "medium") {
        (false, 1024)
    } else if str_eq(mode, "high") || str_eq(mode, "on") || str_eq(mode, "max") || str_eq(mode, "auto") {
        (false, usize::MAX)
    } else {
        match parse_usize(mode) {
            Some(b) => if b == 0 {
                (true, 0)
            } else {
                (false, b)
            },
            None => (false, usize::MAX),
        }
    }
}

/// Thinking is suppressed exactly when its budget is 0; a named level
/// `low` allows less than `medium`, which allows less than `high`; and a
/// decimal budget is taken as it is.
pub proof fn lemma_think_budget_levels(mode: Seq<char>)
    ensures
        think_budget_spec(mode).0 <==> think_budget_spec(mode).1 == 0,
        think_budget_spec("low"@).1 < think_budget_spec("medium"@).1,
        think_budget_spec("medium"@).1 < think_budget_spec("high"@).1,
        think_budget_spec("high"@) == think_budget_spec("auto"@),
        parse_usize_seq(mode) matches Some(b) ==> (b > 0 ==> think_budget_spec(mode) == (false, b)),
{
    reveal_strlit("off");
    reveal_strlit("false");
    reveal_strlit("0");
    reveal_strlit("low");
    reveal_strlit("medium");
    reveal_strlit("high");
    reveal_strlit("on");
    reveal_strlit("max");
    reveal_strlit("auto");
    assert("low"@ != "off"@) by { assert("low"@[0] != "off"@[0]); }
    assert("low"@.len() == 3 && "false"@.len() == 5 && "0"@.len() == 1);
    assert("medium"@.len() == 6 && "high"@.len() == 4 && "on"@.len() == 2);
    assert("medium"@ != "false"@ && "medium"@ != "off"@ && "medium"@ != "0"@ && "medium"@ != "low"@);
    assert("high"@ != "false"@ && "high"@ != "off"@ && "high"@ != "0"@ && "high"@ != "low"@ && "high"@ != "medium"@);
    assert("auto"@.len() == 4 && "max"@.len() == 3);
    assert("auto"@ != "off"@) by { assert("auto"@[0] != "off"@[0]); }
    assert("auto"@ != "low"@) by { assert("auto"@[0] != "low"@[0]); }
    assert(think_budget_spec("low"@) == (false, 512int));
    assert(think_budget_spec("medium"@) == (false, 1024int));
    assert(think_budget_spec("high"@) == (false, usize::MAX as int));
    if let Some(b) = parse_usize_seq(mode) {
        if b > 0 {
            let body = crate::text::unsigned_body(mode);
            assert(mode != "0"@) by {
                if mode == "0"@ {
                    assert("0"@.len() == 1 && "0"@[0] == '0');
                    assert(body == "0"@);
                    assert(body.drop_last().len() == 0);
                    assert(crate::text::digits_value(body.drop_last()) == 0);
                    assert(crate::text::digits_value(body) == 0);
                }
            }
            assert(forall|i: int| 0 <= i < body.len() ==> crate::text::is_digit(#[trigger] body[i]));
            assert(mode != "off"@ && mode != "false"@ && mode != "low"@ && mode != "medium"@ && mode != "high"@
                && mode != "on"@ && mode != "max"@ && mode != "auto"@) by {
                if mode.len() > 0 {
                    assert(body.len() > 0);
                }
                assert(mode[mode.len() - 1] == body[body.len() - 1]) by {
                    if mode.len() > 0 && mode[0] == '+' {
                        assert(body == mode.drop_first());
                    }
                }
                assert(crate::text::is_digit(body[body.len() - 1]));
                assert("off"@.len() == 3 && "false"@.len() == 5 && "low"@.len() == 3 && "medium"@.len() == 6);
                assert("high"@.len() == 4 && "on"@.len() == 2 && "max"@.len() == 3 && "auto"@.len() == 4);
                assert(!crate::text::is_digit("off"@[2]) && !crate::text::is_digit("false"@[4]));
                assert(!crate::text::is_digit("low"@[2]) && !crate::text::is_digit("medium"@[5]));
                assert(!crate::text::is_digit("high"@[3]) && !crate::text::is_digit("on"@[1]));
                assert(!crate::text::is_digit("max"@[2]) && !crate::text::is_digit("auto"@[3]));
            }
        }
    }
}

/// Does a formatted prompt silence thinking whatever the mode: it holds
/// `CRITICAL INSTRUCTION`, or both `<system>` and `"skill"`?
pub fn forces_silent_thinking(formatted: &str) -> (r: bool)
    ensures
        r == (contains_seq(formatted@, "CRITICAL INSTRUCTION"@) || (contains_seq(formatted@, "<system>"@)
            && contains_seq(formatted@, "\"skill\""@))),
{
    contains(formatted, "CRITICAL INSTRUCTION") || (contains(formatted, "<system>") && contains(formatted, "\"skill\""))
}

/// Is a think-tag schema usable as a tag: not empty, not `none`, and not a
/// tool tag?
pub open spec fn usable_schema(schema: Seq<char>) -> bool {
    schema.len() > 0 && schema != "none"@ && !contains_seq(schema, "tool"@)
}

/// A think tag: the one the template engine found, else the model's
/// schema where it is usable, else none (empty).
pub fn think_tag(native: Option<String>, schema: &str) -> (r: String)
    ensures
        r@ == match native {
            Some(t) => t@,
            None => if usable_schema(schema@) {
                schema@
            } else {
                Seq::empty()
            },
        },
{
    match native {
        Some(t) => t,
        None => if schema.unicode_len() > 0 && !str_eq(schema, "none") && !contains(schema, "tool") {
            String::from_str(schema)
        } else {
            String::new()
        },
    }
}

/// The prompt made from what the chat template rendered: none where it
/// rendered only white space (an error); on a pivot with a think-end tag,
/// the tag on a line of its own in front, closing the interrupted
/// thought; else the rendering itself.
pub fn frame_rendered(rendered: &str, is_pivot: bool, think_end: &str) -> (r: Option<String>)
    ensures
        match r {
            Some(p) => trim_seq(rendered@).len() > 0 && p@ == if is_pivot && think_end@.len() > 0 {
                "\n"@ + think_end@ + "\n"@ + rendered@
            } else {
                rendered@
            },
            None => trim_seq(rendered@).len() == 0,
        },
{
    if trim(rendered).unicode_len() == 0 {
        return None;
    }
    if is_pivot && think_end.unicode_len() > 0 {
        let a = concat("\n", think_end);
        let b = concat(a.as_str(), "\n");
        Some(concat(b.as_str(), rendered))
    } else {
        Some(String::from_str(rendered))
    }
}

/// Is the tokenizer asked to add its special start token: never on a
/// pivot; else where the vocabulary wants one and the prompt does not
/// already open with `<|`, `<start_of_turn` or `<s>`.
pub fn adds_start_token(is_pivot: bool, vocab_adds_bos: bool, formatted: &str) -> (r: bool)
    ensures
        r == (!is_pivot && vocab_adds_bos && !starts_with_seq(formatted@, "<|"@) && !starts_with_seq(
            formatted@,
            "<start_of_turn"@,
        ) && !starts_with_seq(formatted@, "<s>"@)),
{
    !is_pivot && vocab_adds_bos && !starts_with(formatted, "<|") && !starts_with(formatted, "<start_of_turn")
        && !starts_with(formatted, "<s>")
}

/// Tokens kept free for generation: the generation limit, but at most a
/// quarter of the context clamped to 256..=2048.
pub open spec fn generation_reserve(max_tokens: int, n_ctx: int) -> int {
    let q = n_ctx / 4;
    let c = if q < 256 {
        256
    } else if q > 2048 {
        2048
    } else {
        q
    };
    if max_tokens < c {
        max_tokens
    } else {
        c
    }
}

/// The generation reserve and the most prompt tokens the context takes
/// (the rest of the context, at least 1).
pub fn prompt_budget(max_tokens: usize, n_ctx: u32) -> (r: (i32, usize))
    requires
        max_tokens <= i32::MAX,
        n_ctx <= i32::MAX,
    ensures
        r.0 == generation_reserve(max_tokens as int, n_ctx as int),
        r.1 == if n_ctx - generation_reserve(max_tokens as int, n_ctx as int) < 1 {
            1
        } else {
            n_ctx - generation_reserve(max_tokens as int, n_ctx as int)
        },
{
    let mt = max_tokens as i32;
    let ctx = n_ctx as i32;
    let q = ctx / 4;
    let c = if q < 256 {
        256
    } else if q > 2048 {
        2048
    } else {
        q
    };
    let reserve = if mt < c {
        mt
    } else {
        c
    };
    let rest = ctx - reserve;
    let m = if rest < 1 {
        1
    } else {
        rest
    };
    (reserve, m as usize)
}

/// The reserve for generation is the generation limit, but never more
/// than 2048 tokens nor less than 256 (unless the limit is smaller); the
/// prompt may take the rest of the context, and at least one token.
pub proof fn lemma_prompt_budget_bounds(max_tokens: int, n_ctx: int)
    requires
        0 <= max_tokens,
        0 <= n_ctx,
    ensures
        generation_reserve(max_tokens, n_ctx) <= max_tokens,
        generation_reserve(max_tokens, n_ctx) <= 2048,
        max_tokens >= 256 ==> generation_reserve(max_tokens, n_ctx) >= 256,
        max_tokens >= 2048 && n_ctx >= 8192 ==> generation_reserve(max_tokens, n_ctx) == 2048,
        generation_reserve(max_tokens, n_ctx) <= n_ctx / 4 || generation_reserve(max_tokens, n_ctx) <= 256,
{
}

/// The length of the longest common prefix of `a` and `b`.
pub open spec fn is_common_prefix_len(a: Seq<i32>, b: Seq<i32>, n: int) -> bool {
    &&& 0 <= n <= a.len()
    &&& n <= b.len()
    &&& forall|i: int| 0 <= i < n ==> a[i] == b[i]
    &&& (n == a.len() || n == b.len() || a[n] != b[n])
}

/// How many leading tokens two token lists share.
pub fn common_prefix_len(a: &Vec<i32>, b: &Vec<i32>) -> (r: usize)
    ensures
        is_common_prefix_len(a@, b@, r as int),
{
    let n = if a.len() < b.len() {
        a.len()
    } else {
        b.len()
    };
    let mut i: usize = 0;
    while i < n && a[i] == b[i]
        invariant
            i <= n,
            n <= a@.len(),
            n <= b@.len(),
            n == a@.len() || n == b@.len(),
            forall|j: int| 0 <= j < i ==> a@[j] == b@[j],
        decreases n - i,
    {
        i = i + 1;
    }
    i
}

/// How a prompt's tokens meet the cached context.
#[derive(Debug, Clone, Copy, PartialEq, Eq, Structural)]
pub enum PrefillPlan {
    /// Continue after what the cache holds (a pivot).
    Append,
    /// Keep the first `n` cached tokens and decode the rest of the prompt.
    Resume(usize),
    /// Clear the cache and decode the whole prompt from position 0.
    Fresh,
}

/// The plan for a prompt: a prompt longer than `max_prompt` tokens is
/// decoded fresh, whatever else holds; a pivot appends; a prompt meeting
/// cached tokens resumes after their common prefix when it spans at least
/// 4 tokens, and is decoded fresh otherwise.
pub open spec fn prefill_plan_spec(cached: Seq<i32>, prompt: Seq<i32>, is_pivot: bool, max_prompt: int, matched: int) -> PrefillPlan {
    let over = prompt.len() > max_prompt;
    if is_pivot && !over {
        PrefillPlan::Append
    } else if cached.len() > 0 && !over && !is_pivot {
        if matched < 4 {
            PrefillPlan::Fresh
        } else {
            PrefillPlan::Resume(matched as usize)
        }
    } else {
        PrefillPlan::Fresh
    }
}

/// Plans the prefill of a prompt against the cached tokens (see
/// [`prefill_plan_spec`]; `matched` there is the common prefix length).
pub fn plan_prefill(cached: &Vec<i32>, prompt: &Vec<i32>, is_pivot: bool, max_prompt: usize) -> (r: PrefillPlan)
    ensures
        exists|m: int| is_common_prefix_len(cached@, prompt@, m) && r == prefill_plan_spec(
            cached@,
            prompt@,
            is_pivot,
            max_prompt as int,
            m,
        ),
{
    let m = common_prefix_len(cached, prompt);
    let over = prompt.len() > max_prompt;
    if is_pivot && !over {
        PrefillPlan::Append
    } else if cached.len() > 0 && !over && !is_pivot {
        if m < 4 {
            PrefillPlan::Fresh
        } else {
            PrefillPlan::Resume(m)
        }
    } else {
        PrefillPlan::Fresh
    }
}

/// Does a decode starting at `start_pos` come too near the end of the
/// context (within 16 positions), so that the cache is cleared and the
/// whole prompt decoded from position 0?
pub fn start_near_ceiling(start_pos: i32, n_ctx: u32) -> (r: bool)
    requires
        n_ctx <= i32::MAX,
    ensures
        r == (start_pos >= n_ctx - 16),
{
    start_pos as i64 >= n_ctx as i64 - 16
}

/// How many leading tokens are dropped so that the tokens decoded from
/// `start_pos` end at least 16 positions before the end of the context.
pub fn tokens_to_drop(n_tokens: usize, start_pos: i32, n_ctx: u32) -> (r: usize)
    requires
        start_pos >= 0,
    ensures
        ({
            let allowed = if n_ctx >= start_pos + 16 {
                n_ctx - start_pos - 16
            } else {
                0
            };
            r == if n_tokens > allowed {
                n_tokens - allowed
            } else {
                0
            }
        }),
{
    let used = start_pos as u64 + 16;
    let allowed: u64 = if n_ctx as u64 >= used {
        n_ctx as u64 - used
    } else {
        0
    };
    if n_tokens as u64 > allowed {
        (n_tokens as u64 - allowed) as usize
    } else {
        0
    }
}

/// A prompt longer than the budget is always decoded fresh; only a pivot
/// appends; a resumed prompt keeps a shared prefix of at least 4 tokens,
/// no longer than either list, over which the cached and prompt tokens
/// agree.
pub proof fn lemma_prefill_plan_sound(cached: Seq<i32>, prompt: Seq<i32>, is_pivot: bool, max_prompt: int, m: int)
    requires
        is_common_prefix_len(cached, prompt, m),
        cached.len() <= usize::MAX,
    ensures
        prompt.len() > max_prompt ==> prefill_plan_spec(cached, prompt, is_pivot, max_prompt, m) == PrefillPlan::Fresh,
        prefill_plan_spec(cached, prompt, is_pivot, max_prompt, m) == PrefillPlan::Append ==> is_pivot,
        prefill_plan_spec(cached, prompt, is_pivot, max_prompt, m) matches PrefillPlan::Resume(k) ==> (!is_pivot
            && 4 <= k && k <= cached.len() && k <= prompt.len() && forall|i: int| 0 <= i < k ==> cached[i]
            == prompt[i]),
        (!is_pivot && cached.len() == 0) ==> prefill_plan_spec(cached, prompt, is_pivot, max_prompt, m)
            == PrefillPlan::Fresh,
{
}

/// The state of think-block tracking during a generation.
#[derive(Debug, Clone, Copy, PartialEq, Eq, Structural)]
pub struct ThinkWatch {
    /// Is the text inside a think block?
    pub in_block: bool,
    /// Thinking pieces swallowed so far.
    pub think_tokens: usize,
    /// Tokens spent inside think blocks.
    pub suppressed: usize,
    /// Tokens generated outside think blocks.
    pub generated: usize,
}

/// The most tokens spent inside think blocks before generation stops.
pub open spec fn suppressed_cap() -> int {
    4096
}

impl ThinkWatch {
    /// A watch at the start of a generation.
    pub fn new() -> (r: Self)
        ensures
            r == (ThinkWatch { in_block: false, think_tokens: 0, suppressed: 0, generated: 0 }),
    {
        ThinkWatch { in_block: false, think_tokens: 0, suppressed: 0, generated: 0 }
    }

    /// Takes in a decoded piece: a start tag in it opens a think block and
    /// an end tag closes it (empty tags never match). Inside a block while
    /// thinking is suppressed the piece is swallowed and counted, and
    /// reaching the thinking budget ends the block; otherwise a non-empty
    /// piece is passed on. Answers whether to pass it on.
    pub fn on_piece(&mut self, piece: &str, start_tag: &str, end_tag: &str, suppress: bool, max_think: usize) -> (emit: bool)
        requires
            old(self).think_tokens < usize::MAX,
        ensures
            ({
                let opened = start_tag@.len() > 0 && contains_seq(piece@, start_tag@);
                let closed = end_tag@.len() > 0 && contains_seq(piece@, end_tag@);
                let inside = if closed {
                    false
                } else if opened {
                    true
                } else {
                    old(self).in_block
                };
                if piece@.len() == 0 {
                    !emit && *final(self) == *old(self)
                } else if inside && suppress {
                    !emit && final(self).think_tokens == old(self).think_tokens + 1 && final(self).in_block == (
                    old(self).think_tokens + 1 < max_think) && final(self).suppressed == old(self).suppressed
                        && final(self).generated == old(self).generated
                } else {
                    emit && *final(self) == (ThinkWatch { in_block: inside, ..*old(self) })
                }
            }),
    {
        if piece.unicode_len() == 0 {
            return false;
        }
        if start_tag.unicode_len() > 0 && contains(piece, start_tag) {
            self.in_block = true;
        }
        if end_tag.unicode_len() > 0 && contains(piece, end_tag) {
            self.in_block = false;
        }
        if self.in_block && suppress {
            self.think_tokens = self.think_tokens + 1;
            if self.think_tokens >= max_think {
                self.in_block = false;
            }
            false
        } else {
            true
        }
    }

    /// Ends a token's turn: a request to skip thinking closes the block;
    /// then the token counts as generated outside a block, or as spent
    /// inside one. Answers whether generation stops, as it does once 4096
    /// tokens were spent inside think blocks.
    pub fn end_token(&mut self, skip: bool) -> (stop: bool)
        requires
            old(self).generated < usize::MAX,
            old(self).suppressed < usize::MAX,
        ensures
            ({
                let inside = old(self).in_block && !skip;
                if inside {
                    *final(self) == (ThinkWatch { suppressed: (old(self).suppressed + 1) as usize, ..*old(self) })
                        && stop == (old(self).suppressed + 1 >= suppressed_cap())
                } else {
                    *final(self) == (ThinkWatch {
                        in_block: false,
                        generated: (old(self).generated + 1) as usize,
                        ..*old(self)
                    }) && !stop
                }
            }),
    {
        if skip && self.in_block {
            self.in_block = false;
        }
        if !self.in_block {
            self.generated = self.generated + 1;
            false
        } else {
            self.suppressed = self.suppressed + 1;
            self.suppressed >= 4096
        }
    }
}

} // verus!
