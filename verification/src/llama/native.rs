//! Decisions around the native llama.cpp calls: which layer a tensor
//! belongs to, which chat template to use, what to do with what the
//! template engine renders, and the neutral prompt used when no template
//! renders.
use vstd::prelude::*;
use crate::text::{
    concat, parse_usize, parse_usize_seq, split_char, split_seq, str_eq, trim, trim_seq, views,
};

verus! {

/// Does the piece at `i` name a layer (`blk`, `layers` or `layer`) and
/// is it followed by a piece that parses as a number?
pub open spec fn names_layer(parts: Seq<Seq<char>>, i: int) -> bool {
    &&& (parts[i] == "blk"@ || parts[i] == "layers"@ || parts[i] == "layer"@)
    &&& i + 1 < parts.len()
    &&& parse_usize_seq(parts[i + 1]) is Some
}

/// The layer number following the first layer marker at or after `i`.
pub open spec fn layer_from(parts: Seq<Seq<char>>, i: int) -> Option<int>
    decreases parts.len() - i,
{
    if i < 0 || i >= parts.len() {
        None
    } else if names_layer(parts, i) {
        parse_usize_seq(parts[i + 1])
    } else {
        layer_from(parts, i + 1)
    }
}

/// The layer named in a dotted tensor name.
pub open spec fn layer_of_name(name: Seq<char>) -> Option<int> {
    layer_from(split_seq(name, '.'), 0)
}

/// The layer a tensor belongs to, read from its dotted name: the number
/// after the first `blk`, `layers` or `layer` piece that is followed by a
/// number (`blk.12.ffn_up` is in layer 12).
pub fn extract_layer_from_name(name: &str) -> (r: Option<usize>)
    ensures
        match r {
            Some(l) => layer_of_name(name@) == Some(l as int),
            None => layer_of_name(name@) is None,
        },
{
    let parts = split_char(name, '.');
    let ghost ps = split_seq(name@, '.');
    let mut i: usize = 0;
    while i < parts.len()
        invariant
            ps == split_seq(name@, '.'),
            views(parts@) == ps,
            i <= parts@.len(),
            layer_from(ps, 0) == layer_from(ps, i as int),
        decreases parts@.len() - i,
    {
        assert(ps[i as int] == parts@[i as int]@);
        let p = parts[i].as_str();
        if (str_eq(p, "blk") || str_eq(p, "layers") || str_eq(p, "layer")) && i + 1 < parts.len() {
            assert(ps[i as int + 1] == parts@[i as int + 1]@);
            match parse_usize(parts[i + 1].as_str()) {
                Some(idx) => {
                    assert(names_layer(ps, i as int));
                    assert(layer_from(ps, i as int) == parse_usize_seq(ps[i as int + 1]));
                    return Some(idx);
                },
                None => {},
            }
        }
        i = i + 1;
    }
    None
}

/// One `role: content` line per message.
pub open spec fn neutral_lines(messages: Seq<(String, String)>) -> Seq<char>
    decreases messages.len(),
{
    if messages.len() == 0 {
        Seq::empty()
    } else {
        neutral_lines(messages.drop_last()) + messages.last().0@ + ": "@ + messages.last().1@ + "\n"@
    }
}

/// Renders messages without any template, so that no model receives
/// another model's special tokens.
pub fn neutral_chat_prompt(messages: &Vec<(String, String)>, add_generation_prompt: bool) -> (r: String)
    ensures
        r@ == neutral_lines(messages@) + if add_generation_prompt {
            "assistant:\n"@
        } else {
            Seq::<char>::empty()
        },
{
    let mut out = String::new();
    let mut i: usize = 0;
    while i < messages.len()
        invariant
            i <= messages@.len(),
            out@ == neutral_lines(messages@.take(i as int)),
        decreases messages@.len() - i,
    {
        assert(messages@.take(i as int + 1).drop_last() =~= messages@.take(i as int));
        out.append(messages[i].0.as_str());
        out.append(": ");
        out.append(messages[i].1.as_str());
        out.append("\n");
        i = i + 1;
    }
    assert(messages@.take(messages@.len() as int) =~= messages@);
    if add_generation_prompt {
        out.append("assistant:\n");
    } else {
        assert(out@ + Seq::<char>::empty() =~= out@);
    }
    out
}

/// Is `s` more than white space?
pub open spec fn has_text(s: Seq<char>) -> bool {
    trim_seq(s).len() > 0
}

/// The template to render with: the custom one when it is more than white
/// space, else the one the model carries.
pub fn select_chat_template(custom_template: Option<&str>, model_template: Option<String>) -> (r: Option<String>)
    ensures
        match custom_template {
            Some(c) if has_text(c@) => r is Some && r->0@ == c@,
            _ => r == model_template,
        },
{
    match custom_template {
        Some(c) => {
            if trim(c).unicode_len() > 0 {
                return Some(String::from_str(c));
            }
            model_template
        },
        None => model_template,
    }
}

/// The prompt for a conversation: none for no messages; else what the
/// native template engine rendered, when it rendered text; else what the
/// template fallback rendered, when it rendered text; else the neutral
/// prompt.
pub fn chat_prompt(
    messages: &Vec<(String, String)>,
    native_render: Option<String>,
    template_render: Option<String>,
    add_generation_prompt: bool,
) -> (r: String)
    ensures
        messages@.len() == 0 ==> r@ == Seq::<char>::empty(),
        messages@.len() > 0 ==> r@ == (match native_render {
            Some(n) if has_text(n@) => n@,
            _ => match template_render {
                Some(t) if has_text(t@) => t@,
                _ => neutral_lines(messages@) + if add_generation_prompt {
                    "assistant:\n"@
                } else {
                    Seq::<char>::empty()
                },
            },
        }),
{
    if messages.len() == 0 {
        return String::new();
    }
    match native_render {
        Some(n) => {
            if trim(n.as_str()).unicode_len() > 0 {
                return n;
            }
        },
        None => {},
    }
    match template_render {
        Some(t) => {
            if trim(t.as_str()).unicode_len() > 0 {
                return t;
            }
        },
        None => {},
    }
    neutral_chat_prompt(messages, add_generation_prompt)
}

/// A reasoning tag as the template engine reports it: trimmed, and absent
/// when nothing is left.
pub fn thinking_tag(raw: &str) -> (r: Option<String>)
    ensures
        match r {
            Some(t) => t@ == trim_seq(raw@) && t@.len() > 0,
            None => trim_seq(raw@).len() == 0,
        },
{
    let t = trim(raw);
    if t.unicode_len() > 0 {
        Some(String::from_str(t))
    } else {
        None
    }
}

} // verus!
