//! Decisions of the inference dispatcher: which kernel library serves a
//! model, and how the token stream of a generation is watched for tool
//! calls.
use vstd::prelude::*;
use vstd::utf8::{encode_utf8, encode_utf8_valid_utf8, is_char_boundary_start_end_of_seq};
use crate::text::{byte_len, concat, contains, contains_seq, eq_ignore_ascii_case, eq_ignore_ascii_case_seq, find_first, first_occ, lowercase_seq, to_lowercase};
use crate::tools::execution::result::{ceil_boundary, TerminalRunResult};
use crate::tools::installer::tools_client::HostOs;
use crate::tools::registry::sync::{extension_of, file_name_of, find_last, find_last_dot_ext};

verus! {

/// Is a model, by its path, served by the ONNX kernel? Its extension is
/// `onnx` in any case, or its lower-cased path mentions `onnx`.
pub open spec fn is_onnx_model_path(p: Seq<char>) -> bool {
    (match extension_of(file_name_of(p)) {
        Some(e) => eq_ignore_ascii_case_seq(e, "onnx"@),
        None => false,
    }) || contains_seq(lowercase_seq(p), "onnx"@)
}

/// The name of a kernel: the ONNX one or the llama one.
pub open spec fn kernel_core(onnx: bool) -> Seq<char> {
    if onnx {
        "cluaiz-onnx"@
    } else {
        "cluaiz-llama"@
    }
}

/// The file name of a kernel's shared library on a host.
pub open spec fn kernel_library_name(onnx: bool, os: HostOs) -> Seq<char> {
    match os {
        HostOs::Windows => kernel_core(onnx) + ".dll"@,
        HostOs::MacOs => "lib"@ + kernel_core(onnx) + ".dylib"@,
        HostOs::Linux => "lib"@ + kernel_core(onnx) + ".so"@,
    }
}

/// The tag that opens a tool call in generated text.
pub open spec fn open_tag() -> Seq<char> {
    "<tool_call>"@
}

/// The tag that closes a tool call in generated text.
pub open spec fn close_tag() -> Seq<char> {
    "</tool_call>"@
}

/// Does the first closing tag of `s` end before its first opening tag
/// starts? The tool call between them cannot be cut out then.
pub open spec fn closes_before_open(s: Seq<char>) -> bool {
    match (first_occ(s, open_tag(), 0), first_occ(s, close_tag(), 0)) {
        (Some(i), Some(j)) => j + 12 < i,
        _ => false,
    }
}

/// The bytes that the watch keeps of text with no tool call in it: the last
/// 100 bytes, from the first character boundary on.
pub open spec fn watch_window(b: Seq<u8>) -> Seq<u8> {
    if b.len() > 100 {
        b.subrange(ceil_boundary(b, b.len() - 100), b.len() as int)
    } else {
        b
    }
}

/// The tool call that a watched text holds: from its first opening tag
/// through its first closing tag, or to its end while none has come.
pub open spec fn pending_call_spec(s: Seq<char>) -> Option<Seq<char>> {
    match first_occ(s, open_tag(), 0) {
        Some(i) => match first_occ(s, close_tag(), 0) {
            Some(j) => Some(s.subrange(i, j + 12)),
            None => Some(s.subrange(i, s.len() as int)),
        },
        None => None,
    }
}

/// Chooses the kernel library that serves a model.
pub struct KernelSelector;

impl KernelSelector {
    /// Is the model at `model_path` served by the ONNX kernel?
    pub fn is_onnx_model(model_path: &str) -> (r: bool)
        ensures
            r == is_onnx_model_path(model_path@),
    {
        let n = model_path.unicode_len();
        let f = match find_last(model_path, '/') {
            Some(k) => model_path.substring_char(k + 1, n),
            None => model_path,
        };
        let by_ext = match find_last_dot_ext(f) {
            Some(e) => eq_ignore_ascii_case(e.as_str(), "onnx"),
            None => false,
        };
        proof {
            reveal_strlit("onnx");
        }
        let lower = to_lowercase(model_path);
        by_ext || contains(lower.as_str(), "onnx")
    }

    /// The file name of the kernel library that serves the model at
    /// `model_path` on a host.
    pub fn kernel_library(model_path: &str, os: HostOs) -> (r: String)
        ensures
            r@ == kernel_library_name(is_onnx_model_path(model_path@), os),
    {
        let core = if Self::is_onnx_model(model_path) {
            "cluaiz-onnx"
        } else {
            "cluaiz-llama"
        };
        match os {
            HostOs::Windows => concat(core, ".dll"),
            HostOs::MacOs => {
                let a = concat("lib", core);
                concat(a.as_str(), ".dylib")
            },
            HostOs::Linux => {
                let a = concat("lib", core);
                concat(a.as_str(), ".so")
            },
        }
    }

    /// The marker file that says a kernel is installed and validated.
    pub fn kernel_ready_marker(model_path: &str) -> (r: String)
        ensures
            r@ == kernel_core(is_onnx_model_path(model_path@)) + ".ready"@,
    {
        let core = if Self::is_onnx_model(model_path) {
            "cluaiz-onnx"
        } else {
            "cluaiz-llama"
        };
        concat(core, ".ready")
    }
}

/// Does the first closing tag of `s` end before its first opening tag?
fn closes_first(s: &str) -> (r: bool)
    ensures
        r == closes_before_open(s@),
{
    proof {
        reveal_strlit("<tool_call>");
        reveal_strlit("</tool_call>");
    }
    match (find_first(s, "<tool_call>", 0), find_first(s, "</tool_call>", 0)) {
        (Some(i), Some(j)) => j < i && i - j > 12,
        _ => false,
    }
}

/// What to do with a generated token.
#[derive(Debug)]
pub enum TokenAction {
    /// Pass it on to the client.
    Forward,
    /// Keep it back: a tool call is being generated.
    Hold,
    /// A whole tool call has been generated: hand it over and stop.
    Complete(String),
}

/// Watches generated text for tool calls, which are kept from the client
/// and handed over whole.
#[derive(Debug)]
pub struct ToolCallInterceptor {
    /// The recent text; all of it from the start of a tool call on.
    pub buffer: String,
}

impl ToolCallInterceptor {
    /// A watch that has seen nothing.
    pub fn new() -> (r: Self)
        ensures
            r.buffer@ == Seq::<char>::empty(),
    {
        ToolCallInterceptor { buffer: String::new() }
    }

    /// Would taking in `token` leave a closing tag ahead of the first
    /// opening tag? Such a token cannot be taken in (see [`Self::on_token`]).
    pub fn would_misread(&self, token: &str) -> (r: bool)
        ensures
            r == closes_before_open(self.buffer@ + token@),
    {
        let s = concat(self.buffer.as_str(), token);
        closes_first(s.as_str())
    }

    /// Does the watched text hold a closing tag ahead of its first opening
    /// tag? No pending call can be cut out of it then (see
    /// [`Self::pending_call`]).
    pub fn holds_misordered_tags(&self) -> (r: bool)
        ensures
            r == closes_before_open(self.buffer@),
    {
        closes_first(self.buffer.as_str())
    }

    /// Takes in a generated token: forwarded while no tool call has begun
    /// (the watch then keeps only its last 100 bytes), held from the opening
    /// tag on, and, once the closing tag has come, the whole call is handed
    /// over.
    pub fn on_token(&mut self, token: &str) -> (r: TokenAction)
        requires
            !closes_before_open(old(self).buffer@ + token@),
        ensures
            ({
                let s = old(self).buffer@ + token@;
                match first_occ(s, open_tag(), 0) {
                    Some(i) => match first_occ(s, close_tag(), 0) {
                        Some(j) => (r matches TokenAction::Complete(t) && t@ == s.subrange(i, j + 12))
                            && final(self).buffer@ == s,
                        None => r is Hold && final(self).buffer@ == s,
                    },
                    None => r is Forward && encode_utf8(final(self).buffer@) == watch_window(encode_utf8(s)),
                }
            }),
    {
        proof {
            reveal_strlit("<tool_call>");
            reveal_strlit("</tool_call>");
        }
        self.buffer.append(token);
        let found_open = find_first(self.buffer.as_str(), "<tool_call>", 0);
        match found_open {
            Some(i) => {
                let found_close = find_first(self.buffer.as_str(), "</tool_call>", 0);
                match found_close {
                    Some(j) => {
                        let _n = self.buffer.as_str().unicode_len();
                        let t = String::from_str(self.buffer.as_str().substring_char(i, j + 12));
                        TokenAction::Complete(t)
                    },
                    None => TokenAction::Hold,
                }
            },
            None => {
                let len = byte_len(self.buffer.as_str());
                if len > 100 {
                    let ghost b = encode_utf8(self.buffer@);
                    proof {
                        encode_utf8_valid_utf8(self.buffer@);
                        is_char_boundary_start_end_of_seq(b);
                    }
                    let k = TerminalRunResult::ceil_char_boundary(self.buffer.as_str(), len - 100);
                    let kept = {
                        let (_, tail) = self.buffer.as_str().split_at(k);
                        String::from_str(tail)
                    };
                    self.buffer = kept;
                }
                TokenAction::Forward
            },
        }
    }

    /// The tool call left in the watch when generation ends without one
    /// having been handed over: from its opening tag through its closing
    /// tag, or to the end of the text when it was cut short.
    pub fn pending_call(&self) -> (r: Option<String>)
        requires
            !closes_before_open(self.buffer@),
        ensures
            crate::text::opt_view(r) == pending_call_spec(self.buffer@),
    {
        proof {
            reveal_strlit("<tool_call>");
            reveal_strlit("</tool_call>");
        }
        let s = self.buffer.as_str();
        let n = s.unicode_len();
        match find_first(s, "<tool_call>", 0) {
            Some(i) => match find_first(s, "</tool_call>", 0) {
                Some(j) => Some(String::from_str(s.substring_char(i, j + 12))),
                None => Some(String::from_str(s.substring_char(i, n))),
            },
            None => None,
        }
    }
}

} // verus!
