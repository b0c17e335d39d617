//! Normalised output of a sandbox terminal command.
use vstd::prelude::*;
use vstd::utf8::{encode_utf8, encode_utf8_valid_utf8, is_char_boundary, is_char_boundary_start_end_of_seq, valid_utf8};
use crate::text::{byte_len, decimal_seq, u64_to_decimal};
use crate::utf8_lemmas::lemma_encode_concat;

verus! {

/// Bytes of standard output kept inline before head-and-tail truncation.
pub const DEFAULT_MAX_STDOUT_BYTES: usize = 51200;

/// Bytes of standard error kept inline before head-and-tail truncation.
pub const DEFAULT_MAX_STDERR_BYTES: usize = 20480;

/// Execution output of a sandbox terminal command.
#[derive(Debug)]
pub struct TerminalRunResult {
    pub exit_code: i32,
    pub stdout: String,
    pub stderr: String,
    pub duration_ms: u64,
    pub cancelled: bool,
    pub signal_info: Option<String>,
}

/// Largest position at or below `i` that is 0 or a character boundary.
pub open spec fn floor_boundary_from(b: Seq<u8>, i: int) -> int
    decreases i,
{
    if i <= 0 || is_char_boundary(b, i) {
        i
    } else {
        floor_boundary_from(b, i - 1)
    }
}

/// Smallest position at or above `i` that is the end or a character boundary.
pub open spec fn ceil_boundary_from(b: Seq<u8>, i: int) -> int
    decreases b.len() - i,
{
    if i >= b.len() || is_char_boundary(b, i) {
        i
    } else {
        ceil_boundary_from(b, i + 1)
    }
}

/// `str::floor_char_boundary`: the boundary at or before `index`.
pub open spec fn floor_boundary(b: Seq<u8>, index: int) -> int {
    if index >= b.len() {
        b.len() as int
    } else {
        floor_boundary_from(b, index)
    }
}

/// `str::ceil_char_boundary`: the boundary at or after `index`.
pub open spec fn ceil_boundary(b: Seq<u8>, index: int) -> int {
    if index >= b.len() {
        b.len() as int
    } else {
        ceil_boundary_from(b, index)
    }
}

/// Text put between the kept head and tail of a truncated output.
pub open spec fn truncation_marker(omitted: nat) -> Seq<char> {
    "\n\n[... output truncated: "@ + decimal_seq(omitted)
        + " bytes omitted to prevent context flooding ...]\n\n"@
}

/// The bytes of `truncate_output(text, max)` for a text whose UTF-8 bytes are
/// `b`: the text itself when it fits, otherwise a head of about `max / 2`
/// bytes, a marker telling how many bytes were left out, and a tail of about
/// `max / 2` bytes, both cut at character boundaries.
pub open spec fn truncated_bytes(b: Seq<u8>, max: int) -> Seq<u8> {
    if b.len() <= max {
        b
    } else {
        let half = max / 2;
        let h = floor_boundary(b, half);
        let t = ceil_boundary(b, b.len() - half);
        b.subrange(0, h) + encode_utf8(truncation_marker((t - h) as nat)) + b.subrange(t, b.len() as int)
    }
}

/// Human-readable explanation of an exit code, when it has one.
pub open spec fn exit_explanation(exit_code: i32, cancelled: bool) -> Option<Seq<char>> {
    if cancelled {
        Some("Command was terminated by active user cancellation"@)
    } else if exit_code == -9 || exit_code == 137 {
        Some("Terminated by SIGKILL (Signal 9) \u{2014} commonly triggered by the host kernel OOM killer on memory exhaustion"@)
    } else if exit_code == -15 || exit_code == 143 {
        Some("Terminated by SIGTERM (Signal 15) \u{2014} process was requested to terminate gracefully"@)
    } else if exit_code == -11 || exit_code == 139 {
        Some("Terminated by SIGSEGV (Signal 11) \u{2014} segmentation fault: invalid memory address access"@)
    } else if exit_code == -6 || exit_code == 134 {
        Some("Terminated by SIGABRT (Signal 6) \u{2014} abort signal raised"@)
    } else if exit_code == 127 {
        Some("Command not found (exit code 127) \u{2014} binary or script does not exist on PATH"@)
    } else if exit_code == 126 {
        Some("Permission denied (exit code 126) \u{2014} command found but not executable"@)
    } else {
        None
    }
}

/// Bytes of a string.
pub open spec fn bytes_of(s: &str) -> Seq<u8> {
    encode_utf8(s@)
}

impl TerminalRunResult {
    /// A result with both outputs truncated to their limits and the exit code
    /// explained.
    pub fn new(exit_code: i32, stdout_raw: String, stderr_raw: String, duration_ms: u64, cancelled: bool) -> (r: Self)
        ensures
            r.exit_code == exit_code,
            encode_utf8(r.stdout@) == truncated_bytes(encode_utf8(stdout_raw@), DEFAULT_MAX_STDOUT_BYTES as int),
            encode_utf8(r.stderr@) == truncated_bytes(encode_utf8(stderr_raw@), DEFAULT_MAX_STDERR_BYTES as int),
            r.duration_ms == duration_ms,
            r.cancelled == cancelled,
            crate::text::opt_view(r.signal_info) == exit_explanation(exit_code, cancelled),
    {
        let stdout = Self::truncate_output(stdout_raw.as_str(), DEFAULT_MAX_STDOUT_BYTES);
        let stderr = Self::truncate_output(stderr_raw.as_str(), DEFAULT_MAX_STDERR_BYTES);
        let signal_info = Self::explain_exit_code(exit_code, cancelled);
        TerminalRunResult { exit_code, stdout, stderr, duration_ms, cancelled, signal_info }
    }

    /// Truncates a large output, keeping its head and tail, to avoid memory and
    /// context bloat.
    pub fn truncate_output(text: &str, max_bytes: usize) -> (r: String)
        ensures
            encode_utf8(r@) == truncated_bytes(bytes_of(text), max_bytes as int),
    {
        let len = byte_len(text);
        proof {
            encode_utf8_valid_utf8(text@);
        }
        if len <= max_bytes {
            return String::from_str(text);
        }
        let half = max_bytes / 2;
        let head_idx = Self::floor_char_boundary(text, half);
        let tail_start = len - half;
        let tail_idx = Self::ceil_char_boundary(text, tail_start);
        let ghost b = bytes_of(text);
        proof {
            is_char_boundary_start_end_of_seq(b);
        }
        let (head, _) = text.split_at(head_idx);
        let (_, tail) = text.split_at(tail_idx);
        let omitted = len - (byte_len(head) + byte_len(tail));
        proof {
            assert(encode_utf8(head@) == b.subrange(0, head_idx as int));
            assert(encode_utf8(tail@) == b.subrange(tail_idx as int, b.len() as int));
        }
        let digits = u64_to_decimal(omitted as u64);
        let mut r = String::from_str(head);
        r.append("\n\n[... output truncated: ");
        r.append(digits.as_str());
        r.append(" bytes omitted to prevent context flooding ...]\n\n");
        r.append(tail);
        proof {
            let m1 = "\n\n[... output truncated: "@;
            let m2 = " bytes omitted to prevent context flooding ...]\n\n"@;
            let marker = truncation_marker(omitted as nat);
            assert(marker == m1 + digits@ + m2);
            assert(r@ =~= head@ + (m1 + digits@ + m2) + tail@);
            lemma_encode_concat(head@, marker);
            lemma_encode_concat(head@ + marker, tail@);
            assert(omitted == tail_idx - head_idx);
        }
        r
    }

    /// Explains exit codes and signals in human-readable terms.
    pub fn explain_exit_code(exit_code: i32, cancelled: bool) -> (r: Option<String>)
        ensures
            crate::text::opt_view(r) == exit_explanation(exit_code, cancelled),
    {
        if cancelled {
            return Some(String::from_str("Command was terminated by active user cancellation"));
        }
        if exit_code == 0 {
            None
        } else if exit_code == -9 || exit_code == 137 {
            Some(String::from_str("Terminated by SIGKILL (Signal 9) \u{2014} commonly triggered by the host kernel OOM killer on memory exhaustion"))
        } else if exit_code == -15 || exit_code == 143 {
            Some(String::from_str("Terminated by SIGTERM (Signal 15) \u{2014} process was requested to terminate gracefully"))
        } else if exit_code == -11 || exit_code == 139 {
            Some(String::from_str("Terminated by SIGSEGV (Signal 11) \u{2014} segmentation fault: invalid memory address access"))
        } else if exit_code == -6 || exit_code == 134 {
            Some(String::from_str("Terminated by SIGABRT (Signal 6) \u{2014} abort signal raised"))
        } else if exit_code == 127 {
            Some(String::from_str("Command not found (exit code 127) \u{2014} binary or script does not exist on PATH"))
        } else if exit_code == 126 {
            Some(String::from_str("Permission denied (exit code 126) \u{2014} command found but not executable"))
        } else {
            None
        }
    }

    /// The character boundary at or before byte position `index`.
    fn floor_char_boundary(s: &str, index: usize) -> (r: usize)
        ensures
            r == floor_boundary(bytes_of(s), index as int),
            r <= index,
            r == 0 || is_char_boundary(bytes_of(s), r as int),
    {
        proof {
            encode_utf8_valid_utf8(s@);
        }
        if index >= byte_len(s) {
            proof {
                is_char_boundary_start_end_of_seq(bytes_of(s));
            }
            byte_len(s)
        } else {
            let mut lower = index;
            while !s.is_char_boundary(lower) && lower > 0
                invariant
                    lower <= index,
                    index < bytes_of(s).len(),
                    floor_boundary_from(bytes_of(s), index as int) == floor_boundary_from(
                        bytes_of(s),
                        lower as int,
                    ),
                decreases lower,
            {
                lower = lower - 1;
            }
            lower
        }
    }

    /// The character boundary at or after byte position `index`.
    pub(crate) fn ceil_char_boundary(s: &str, index: usize) -> (r: usize)
        ensures
            r == ceil_boundary(bytes_of(s), index as int),
            index <= r <= bytes_of(s).len() || index >= bytes_of(s).len(),
            r <= bytes_of(s).len(),
            is_char_boundary(bytes_of(s), r as int),
    {
        proof {
            encode_utf8_valid_utf8(s@);
            is_char_boundary_start_end_of_seq(bytes_of(s));
        }
        if index >= byte_len(s) {
            byte_len(s)
        } else {
            let mut upper = index;
            while !s.is_char_boundary(upper) && upper < byte_len(s)
                invariant
                    index <= upper <= bytes_of(s).len(),
                    valid_utf8(bytes_of(s)),
                    is_char_boundary(bytes_of(s), bytes_of(s).len() as int),
                    ceil_boundary_from(bytes_of(s), index as int) == ceil_boundary_from(
                        bytes_of(s),
                        upper as int,
                    ),
                decreases bytes_of(s).len() - upper,
            {
                upper = upper + 1;
            }
            upper
        }
    }
}

} // verus!
