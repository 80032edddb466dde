//! The lines of the log file.
use vstd::prelude::*;
use vstd::string::*;
use crate::text::{decimal, decimal_string};

verus! {

/// `n` in decimal, padded with zeros on the left to at least three digits.
pub open spec fn pad3(n: nat) -> Seq<char> {
    let d = decimal(n);
    if d.len() >= 3 {
        d
    } else {
        Seq::new((3 - d.len()) as nat, |i: int| '0') + d
    }
}

/// A log entry: `[` seconds `.` milliseconds (three digits) `] ` message.
pub open spec fn log_line_text(secs: u64, millis: u32, message: Seq<char>) -> Seq<char> {
    "["@ + decimal(secs as nat) + "."@ + pad3(millis as nat) + "] "@ + message
}

/// Formats a log entry stamped with the Unix time `secs` seconds and
/// `millis` milliseconds.
pub fn log_line(secs: u64, millis: u32, message: &str) -> (r: String)
    ensures
        r@ == log_line_text(secs, millis, message@),
{
    let mut out = String::from_str("[");
    let s = decimal_string(secs);
    out.append(s.as_str());
    out.append(".");
    let m = decimal_string(millis as u64);
    let mlen = m.as_str().unicode_len();
    if mlen < 3 {
        out.append("0");
        if mlen < 2 {
            out.append("0");
        }
    }
    out.append(m.as_str());
    out.append("] ");
    out.append(message);
    proof {
        reveal_strlit("0");
        let d = decimal(millis as nat);
        if d.len() == 1 {
            assert(Seq::new(2, |i: int| '0') =~= "0"@ + "0"@);
        } else if d.len() == 2 {
            assert(Seq::new(1, |i: int| '0') =~= "0"@);
        }
        assert(d.len() >= 1) by {
            crate::text::lemma_decimal(millis as nat);
        }
        assert(out@ =~= log_line_text(secs, millis, message@));
    }
    out
}

/// `line` ending with a line break: it is added when missing.
pub open spec fn terminated(line: Seq<char>) -> Seq<char> {
    if line.len() > 0 && line.last() == '\n' {
        line
    } else {
        line.push('\n')
    }
}

/// Makes `line` end with a line break, so that each entry is a line.
pub fn terminate_line(line: String) -> (r: String)
    ensures
        r@ == terminated(line@),
        r@.len() > 0 && r@.last() == '\n',
{
    let n = line.as_str().unicode_len();
    if n > 0 && line.as_str().get_char(n - 1) == '\n' {
        return line;
    }
    let mut out = line;
    out.append("\n");
    proof {
        reveal_strlit("\n");
        assert(out@ =~= line@.push('\n'));
    }
    out
}

} // verus!
