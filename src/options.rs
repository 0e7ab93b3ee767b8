//! Options of a transfer that callers choose by name.

use vstd::prelude::*;
use vstd::string::*;

verus! {

/// How hashes are printed.
#[derive(Clone, Copy, Debug, PartialEq, Eq, Structural)]
pub enum Format {
    Hex,
    Cid,
}

impl Default for Format {
    fn default() -> (r: Format)
        ensures
            r == Format::Hex,
    {
        Format::Hex
    }
}

pub open spec fn is_ascii_upper(c: char) -> bool {
    'A' <= c && c <= 'Z'
}

/// `c`, with an ASCII capital made small, is `t`.
pub open spec fn lowers_to(c: char, t: char) -> bool {
    if is_ascii_upper(c) {
        (c as u32) + 32 == (t as u32)
    } else {
        c == t
    }
}

/// `s`, with its ASCII capitals made small, is `target`.
pub open spec fn lowered_equals(s: Seq<char>, target: Seq<char>) -> bool {
    s.len() == target.len() && forall|k: int| 0 <= k < s.len() ==> lowers_to(#[trigger] s[k], target[k])
}

/// Whether `s`, with its ASCII capitals made small, equals `target`.
fn lower_equals(s: &str, target: &str) -> (r: bool)
    ensures
        r == lowered_equals(s@, target@),
{
    let n = s.unicode_len();
    let m = target.unicode_len();
    if n != m {
        return false;
    }
    let mut i: usize = 0;
    while i < n
        invariant
            n == s@.len(),
            m == target@.len(),
            n == m,
            i <= n,
            forall|k: int| 0 <= k < i ==> lowers_to(#[trigger] s@[k], target@[k]),
        decreases n - i,
    {
        let c = s.get_char(i);
        let t = target.get_char(i);
        let matches = if 'A' <= c && c <= 'Z' {
            (c as u32) + 32 == (t as u32)
        } else {
            c == t
        };
        if !matches {
            return false;
        }
        i = i + 1;
    }
    true
}

pub open spec fn format_name(f: Format) -> Seq<char> {
    match f {
        Format::Hex => "hex"@,
        Format::Cid => "cid"@,
    }
}

impl Format {
    /// Reads a format by name, ignoring ASCII case: "hex" or "cid".
    pub fn parse(s: &str) -> (r: Option<Format>)
        ensures
            r == if lowered_equals(s@, "hex"@) {
                Some(Format::Hex)
            } else if lowered_equals(s@, "cid"@) {
                Some(Format::Cid)
            } else {
                None::<Format>
            },
    {
        if lower_equals(s, "hex") {
            Some(Format::Hex)
        } else if lower_equals(s, "cid") {
            Some(Format::Cid)
        } else {
            None
        }
    }

    /// The format's name, as `parse` reads it.
    pub fn as_str(&self) -> (r: &'static str)
        ensures
            r@ == format_name(*self),
    {
        match self {
            Format::Hex => "hex",
            Format::Cid => "cid",
        }
    }
}

} // verus!
