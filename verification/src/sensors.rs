//! Sensor snapshot types shared with the dashboard, and the parsing of vendor tool output.
use vstd::prelude::*;
use crate::superio_profile::{ascii_lower, MotherboardRail};
use crate::text::{cut_char_back, cut_char_back_exec, text_chars, trim_chars, trim_range};

verus! {

/// The motherboard side of a sensor snapshot.
#[derive(Debug, Clone, PartialEq, Eq)]
pub struct MotherboardSensors {
    pub vendor: String,
    pub model: String,
    pub superio_chip: Option<String>,
    pub profile_id: String,
    pub profile_source: String,
    pub rails: Vec<MotherboardRail>,
}

/// One WHEA event from the system event log.
#[derive(Debug, Clone, PartialEq, Eq)]
pub struct WheaEvent {
    pub timestamp: Option<String>,
    pub event_id: Option<u32>,
    pub description: Option<String>,
}

/// WHEA error summary.
#[derive(Debug, Clone, PartialEq, Eq)]
pub struct WheaInfo {
    pub error_count: u32,
    pub last_error: Option<String>,
    pub events: Vec<WheaEvent>,
}

/// An ASCII decimal digit.
pub open spec fn is_decimal_digit(c: char) -> bool {
    '0' <= c && c <= '9'
}

/// The number written by the decimal digits `s[lo..lo + n]`.
pub open spec fn decimal_number(s: Seq<char>, lo: int, n: nat) -> int
    decreases n,
{
    if n == 0 {
        0
    } else {
        decimal_number(s, lo, (n - 1) as nat) * 10 + (s[lo + n - 1] as int - '0' as int)
    }
}

/// The value of the decimal text `s[lo..hi]` after an optional leading `+`, as the unsigned
/// integer parser reads it: `None` for no digits, any non-digit, or a value above `max`.
pub open spec fn radix10_value(s: Seq<char>, lo: int, hi: int, max: int) -> Option<int> {
    let start = if lo < hi && s[lo] == '+' {
        lo + 1
    } else {
        lo
    };
    if start >= hi || exists|k: int| start <= k < hi && !is_decimal_digit(#[trigger] s[k]) {
        None
    } else if decimal_number(s, start, (hi - start) as nat) > max {
        None
    } else {
        Some(decimal_number(s, start, (hi - start) as nat))
    }
}

proof fn lemma_decimal_number_monotone(s: Seq<char>, start: int, n: nat, m: nat)
    requires
        n <= m,
        forall|k: int| start <= k < start + m ==> is_decimal_digit(#[trigger] s[k]),
    ensures
        0 <= decimal_number(s, start, n) <= decimal_number(s, start, m),
    decreases m,
{
    if n < m {
        lemma_decimal_number_monotone(s, start, n, (m - 1) as nat);
        assert(is_decimal_digit(s[start + m - 1]));
    } else if n > 0 {
        lemma_decimal_number_monotone(s, start, (n - 1) as nat, (n - 1) as nat);
        assert(is_decimal_digit(s[start + n - 1]));
    }
}

/// Parse `s[lo..hi]` as an unsigned decimal no larger than `max`.
pub fn parse_radix10(s: &Vec<char>, lo: usize, hi: usize, max: u64) -> (r: Option<u64>)
    requires
        lo <= hi <= s@.len(),
    ensures
        r matches Some(v) ==> v <= max,
        radix10_value(s@, lo as int, hi as int, max as int) matches Some(v) ==> 0 <= v <= max,
        match radix10_value(s@, lo as int, hi as int, max as int) {
            Some(v) => r == Some(v as u64),
            None => r is None,
        },
{
    let start = if lo < hi && s[lo] == '+' {
        lo + 1
    } else {
        lo
    };
    if start >= hi {
        return None;
    }
    proof {
        if radix10_value(s@, lo as int, hi as int, max as int) is Some {
            lemma_decimal_number_monotone(s@, start as int, 0, (hi - start) as nat);
        }
    }
    let mut value: u64 = 0;
    let mut i: usize = start;
    while i < hi
        invariant
            lo <= start < hi <= s@.len(),
            start <= i <= hi,
            forall|k: int| start <= k < i ==> is_decimal_digit(#[trigger] s@[k]),
            value == decimal_number(s@, start as int, (i - start) as nat),
            value <= max,
            start == (if lo < hi && s@[lo as int] == '+' {
                lo + 1
            } else {
                lo as int
            }),
        decreases hi - i,
    {
        let c = s[i];
        if !('0' <= c && c <= '9') {
            proof {
                assert(!is_decimal_digit(s@[i as int]));
            }
            return None;
        }
        let d = (c as u32 - '0' as u32) as u64;
        proof {
            assert(decimal_number(s@, start as int, (i + 1 - start) as nat) == value * 10 + d);
        }
        if d > max || value > (max - d) / 10 {
            proof {
                assert(value * 10 + d > max) by (nonlinear_arith)
                    requires
                        d > max || value > (max - d) / 10,
                        d < 10,
                        value >= 0,
                ;
                if !(exists|k: int| start <= k < hi && !is_decimal_digit(#[trigger] s@[k])) {
                    lemma_decimal_number_monotone(
                        s@,
                        start as int,
                        (i + 1 - start) as nat,
                        (hi - start) as nat,
                    );
                }
            }
            return None;
        }
        value = value * 10 + d;
        i = i + 1;
    }
    proof {
        lemma_decimal_number_monotone(s@, start as int, 0, (hi - start) as nat);
    }
    Some(value)
}

/// ASCII case-insensitive equality of two texts.
pub open spec fn same_ignoring_ascii_case(a: Seq<char>, b: Seq<char>) -> bool {
    a.len() == b.len() && forall|i: int| 0 <= i < a.len() ==> ascii_lower(#[trigger] a[i]) == ascii_lower(b[i])
}

fn lower_char(c: char) -> (r: char)
    ensures
        r == ascii_lower(c),
{
    if 'A' <= c && c <= 'Z' {
        ((c as u32) + 32) as u8 as char
    } else {
        c
    }
}

fn matches_ignoring_ascii_case(s: &Vec<char>, lo: usize, hi: usize, pat: &Vec<char>) -> (r: bool)
    requires
        lo <= hi <= s@.len(),
    ensures
        r == same_ignoring_ascii_case(s@.subrange(lo as int, hi as int), pat@),
{
    if hi - lo != pat.len() {
        return false;
    }
    let mut i: usize = 0;
    while i < pat.len()
        invariant
            lo <= hi <= s@.len(),
            hi - lo == pat@.len(),
            i <= pat@.len(),
            forall|j: int| 0 <= j < i ==> ascii_lower(#[trigger] s@[lo + j]) == ascii_lower(pat@[j]),
        decreases pat@.len() - i,
    {
        if lower_char(s[lo + i]) != lower_char(pat[i]) {
            proof {
                assert(s@.subrange(lo as int, hi as int)[i as int] == s@[lo + i]);
            }
            return false;
        }
        i = i + 1;
    }
    proof {
        assert forall|j: int| 0 <= j < pat@.len() implies ascii_lower(
            #[trigger] s@.subrange(lo as int, hi as int)[j],
        ) == ascii_lower(pat@[j]) by {
            assert(s@.subrange(lo as int, hi as int)[j] == s@[lo + j]);
        }
    }
    true
}

/// A percentage as vendor tools print it: trimmed, trailing `%` signs and the white space
/// around them removed; `N/A`, `[N/A]` (any case) and empty mean unavailable; otherwise an
/// unsigned decimal that must not exceed 100.
pub open spec fn percentage_value(s: Seq<char>) -> Option<u32> {
    let (a, b) = trim_range(s, 0, s.len() as int);
    let c = cut_char_back(s, a, b, '%');
    let (d, e) = trim_range(s, a, c);
    let v = s.subrange(d, e);
    if v.len() == 0 || same_ignoring_ascii_case(v, "N/A"@) || same_ignoring_ascii_case(v, "[N/A]"@) {
        None
    } else {
        match radix10_value(s, d, e, u32::MAX as int) {
            Some(n) => if n <= 100 {
                Some(n as u32)
            } else {
                None
            },
            None => None,
        }
    }
}

/// Parse a utilisation percentage; unavailable stays unavailable instead of becoming 0.
pub fn parse_percentage(s: &str) -> (r: Option<u32>)
    ensures
        r == percentage_value(s@),
{
    let chars = text_chars(s);
    let (a, b) = trim_chars(&chars, 0, chars.len());
    let c = cut_char_back_exec(&chars, a, b, '%');
    let (d, e) = trim_chars(&chars, a, c);
    if d == e || matches_ignoring_ascii_case(&chars, d, e, &text_chars("N/A"))
        || matches_ignoring_ascii_case(&chars, d, e, &text_chars("[N/A]")) {
        return None;
    }
    match parse_radix10(&chars, d, e, u32::MAX as u64) {
        Some(n) => {
            if n <= 100 {
                Some(n as u32)
            } else {
                None
            }
        },
        None => None,
    }
}

} // verus!
