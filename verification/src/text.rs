//! Text helpers over character sequences: ordering, equality and decimal rendering.
use vstd::prelude::*;

verus! {

/// Strict lexicographic order of texts by character code (the order of UTF-8 bytes).
pub open spec fn text_lt(a: Seq<char>, b: Seq<char>) -> bool
    decreases a.len(),
{
    if a.len() == 0 {
        b.len() > 0
    } else if b.len() == 0 {
        false
    } else if a[0] != b[0] {
        (a[0] as u32) < (b[0] as u32)
    } else {
        text_lt(a.drop_first(), b.drop_first())
    }
}

/// How two texts compare.
#[derive(Debug, Clone, Copy, PartialEq, Eq)]
pub enum TextOrder {
    Less,
    Equal,
    Greater,
}

proof fn lemma_text_lt_skip(a: Seq<char>, b: Seq<char>, i: int)
    requires
        0 <= i < a.len(),
        i < b.len(),
        a[i] == b[i],
    ensures
        text_lt(a.skip(i), b.skip(i)) == text_lt(a.skip(i + 1), b.skip(i + 1)),
{
    assert(a.skip(i).drop_first() =~= a.skip(i + 1));
    assert(b.skip(i).drop_first() =~= b.skip(i + 1));
}

pub proof fn lemma_text_lt_irreflexive(a: Seq<char>)
    ensures
        !text_lt(a, a),
    decreases a.len(),
{
    if a.len() > 0 {
        lemma_text_lt_irreflexive(a.drop_first());
    }
}

/// Compare two texts character by character.
pub fn compare_text(a: &str, b: &str) -> (r: TextOrder)
    ensures
        r == TextOrder::Equal <==> a@ == b@,
        r == TextOrder::Less <==> text_lt(a@, b@),
        r == TextOrder::Greater <==> text_lt(b@, a@),
{
    let la = a.unicode_len();
    let lb = b.unicode_len();
    let mut i: usize = 0;
    assert(a@.skip(0) =~= a@);
    assert(b@.skip(0) =~= b@);
    while i < la && i < lb
        invariant
            la == a@.len(),
            lb == b@.len(),
            i <= la,
            i <= lb,
            a@.take(i as int) =~= b@.take(i as int),
            text_lt(a@, b@) == text_lt(a@.skip(i as int), b@.skip(i as int)),
            text_lt(b@, a@) == text_lt(b@.skip(i as int), a@.skip(i as int)),
        decreases la - i,
    {
        let ca = a.get_char(i);
        let cb = b.get_char(i);
        if ca != cb {
            proof {
                assert(a@.skip(i as int)[0] == ca);
                assert(b@.skip(i as int)[0] == cb);
                assert(a@ != b@) by {
                    assert(a@[i as int] != b@[i as int]);
                }
            }
            if (ca as u32) < (cb as u32) {
                return TextOrder::Less;
            } else {
                return TextOrder::Greater;
            }
        }
        proof {
            lemma_text_lt_skip(a@, b@, i as int);
            lemma_text_lt_skip(b@, a@, i as int);
            assert(a@.take(i as int + 1) =~= a@.take(i as int).push(ca));
            assert(b@.take(i as int + 1) =~= b@.take(i as int).push(cb));
        }
        i = i + 1;
    }
    if la == lb {
        proof {
            assert(a@ =~= a@.take(i as int));
            assert(b@ =~= b@.take(i as int));
            lemma_text_lt_irreflexive(a@);
        }
        TextOrder::Equal
    } else if la < lb {
        proof {
            assert(a@.skip(i as int).len() == 0);
            assert(b@.skip(i as int).len() > 0);
            assert(a@.len() != b@.len());
        }
        TextOrder::Less
    } else {
        proof {
            assert(b@.skip(i as int).len() == 0);
            assert(a@.skip(i as int).len() > 0);
            assert(a@.len() != b@.len());
        }
        TextOrder::Greater
    }
}

pub proof fn lemma_text_lt_transitive(a: Seq<char>, b: Seq<char>, c: Seq<char>)
    requires
        text_lt(a, b),
        text_lt(b, c),
    ensures
        text_lt(a, c),
    decreases a.len(),
{
    if a.len() > 0 && b.len() > 0 && c.len() > 0 && a[0] == b[0] && b[0] == c[0] {
        lemma_text_lt_transitive(a.drop_first(), b.drop_first(), c.drop_first());
    }
}

pub proof fn lemma_text_lt_asymmetric(a: Seq<char>, b: Seq<char>)
    requires
        text_lt(a, b),
    ensures
        !text_lt(b, a),
        a != b,
    decreases a.len(),
{
    lemma_text_lt_irreflexive(a);
    if a.len() > 0 && b.len() > 0 && a[0] == b[0] {
        lemma_text_lt_asymmetric(a.drop_first(), b.drop_first());
    }
}


/// Whether two texts are the same.
pub fn same_text(a: &str, b: &str) -> (r: bool)
    ensures
        r == (a@ == b@),
{
    match compare_text(a, b) {
        TextOrder::Equal => true,
        _ => false,
    }
}

/// The character of a decimal digit.
pub open spec fn digit_char(d: nat) -> char {
    if d == 0 {
        '0'
    } else if d == 1 {
        '1'
    } else if d == 2 {
        '2'
    } else if d == 3 {
        '3'
    } else if d == 4 {
        '4'
    } else if d == 5 {
        '5'
    } else if d == 6 {
        '6'
    } else if d == 7 {
        '7'
    } else if d == 8 {
        '8'
    } else {
        '9'
    }
}

/// The decimal rendering of `n`, most significant digit first, with no leading zeros.
pub open spec fn decimal(n: nat) -> Seq<char>
    decreases n,
{
    if n < 10 {
        seq![digit_char(n)]
    } else {
        decimal(n / 10).push(digit_char(n % 10))
    }
}

fn digit_text(d: u64) -> (r: &'static str)
    requires
        d < 10,
    ensures
        r@ == seq![digit_char(d as nat)],
{
    proof {
        reveal_strlit("0");
        reveal_strlit("1");
        reveal_strlit("2");
        reveal_strlit("3");
        reveal_strlit("4");
        reveal_strlit("5");
        reveal_strlit("6");
        reveal_strlit("7");
        reveal_strlit("8");
        reveal_strlit("9");
    }
    if d == 0 {
        "0"
    } else if d == 1 {
        "1"
    } else if d == 2 {
        "2"
    } else if d == 3 {
        "3"
    } else if d == 4 {
        "4"
    } else if d == 5 {
        "5"
    } else if d == 6 {
        "6"
    } else if d == 7 {
        "7"
    } else if d == 8 {
        "8"
    } else {
        "9"
    }
}

/// Render `n` in decimal.
pub fn decimal_text(n: u64) -> (r: String)
    ensures
        r@ == decimal(n as nat),
    decreases n,
{
    if n < 10 {
        String::from_str(digit_text(n))
    } else {
        let mut s = decimal_text(n / 10);
        s.append(digit_text(n % 10));
        s
    }
}

/// The upper-case character of a hexadecimal digit.
pub open spec fn hex_upper_char(d: nat) -> char {
    if d < 10 {
        digit_char(d)
    } else if d == 10 {
        'A'
    } else if d == 11 {
        'B'
    } else if d == 12 {
        'C'
    } else if d == 13 {
        'D'
    } else if d == 14 {
        'E'
    } else {
        'F'
    }
}

/// `v` as exactly four upper-case hexadecimal digits, most significant first.
pub open spec fn hex4_upper(v: nat) -> Seq<char> {
    seq![
        hex_upper_char((v / 4096) % 16),
        hex_upper_char((v / 256) % 16),
        hex_upper_char((v / 16) % 16),
        hex_upper_char(v % 16),
    ]
}

fn hex_digit_text(d: u16) -> (r: &'static str)
    requires
        d < 16,
    ensures
        r@ == seq![hex_upper_char(d as nat)],
{
    if d < 10 {
        return digit_text(d as u64);
    }
    proof {
        reveal_strlit("A");
        reveal_strlit("B");
        reveal_strlit("C");
        reveal_strlit("D");
        reveal_strlit("E");
        reveal_strlit("F");
    }
    if d == 10 {
        "A"
    } else if d == 11 {
        "B"
    } else if d == 12 {
        "C"
    } else if d == 13 {
        "D"
    } else if d == 14 {
        "E"
    } else {
        "F"
    }
}

/// Render `v` as four upper-case hexadecimal digits.
pub fn hex4_upper_text(v: u16) -> (r: String)
    ensures
        r@ == hex4_upper(v as nat),
{
    let mut s = String::from_str(hex_digit_text((v / 4096) % 16));
    s.append(hex_digit_text((v / 256) % 16));
    s.append(hex_digit_text((v / 16) % 16));
    s.append(hex_digit_text(v % 16));
    proof {
        assert(s@ =~= hex4_upper(v as nat));
    }
    s
}


/// The decimal rendering of a signed integer: a `-` before the magnitude when negative.
pub open spec fn signed_decimal(i: int) -> Seq<char> {
    if i < 0 {
        "-"@ + decimal((-i) as nat)
    } else {
        decimal(i as nat)
    }
}

/// Render a signed integer in decimal.
pub fn signed_decimal_text(i: i64) -> (r: String)
    ensures
        r@ == signed_decimal(i as int),
{
    if i < 0 {
        let magnitude: u64 = if i == i64::MIN {
            0x8000_0000_0000_0000u64
        } else {
            (-i) as u64
        };
        let mut s = String::from_str("-");
        let digits = decimal_text(magnitude);
        s.append(digits.as_str());
        s
    } else {
        decimal_text(i as u64)
    }
}

/// A Unicode white-space character (the set `char::is_whitespace` accepts).
pub open spec fn is_space(c: char) -> bool {
    ('\u{9}' <= c && c <= '\u{d}') || c == ' ' || c == '\u{85}' || c == '\u{a0}' || c == '\u{1680}'
        || ('\u{2000}' <= c && c <= '\u{200a}') || c == '\u{2028}' || c == '\u{2029}' || c
        == '\u{202f}' || c == '\u{205f}' || c == '\u{3000}'
}

fn char_is_space(c: char) -> (r: bool)
    ensures
        r == is_space(c),
{
    ('\u{9}' <= c && c <= '\u{d}') || c == ' ' || c == '\u{85}' || c == '\u{a0}' || c == '\u{1680}'
        || ('\u{2000}' <= c && c <= '\u{200a}') || c == '\u{2028}' || c == '\u{2029}' || c
        == '\u{202f}' || c == '\u{205f}' || c == '\u{3000}'
}

/// The first position at or after `i` (and before `end`) that holds no white space; `end` if
/// none does.
pub open spec fn skip_space_from(s: Seq<char>, i: int, end: int) -> int
    decreases end - i,
{
    if i >= end || !is_space(s[i]) {
        i
    } else {
        skip_space_from(s, i + 1, end)
    }
}

/// The end of `s[lo..j]` once trailing white space is cut: the largest `j' <= j` with
/// `j' == lo` or `s[j' - 1]` not white space.
pub open spec fn cut_space_back(s: Seq<char>, lo: int, j: int) -> int
    decreases j - lo,
{
    if j <= lo || !is_space(s[j - 1]) {
        j
    } else {
        cut_space_back(s, lo, j - 1)
    }
}

/// The end of `s[lo..j]` once trailing copies of `ch` are cut.
pub open spec fn cut_char_back(s: Seq<char>, lo: int, j: int, ch: char) -> int
    decreases j - lo,
{
    if j <= lo || s[j - 1] != ch {
        j
    } else {
        cut_char_back(s, lo, j - 1, ch)
    }
}

/// `s[lo..hi]` with white space removed at both ends, as a range.
pub open spec fn trim_range(s: Seq<char>, lo: int, hi: int) -> (int, int) {
    let a = skip_space_from(s, lo, hi);
    (a, cut_space_back(s, a, hi))
}

/// Collect the characters of a text.
pub fn text_chars(t: &str) -> (r: Vec<char>)
    ensures
        r@ == t@,
{
    let n = t.unicode_len();
    let mut out: Vec<char> = Vec::new();
    let mut i: usize = 0;
    while i < n
        invariant
            n == t@.len(),
            i <= n,
            out@ == t@.take(i as int),
        decreases n - i,
    {
        out.push(t.get_char(i));
        proof {
            assert(out@ =~= t@.take(i as int + 1));
        }
        i = i + 1;
    }
    proof {
        assert(t@.take(n as int) =~= t@);
    }
    out
}

/// Trim white space off both ends of `s[lo..hi]`.
pub fn trim_chars(s: &Vec<char>, lo: usize, hi: usize) -> (r: (usize, usize))
    requires
        lo <= hi <= s@.len(),
    ensures
        r.0 == trim_range(s@, lo as int, hi as int).0,
        r.1 == trim_range(s@, lo as int, hi as int).1,
        lo <= r.0 <= r.1 <= hi,
{
    let mut a = lo;
    while a < hi && char_is_space(s[a])
        invariant
            lo <= a <= hi,
            hi <= s@.len(),
            skip_space_from(s@, lo as int, hi as int) == skip_space_from(s@, a as int, hi as int),
        decreases hi - a,
    {
        a = a + 1;
    }
    let mut b = hi;
    while b > a && char_is_space(s[b - 1])
        invariant
            a <= b <= hi,
            hi <= s@.len(),
            cut_space_back(s@, a as int, hi as int) == cut_space_back(s@, a as int, b as int),
        decreases b - a,
    {
        b = b - 1;
    }
    (a, b)
}

/// Cut trailing copies of `ch` off `s[lo..hi]`.
pub fn cut_char_back_exec(s: &Vec<char>, lo: usize, hi: usize, ch: char) -> (r: usize)
    requires
        lo <= hi <= s@.len(),
    ensures
        r == cut_char_back(s@, lo as int, hi as int, ch),
        lo <= r <= hi,
{
    let mut b = hi;
    while b > lo && s[b - 1] == ch
        invariant
            lo <= b <= hi,
            hi <= s@.len(),
            cut_char_back(s@, lo as int, hi as int, ch) == cut_char_back(s@, lo as int, b as int, ch),
        decreases b - lo,
    {
        b = b - 1;
    }
    b
}

} // verus!
