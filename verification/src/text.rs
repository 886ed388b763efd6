//! Character-level text helpers shared by the command-line and share-code
//! parsers: character access, first-occurrence search, decimal numbers,
//! white-space trimming, and the two std formatting calls the messages use.

use vstd::prelude::*;
use vstd::string::*;

verus! {

// ── Character access ─────────────────────────────────────────────────────────

/// The characters of `s`, in order.
pub fn chars_of(s: &str) -> (v: Vec<char>)
    ensures
        v@ == s@,
{
    let n = s.unicode_len();
    let mut v: Vec<char> = Vec::new();
    let mut i: usize = 0;
    while i < n
        invariant
            n == s@.len(),
            i <= n,
            v@ == s@.subrange(0, i as int),
        decreases n - i,
    {
        let c = s.get_char(i);
        v.push(c);
        i = i + 1;
    }
    proof {
        assert(s@.subrange(0, n as int) =~= s@);
    }
    v
}

// ── First occurrence ─────────────────────────────────────────────────────────

/// Index of the first `c` in `s`, or -1 when `s` holds no `c`.
pub open spec fn first_index_of(s: Seq<char>, c: char) -> int
    decreases s.len(),
{
    if s.len() == 0 {
        -1
    } else if s[0] == c {
        0
    } else {
        let r = first_index_of(s.drop_first(), c);
        if r < 0 {
            -1
        } else {
            r + 1
        }
    }
}

pub proof fn lemma_first_index_of(s: Seq<char>, c: char, i: int)
    requires
        0 <= i <= s.len(),
        forall|j: int| 0 <= j < i ==> s[j] != c,
        i < s.len() ==> s[i] == c,
    ensures
        first_index_of(s, c) == (if i < s.len() { i } else { -1 }),
    decreases i,
{
    if i > 0 {
        let t = s.drop_first();
        assert forall|j: int| 0 <= j < i - 1 implies t[j] != c by {
            assert(t[j] == s[j + 1]);
        }
        if i < s.len() {
            assert(t[i - 1] == s[i]);
        }
        lemma_first_index_of(t, c, i - 1);
    }
}

/// Position of the first `c` in `v`, if any.
pub fn find_char(v: &Vec<char>, c: char) -> (r: Option<usize>)
    ensures
        match r {
            Some(k) => first_index_of(v@, c) == k as int && k < v@.len() && v@[k as int] == c,
            None => first_index_of(v@, c) == -1,
        },
{
    let mut i: usize = 0;
    while i < v.len()
        invariant
            i <= v@.len(),
            forall|j: int| 0 <= j < i ==> v@[j] != c,
        decreases v.len() - i,
    {
        if v[i] == c {
            proof {
                lemma_first_index_of(v@, c, i as int);
            }
            return Some(i);
        }
        i = i + 1;
    }
    proof {
        lemma_first_index_of(v@, c, v@.len() as int);
    }
    None
}

// ── Decimal numbers ──────────────────────────────────────────────────────────

pub open spec fn is_ascii_digit(c: char) -> bool {
    '0' <= c && c <= '9'
}

pub open spec fn digit_value(c: char) -> nat {
    (c as int - '0' as int) as nat
}

/// Value of a digit string read in base ten (most significant digit first).
pub open spec fn decimal_value(s: Seq<char>) -> nat
    decreases s.len(),
{
    if s.len() == 0 {
        0
    } else {
        decimal_value(s.drop_last()) * 10 + digit_value(s.last())
    }
}

pub open spec fn all_digits(s: Seq<char>) -> bool {
    forall|i: int| 0 <= i < s.len() ==> is_ascii_digit(#[trigger] s[i])
}

/// What `str::parse` accepts for an unsigned integer type whose largest
/// value is `max`: an optional `+`, then one or more ASCII digits whose value
/// is at most `max` (leading zeros allowed).
pub open spec fn unsigned_text_value(s: Seq<char>, max: nat) -> Option<nat> {
    let d = if s.len() > 0 && s[0] == '+' { s.drop_first() } else { s };
    if d.len() > 0 && all_digits(d) && decimal_value(d) <= max {
        Some(decimal_value(d))
    } else {
        None
    }
}

/// What `str::parse::<u32>` gives.
pub open spec fn u32_text_value(s: Seq<char>) -> Option<u32> {
    match unsigned_text_value(s, u32::MAX as nat) {
        Some(v) => Some(v as u32),
        None => None,
    }
}

/// What `str::parse::<usize>` gives.
pub open spec fn usize_text_value(s: Seq<char>) -> Option<usize> {
    match unsigned_text_value(s, usize::MAX as nat) {
        Some(v) => Some(v as usize),
        None => None,
    }
}

proof fn lemma_decimal_value_monotone(s: Seq<char>, i: int, j: int)
    requires
        0 <= i <= j <= s.len(),
    ensures
        decimal_value(s.subrange(0, i)) <= decimal_value(s.subrange(0, j)),
    decreases j - i,
{
    if i < j {
        lemma_decimal_value_monotone(s, i, j - 1);
        assert(s.subrange(0, j).drop_last() =~= s.subrange(0, j - 1));
    }
}

/// Parse `v[from..to]` as an unsigned integer no larger than `max`, as
/// `str::parse` does.
pub fn parse_unsigned_range(v: &Vec<char>, from: usize, to: usize, max: u64) -> (r: Option<u64>)
    requires
        from <= to <= v@.len(),
    ensures
        match unsigned_text_value(v@.subrange(from as int, to as int), max as nat) {
            Some(x) => r == Some(x as u64),
            None => r is None,
        },
{
    let ghost s = v@.subrange(from as int, to as int);
    let mut start = from;
    if from < to && v[from] == '+' {
        start = from + 1;
    }
    let ghost d = v@.subrange(start as int, to as int);
    proof {
        if s.len() > 0 && s[0] == '+' {
            assert(d =~= s.drop_first());
        } else {
            assert(d =~= s);
        }
    }
    if start == to {
        return None;
    }
    let mut acc: u64 = 0;
    let mut i: usize = start;
    while i < to
        invariant
            from <= start <= i <= to <= v@.len(),
            d == v@.subrange(start as int, to as int),
            s == v@.subrange(from as int, to as int),
            d == (if s.len() > 0 && s[0] == '+' { s.drop_first() } else { s }),
            d.len() > 0,
            forall|k: int| 0 <= k < i - start ==> is_ascii_digit(#[trigger] d[k]),
            acc as nat == decimal_value(d.subrange(0, i - start)),
            acc <= max,
        decreases to - i,
    {
        let c = v[i];
        if !('0' <= c && c <= '9') {
            proof {
                assert(d[i - start] == c);
            }
            return None;
        }
        let ghost k = (i - start) as int;
        proof {
            assert(d[k] == c);
            assert(d.subrange(0, k + 1).drop_last() =~= d.subrange(0, k));
            assert(d.subrange(0, k + 1).last() == c);
        }
        let digit: u32 = (c as u32) - ('0' as u32);
        let next: u128 = (acc as u128) * 10 + (digit as u128);
        if next > max as u128 {
            proof {
                lemma_decimal_value_monotone(d, k + 1, d.len() as int);
                assert(d.subrange(0, d.len() as int) =~= d);
            }
            return None;
        }
        acc = next as u64;
        i = i + 1;
    }
    proof {
        assert(d.subrange(0, d.len() as int) =~= d);
    }
    Some(acc)
}

/// Parse `v[from..to]` as `str::parse::<u32>` does.
pub fn parse_u32_range(v: &Vec<char>, from: usize, to: usize) -> (r: Option<u32>)
    requires
        from <= to <= v@.len(),
    ensures
        r == u32_text_value(v@.subrange(from as int, to as int)),
{
    match parse_unsigned_range(v, from, to, 4_294_967_295u64) {
        Some(x) => Some(x as u32),
        None => None,
    }
}

/// Parse `v[from..to]` as `str::parse::<usize>` does.
pub fn parse_usize_range(v: &Vec<char>, from: usize, to: usize) -> (r: Option<usize>)
    requires
        from <= to <= v@.len(),
    ensures
        r == usize_text_value(v@.subrange(from as int, to as int)),
{
    match parse_unsigned_range(v, from, to, usize::MAX as u64) {
        Some(x) => Some(x as usize),
        None => None,
    }
}

// ── ASCII case folding ───────────────────────────────────────────────────────

/// Code of `c` with ASCII upper-case letters folded to lower case.
pub open spec fn ascii_folded(c: char) -> u32 {
    if 'A' <= c && c <= 'Z' {
        (c as u32 + 32) as u32
    } else {
        c as u32
    }
}

/// `str::eq_ignore_ascii_case`: equal after folding ASCII letters.
pub open spec fn eq_ignore_ascii_case(a: Seq<char>, b: Seq<char>) -> bool {
    &&& a.len() == b.len()
    &&& forall|i: int| 0 <= i < a.len() ==> ascii_folded(#[trigger] a[i]) == ascii_folded(b[i])
}

pub fn chars_eq_ignore_ascii_case(a: &Vec<char>, b: &Vec<char>) -> (r: bool)
    ensures
        r == eq_ignore_ascii_case(a@, b@),
{
    if a.len() != b.len() {
        return false;
    }
    let mut i: usize = 0;
    while i < a.len()
        invariant
            a@.len() == b@.len(),
            i <= a@.len(),
            forall|j: int| 0 <= j < i ==> ascii_folded(#[trigger] a@[j]) == ascii_folded(b@[j]),
        decreases a.len() - i,
    {
        let x = a[i];
        let y = b[i];
        let fx: u32 = if 'A' <= x && x <= 'Z' {
            (x as u32) + 32
        } else {
            x as u32
        };
        let fy: u32 = if 'A' <= y && y <= 'Z' {
            (y as u32) + 32
        } else {
            y as u32
        };
        if fx != fy {
            return false;
        }
        i = i + 1;
    }
    true
}

/// Decimal digit characters of `n`, without leading zeros (`"0"` for zero).
pub open spec fn decimal_text(n: nat) -> Seq<char>
    decreases n,
{
    if n < 10 {
        seq![(n + 48) as char]
    } else {
        decimal_text(n / 10).push(((n % 10) + 48) as char)
    }
}

/// The one-character text of decimal digit `d`.
fn digit_str(d: usize) -> (r: &'static str)
    requires
        d < 10,
    ensures
        r@ == seq![((d as nat) + 48) as char],
{
    proof {
        reveal_strlit("0");
        reveal_strlit("1");
        reveal_strlit("2");
        reveal_strlit("3");
        reveal_strlit("4");
        reveal_strlit("5");
        reveal_strlit("6");
        reveal_strlit("7");
        reveal_strlit("8");
        reveal_strlit("9");
    }
    if d == 0 {
        "0"
    } else if d == 1 {
        "1"
    } else if d == 2 {
        "2"
    } else if d == 3 {
        "3"
    } else if d == 4 {
        "4"
    } else if d == 5 {
        "5"
    } else if d == 6 {
        "6"
    } else if d == 7 {
        "7"
    } else if d == 8 {
        "8"
    } else {
        "9"
    }
}

/// The decimal digits of `n`, with no sign, padding or leading zeros.
pub(crate) fn usize_to_text(n: usize) -> (r: String)
    ensures
        r@ == decimal_text(n as nat),
    decreases n,
{
    if n < 10 {
        String::from_str(digit_str(n))
    } else {
        let mut r = usize_to_text(n / 10);
        r.append(digit_str(n % 10));
        r
    }
}

// ── Debug quoting ────────────────────────────────────────────────────────────

/// What `format!("{:?}", s)` writes for a string `s` (a double-quoted,
/// escaped rendering).
pub uninterp spec fn str_debug_text(s: Seq<char>) -> Seq<char>;

/// `format!("{:?}", s)` for a string slice.  The contract names the result
/// and claims only that it depends on the characters of `s` alone; the
/// escaping rules themselves are left unstated.
#[verifier::external_body]
pub(crate) fn debug_quoted(s: &str) -> (r: String)
    ensures
        r@ == str_debug_text(s@),
{
    format!("{s:?}")
}

// ── White space ──────────────────────────────────────────────────────────────

/// `char::is_whitespace`: the Unicode `White_Space` property.
pub open spec fn is_white_space(c: char) -> bool {
    ||| ('\u{9}' <= c && c <= '\u{D}')
    ||| c == ' '
    ||| c == '\u{85}'
    ||| c == '\u{A0}'
    ||| c == '\u{1680}'
    ||| ('\u{2000}' <= c && c <= '\u{200A}')
    ||| c == '\u{2028}'
    ||| c == '\u{2029}'
    ||| c == '\u{202F}'
    ||| c == '\u{205F}'
    ||| c == '\u{3000}'
}

pub fn white_space(c: char) -> (r: bool)
    ensures
        r == is_white_space(c),
{
    ('\u{9}' <= c && c <= '\u{D}') || c == ' ' || c == '\u{85}' || c == '\u{A0}'
        || c == '\u{1680}' || ('\u{2000}' <= c && c <= '\u{200A}') || c == '\u{2028}'
        || c == '\u{2029}' || c == '\u{202F}' || c == '\u{205F}' || c == '\u{3000}'
}

/// Number of leading white-space characters of `s`.
pub open spec fn leading_white(s: Seq<char>) -> nat
    decreases s.len(),
{
    if s.len() > 0 && is_white_space(s[0]) {
        1 + leading_white(s.drop_first())
    } else {
        0
    }
}

/// Number of trailing white-space characters of `s`.
pub open spec fn trailing_white(s: Seq<char>) -> nat
    decreases s.len(),
{
    if s.len() > 0 && is_white_space(s.last()) {
        1 + trailing_white(s.drop_last())
    } else {
        0
    }
}

/// `str::trim`: `s` without its leading and trailing white space.
pub open spec fn trimmed(s: Seq<char>) -> Seq<char> {
    let a = leading_white(s) as int;
    let rest = s.subrange(a, s.len() as int);
    rest.subrange(0, rest.len() - trailing_white(rest))
}

proof fn lemma_leading_white(s: Seq<char>, i: int)
    requires
        0 <= i <= s.len(),
        forall|j: int| 0 <= j < i ==> is_white_space(#[trigger] s[j]),
        i < s.len() ==> !is_white_space(s[i]),
    ensures
        leading_white(s) == i,
    decreases i,
{
    if i > 0 {
        let t = s.drop_first();
        assert forall|j: int| 0 <= j < i - 1 implies is_white_space(#[trigger] t[j]) by {
            assert(t[j] == s[j + 1]);
        }
        if i < s.len() {
            assert(t[i - 1] == s[i]);
        }
        lemma_leading_white(t, i - 1);
    }
}

proof fn lemma_trailing_white(s: Seq<char>, e: int)
    requires
        0 <= e <= s.len(),
        forall|j: int| e <= j < s.len() ==> is_white_space(#[trigger] s[j]),
        e > 0 ==> !is_white_space(s[e - 1]),
    ensures
        trailing_white(s) == s.len() - e,
    decreases s.len() - e,
{
    if e < s.len() {
        let t = s.drop_last();
        assert forall|j: int| e <= j < t.len() implies is_white_space(#[trigger] t[j]) by {
            assert(t[j] == s[j]);
        }
        if e > 0 {
            assert(t[e - 1] == s[e - 1]);
        }
        lemma_trailing_white(t, e);
    }
}

/// Text with no white space at either end is its own trim.
pub proof fn lemma_trimmed_identity(s: Seq<char>)
    requires
        s.len() > 0 ==> !is_white_space(s[0]) && !is_white_space(s.last()),
    ensures
        trimmed(s) == s,
{
    lemma_leading_white(s, 0);
    assert(s.subrange(0, s.len() as int) =~= s);
    lemma_trailing_white(s, s.len() as int);
    assert(s.subrange(0, s.len() as int) =~= s);
}

/// White space around text that neither starts nor ends with white space is
/// exactly what trimming removes.
pub proof fn lemma_trimmed_surrounded(w1: Seq<char>, c: Seq<char>, w2: Seq<char>)
    requires
        forall|i: int| 0 <= i < w1.len() ==> is_white_space(#[trigger] w1[i]),
        forall|i: int| 0 <= i < w2.len() ==> is_white_space(#[trigger] w2[i]),
        c.len() > 0,
        !is_white_space(c[0]),
        !is_white_space(c.last()),
    ensures
        trimmed(w1 + c + w2) == c,
{
    let s = w1 + c + w2;
    let a = w1.len() as int;
    assert forall|j: int| 0 <= j < a implies is_white_space(#[trigger] s[j]) by {
        assert(s[j] == w1[j]);
    }
    assert(s[a] == c[0]);
    lemma_leading_white(s, a);
    let rest = s.subrange(a, s.len() as int);
    assert(rest =~= c + w2);
    let e = c.len() as int;
    assert forall|j: int| e <= j < rest.len() implies is_white_space(#[trigger] rest[j]) by {
        assert(rest[j] == w2[j - e]);
    }
    assert(rest[e - 1] == c.last());
    lemma_trailing_white(rest, e);
    assert(rest.subrange(0, e) =~= c);
}

/// Bounds `(a, e)` of `v` with leading and trailing white space removed, so
/// that `v[a..e]` is what `str::trim` gives.
pub fn trim_bounds(v: &Vec<char>) -> (r: (usize, usize))
    ensures
        r.0 <= r.1 <= v@.len(),
        v@.subrange(r.0 as int, r.1 as int) == trimmed(v@),
{
    let n = v.len();
    let mut a: usize = 0;
    while a < n && white_space(v[a])
        invariant
            n == v@.len(),
            a <= n,
            forall|j: int| 0 <= j < a ==> is_white_space(#[trigger] v@[j]),
        decreases n - a,
    {
        a = a + 1;
    }
    proof {
        lemma_leading_white(v@, a as int);
    }
    let ghost rest = v@.subrange(a as int, n as int);
    let mut e: usize = n;
    while e > a && white_space(v[e - 1])
        invariant
            n == v@.len(),
            a <= e <= n,
            rest == v@.subrange(a as int, n as int),
            forall|j: int| e <= j < n ==> is_white_space(#[trigger] v@[j]),
        decreases e - a,
    {
        e = e - 1;
    }
    proof {
        assert forall|j: int| e - a <= j < rest.len() implies is_white_space(#[trigger] rest[j]) by {
            assert(rest[j] == v@[j + a]);
        }
        if e > a {
            assert(rest[e - a - 1] == v@[e - 1]);
        }
        lemma_trailing_white(rest, (e - a) as int);
        assert(v@.subrange(a as int, e as int) =~= rest.subrange(0, rest.len() - trailing_white(rest)));
    }
    (a, e)
}

} // verus!
