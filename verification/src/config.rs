//! Appearance preferences and attraction-matrix share codes.
//!
//! A share code is the standard base64 encoding of one byte holding the
//! species count `n` followed by the `n × n` active attraction values, each
//! quantised to an `i8` level in `[-127, 127]` and stored as its two's
//! complement byte.

use vstd::prelude::*;
use vstd::string::*;
use base64::Engine;
use crate::simulation::{MAX_SPECIES, ATTRACTION_LEN};
use crate::text::{
    chars_of, trim_bounds, trimmed, usize_to_text, decimal_text, is_white_space,
    lemma_trimmed_identity, lemma_trimmed_surrounded, parse_usize_range, usize_text_value,
    eq_ignore_ascii_case, chars_eq_ignore_ascii_case,
};

verus! {

// ── Appearance ───────────────────────────────────────────────────────────────

/// UI colour theme choices shown in the Appearance panel.
#[derive(Clone, Copy, PartialEq, Eq, Structural, Debug)]
pub enum UiTheme {
    /// Follow the OS dark/light preference.
    System,
    Dark,
    Light,
    Midnight,
    Nord,
    Catppuccin,
}

impl Default for UiTheme {
    fn default() -> (r: Self)
        ensures
            r == UiTheme::System,
    {
        UiTheme::System
    }
}

/// Persisted appearance preferences (theme and world background colour).
#[derive(Clone, Copy, Debug)]
pub struct AppearanceConfig {
    pub ui_theme: UiTheme,
    /// World background colour as sRGB bytes `[R, G, B]`.
    pub bg_color: [u8; 3],
}

/// The default world background, a near-black blue.
pub fn default_bg() -> (r: [u8; 3])
    ensures
        r@ == seq![3u8, 3u8, 5u8],
{
    let r = [3u8, 3u8, 5u8];
    assert(r@ =~= seq![3u8, 3u8, 5u8]);
    r
}

impl Default for AppearanceConfig {
    fn default() -> (r: Self)
        ensures
            r.ui_theme == UiTheme::System,
            r.bg_color@ == seq![3u8, 3u8, 5u8],
    {
        AppearanceConfig { ui_theme: UiTheme::System, bg_color: default_bg() }
    }
}

// ── Preset files ─────────────────────────────────────────────────────────────

/// A file name the presets directory scan loads: it has the extension
/// `toml` (a non-empty stem, then `.toml`) and does not start with `_`.
pub open spec fn is_preset_file_name(name: Seq<char>) -> bool {
    let n = name.len() as int;
    &&& n > 5
    &&& name[n - 5] == '.'
    &&& name[n - 4] == 't'
    &&& name[n - 3] == 'o'
    &&& name[n - 2] == 'm'
    &&& name[n - 1] == 'l'
    &&& name[0] != '_'
}

/// A name longer than `.toml` that ends in `.toml` is loaded exactly when
/// its first character is not `_`; no other character matters.  Names of
/// five characters or fewer, and names with another ending, are never
/// loaded.
pub proof fn lemma_preset_file_rule(name: Seq<char>)
    ensures
        name.len() > 5 && name.subrange(name.len() - 5, name.len() as int) == seq![
            '.',
            't',
            'o',
            'm',
            'l',
        ] ==> (is_preset_file_name(name) <==> name[0] != '_'),
        name.len() <= 5 ==> !is_preset_file_name(name),
        is_preset_file_name(name) ==> name.subrange(name.len() - 5, name.len() as int) == seq![
            '.',
            't',
            'o',
            'm',
            'l',
        ],
{
    let n = name.len() as int;
    if n > 5 {
        let tail = name.subrange(n - 5, n);
        assert(tail[0] == name[n - 5] && tail[1] == name[n - 4] && tail[2] == name[n - 3] && tail[3]
            == name[n - 2] && tail[4] == name[n - 1]);
        if is_preset_file_name(name) {
            assert(tail =~= seq!['.', 't', 'o', 'm', 'l']);
        }
    }
}

/// Whether the presets directory scan loads the file named `file_name`.
pub fn preset_file_accepted(file_name: &str) -> (r: bool)
    ensures
        r == is_preset_file_name(file_name@),
        file_name@.len() > 5 && file_name@.subrange(file_name@.len() - 5, file_name@.len() as int)
            == seq!['.', 't', 'o', 'm', 'l'] ==> (r <==> file_name@[0] != '_'),
        file_name@.len() <= 5 ==> !r,
{
    proof {
        lemma_preset_file_rule(file_name@);
    }
    let v = chars_of(file_name);
    let n = v.len();
    if n <= 5 {
        return false;
    }
    v[n - 5] == '.' && v[n - 4] == 't' && v[n - 3] == 'o' && v[n - 2] == 'm' && v[n - 1] == 'l'
        && v[0] != '_'
}

/// The placeholder name given to exported presets.
pub open spec fn exported_name() -> Seq<char> {
    seq!['e', 'x', 'p', 'o', 'r', 't', 'e', 'd']
}

/// Name a loaded preset shows: its own name, unless that is empty or the
/// export placeholder and the file has a stem, in which case the stem.
pub open spec fn shown_preset_name(name: Seq<char>, stem: Option<Seq<char>>) -> Seq<char> {
    match stem {
        Some(s) => if name == exported_name() || name.len() == 0 {
            s
        } else {
            name
        },
        None => name,
    }
}

/// Name for a preset loaded from a file with stem `file_stem`.
pub fn preset_display_name(name: &str, file_stem: Option<&str>) -> (r: String)
    ensures
        r@ == shown_preset_name(
            name@,
            match file_stem {
                Some(s) => Some(s@),
                None => None,
            },
        ),
        file_stem is None ==> r@ == name@,
        file_stem matches Some(s) ==> (r@ == s@ <== (name@.len() == 0 || name@ == seq![
            'e',
            'x',
            'p',
            'o',
            'r',
            't',
            'e',
            'd',
        ])),
        name@.len() > 0 && name@ != seq!['e', 'x', 'p', 'o', 'r', 't', 'e', 'd'] ==> r@ == name@,
{
    let v = chars_of(name);
    let placeholder = v.len() == 8 && v[0] == 'e' && v[1] == 'x' && v[2] == 'p' && v[3] == 'o'
        && v[4] == 'r' && v[5] == 't' && v[6] == 'e' && v[7] == 'd';
    proof {
        if placeholder {
            assert(v@ =~= exported_name());
        }
    }
    match file_stem {
        Some(s) => if placeholder || v.len() == 0 {
            s.to_owned()
        } else {
            name.to_owned()
        },
        None => name.to_owned(),
    }
}

/// `--preset` names a preset by its 0-based index when it parses as one
/// that is in range.
pub open spec fn preset_index_by_number(arg: Seq<char>, count: nat) -> Option<usize> {
    match usize_text_value(arg) {
        Some(i) => if i < count {
            Some(i)
        } else {
            None
        },
        None => None,
    }
}

/// Find the preset a `--preset` argument names: a 0-based index in range,
/// else the first preset whose name equals the argument ignoring ASCII case.
pub fn find_preset(arg: &str, names: &Vec<String>) -> (r: Option<usize>)
    ensures
        match preset_index_by_number(arg@, names@.len()) {
            Some(i) => r == Some(i),
            None => match r {
                Some(i) => i < names@.len() && eq_ignore_ascii_case(names@[i as int]@, arg@)
                    && forall|j: int|
                    0 <= j < i ==> !eq_ignore_ascii_case(#[trigger] names@[j]@, arg@),
                None => forall|j: int|
                    0 <= j < names@.len() ==> !eq_ignore_ascii_case(#[trigger] names@[j]@, arg@),
            },
        },
{
    let v = chars_of(arg);
    proof {
        assert(v@.subrange(0, v@.len() as int) =~= arg@);
    }
    let parsed = parse_usize_range(&v, 0, v.len());
    match parsed {
        Some(i) => {
            if i < names.len() {
                return Some(i);
            }
        },
        None => {},
    }
    assert(preset_index_by_number(arg@, names@.len()) is None);
    let mut k: usize = 0;
    while k < names.len()
        invariant
            k <= names@.len(),
            v@ == arg@,
            preset_index_by_number(arg@, names@.len()) is None,
            forall|j: int| 0 <= j < k ==> !eq_ignore_ascii_case(#[trigger] names@[j]@, arg@),
        decreases names.len() - k,
    {
        let w = chars_of(names[k].as_str());
        if chars_eq_ignore_ascii_case(&w, &v) {
            return Some(k);
        }
        k = k + 1;
    }
    None
}

// ── base64 ───────────────────────────────────────────────────────────────────

/// The character of the standard base64 alphabet for a six-bit value:
/// `A`–`Z`, `a`–`z`, `0`–`9`, `+`, `/`.
pub open spec fn base64_digit(v: int) -> char {
    if v < 26 {
        (65 + v) as char
    } else if v < 52 {
        (97 + v - 26) as char
    } else if v < 62 {
        (48 + v - 52) as char
    } else if v == 62 {
        '+'
    } else {
        '/'
    }
}

/// The text that the standard, padded base64 engine writes for `bytes`
/// (RFC 4648): each group of three bytes becomes four alphabet characters,
/// and a final group of one or two bytes is padded with `=` to four.
pub open spec fn base64_text(bytes: Seq<u8>) -> Seq<char>
    decreases bytes.len(),
{
    if bytes.len() == 0 {
        Seq::empty()
    } else if bytes.len() == 1 {
        let b0 = bytes[0] as int;
        seq![base64_digit(b0 / 4), base64_digit((b0 % 4) * 16), '=', '=']
    } else if bytes.len() == 2 {
        let b0 = bytes[0] as int;
        let b1 = bytes[1] as int;
        seq![
            base64_digit(b0 / 4),
            base64_digit((b0 % 4) * 16 + b1 / 16),
            base64_digit((b1 % 16) * 4),
            '=',
        ]
    } else {
        let b0 = bytes[0] as int;
        let b1 = bytes[1] as int;
        let b2 = bytes[2] as int;
        seq![
            base64_digit(b0 / 4),
            base64_digit((b0 % 4) * 16 + b1 / 16),
            base64_digit((b1 % 16) * 4 + b2 / 64),
            base64_digit(b2 % 64),
        ] + base64_text(bytes.subrange(3, bytes.len() as int))
    }
}

/// The bytes that the standard, padded base64 engine reads from `text`: the
/// bytes whose canonical encoding `text` is, or `None` when it is no
/// canonical encoding (the engine requires canonical padding, zero trailing
/// bits and alphabet characters only).
pub open spec fn base64_bytes(text: Seq<char>) -> Option<Seq<u8>> {
    if exists|b: Seq<u8>| #[trigger] base64_text(b) == text {
        Some(choose|b: Seq<u8>| #[trigger] base64_text(b) == text)
    } else {
        None
    }
}

proof fn lemma_base64_digit(v: int, w: int)
    requires
        0 <= v < 64,
        0 <= w < 64,
    ensures
        base64_digit(v) != '=',
        base64_digit(v) == base64_digit(w) ==> v == w,
{
}

/// The length of a standard base64 text: four characters for every started
/// group of three bytes.
pub proof fn lemma_base64_text_len(bytes: Seq<u8>)
    ensures
        base64_text(bytes).len() == 4 * ((bytes.len() + 2) / 3),
    decreases bytes.len(),
{
    if bytes.len() >= 3 {
        lemma_base64_text_len(bytes.subrange(3, bytes.len() as int));
    }
}

/// Different bytes have different standard base64 texts.
pub proof fn lemma_base64_text_injective(a: Seq<u8>, b: Seq<u8>)
    requires
        base64_text(a) == base64_text(b),
    ensures
        a == b,
    decreases a.len(),
{
    let t = base64_text(a);
    lemma_base64_text_len(a);
    lemma_base64_text_len(b);
    if a.len() == 0 || b.len() == 0 {
        assert(a.len() == 0 && b.len() == 0);
        assert(a =~= b);
        return;
    }
    let a0 = a[0] as int;
    let b0 = b[0] as int;
    lemma_base64_digit(a0 / 4, b0 / 4);
    assert(t[0] == base64_digit(a0 / 4));
    assert(base64_text(b)[0] == base64_digit(b0 / 4));
    if a.len() == 1 || b.len() == 1 {
        // Only a single byte leaves the third character as padding.
        if a.len() >= 2 {
            let x = if a.len() == 2 {
                (a[1] as int % 16) * 4
            } else {
                (a[1] as int % 16) * 4 + a[2] as int / 64
            };
            lemma_base64_digit(x, 0);
            assert(t[2] == base64_digit(x));
            assert(base64_text(b)[2] == '=');
            assert(false);
        }
        if b.len() >= 2 {
            let x = if b.len() == 2 {
                (b[1] as int % 16) * 4
            } else {
                (b[1] as int % 16) * 4 + b[2] as int / 64
            };
            lemma_base64_digit(x, 0);
            assert(base64_text(b)[2] == base64_digit(x));
            assert(t[2] == '=');
            assert(false);
        }
        lemma_base64_digit((a0 % 4) * 16, (b0 % 4) * 16);
        assert(t[1] == base64_digit((a0 % 4) * 16));
        assert(base64_text(b)[1] == base64_digit((b0 % 4) * 16));
        assert(a =~= b);
        return;
    }
    let a1 = a[1] as int;
    let b1 = b[1] as int;
    lemma_base64_digit((a0 % 4) * 16 + a1 / 16, (b0 % 4) * 16 + b1 / 16);
    assert(t[1] == base64_digit((a0 % 4) * 16 + a1 / 16));
    assert(base64_text(b)[1] == base64_digit((b0 % 4) * 16 + b1 / 16));
    assert(a0 == b0 && a1 / 16 == b1 / 16);
    if a.len() == 2 || b.len() == 2 {
        // Only two bytes leave the fourth character as padding.
        if a.len() >= 3 {
            let a2 = a[2] as int;
            lemma_base64_digit(a2 % 64, 0);
            assert(t[3] == base64_digit(a2 % 64));
            assert(base64_text(b)[3] == '=');
            assert(false);
        }
        if b.len() >= 3 {
            let b2 = b[2] as int;
            lemma_base64_digit(b2 % 64, 0);
            assert(base64_text(b)[3] == base64_digit(b2 % 64));
            assert(t[3] == '=');
            assert(false);
        }
        lemma_base64_digit((a1 % 16) * 4, (b1 % 16) * 4);
        assert(t[2] == base64_digit((a1 % 16) * 4));
        assert(base64_text(b)[2] == base64_digit((b1 % 16) * 4));
        assert(a =~= b);
        return;
    }
    let a2 = a[2] as int;
    let b2 = b[2] as int;
    lemma_base64_digit((a1 % 16) * 4 + a2 / 64, (b1 % 16) * 4 + b2 / 64);
    lemma_base64_digit(a2 % 64, b2 % 64);
    assert(t[2] == base64_digit((a1 % 16) * 4 + a2 / 64));
    assert(base64_text(b)[2] == base64_digit((b1 % 16) * 4 + b2 / 64));
    assert(t[3] == base64_digit(a2 % 64));
    assert(base64_text(b)[3] == base64_digit(b2 % 64));
    assert(a1 == b1 && a2 == b2);
    let ra = a.subrange(3, a.len() as int);
    let rb = b.subrange(3, b.len() as int);
    assert(base64_text(ra) =~= t.subrange(4, t.len() as int));
    assert(base64_text(rb) =~= base64_text(b).subrange(4, t.len() as int));
    lemma_base64_text_injective(ra, rb);
    assert(a =~= b) by {
        assert forall|i: int| 0 <= i < a.len() implies a[i] == b[i] by {
            if i >= 3 {
                assert(a[i] == ra[i - 3]);
                assert(b[i] == rb[i - 3]);
            }
        }
    }
}

/// Decoding a standard base64 text gives back the bytes it encodes.
pub proof fn lemma_base64_bytes_of_text(bytes: Seq<u8>)
    ensures
        base64_bytes(base64_text(bytes)) == Some(bytes),
{
    let t = base64_text(bytes);
    assert(exists|b: Seq<u8>| #[trigger] base64_text(b) == t);
    let c = choose|b: Seq<u8>| #[trigger] base64_text(b) == t;
    lemma_base64_text_injective(c, bytes);
}

/// A character of the standard base64 alphabet or the `=` pad.
pub open spec fn is_base64_char(c: char) -> bool {
    ||| ('A' <= c && c <= 'Z')
    ||| ('a' <= c && c <= 'z')
    ||| ('0' <= c && c <= '9')
    ||| c == '+'
    ||| c == '/'
    ||| c == '='
}

/// Every character of a standard base64 text is an alphabet character or
/// the `=` pad.
proof fn lemma_base64_text_alphabet(bytes: Seq<u8>)
    ensures
        forall|i: int|
            0 <= i < base64_text(bytes).len() ==> is_base64_char(#[trigger] base64_text(bytes)[i]),
    decreases bytes.len(),
{
    if bytes.len() >= 3 {
        let rest = bytes.subrange(3, bytes.len() as int);
        lemma_base64_text_alphabet(rest);
        assert forall|i: int|
            0 <= i < base64_text(bytes).len() implies is_base64_char(
            #[trigger] base64_text(bytes)[i],
        ) by {
            if i >= 4 {
                assert(base64_text(bytes)[i] == base64_text(rest)[i - 4]);
            }
        }
    }
}

/// `base64::engine::general_purpose::STANDARD.encode`: the standard,
/// padded encoding [`base64_text`] of the bytes.
#[verifier::external_body]
pub(crate) fn base64_encode(bytes: &Vec<u8>) -> (r: String)
    requires
        bytes@.len() <= 3 * (usize::MAX / 4 - 1),
    ensures
        r@ == base64_text(bytes@),
{
    base64::engine::general_purpose::STANDARD.encode(bytes)
}

/// `base64::engine::general_purpose::STANDARD.decode`: it accepts exactly
/// the canonical padded encodings, and gives the bytes whose encoding the
/// text is.  On failure the error's `Display` text is returned; what that
/// text says is left unstated.
#[verifier::external_body]
pub(crate) fn base64_decode(text: &str) -> (r: Result<Vec<u8>, String>)
    ensures
        match r {
            Ok(v) => base64_text(v@) == text@,
            Err(_) => base64_bytes(text@) is None,
        },
{
    match base64::engine::general_purpose::STANDARD.decode(text) {
        Ok(v) => Ok(v),
        Err(e) => Err(e.to_string()),
    }
}

// ── Share codes ──────────────────────────────────────────────────────────────

/// The active `n × n` block of a full attraction layout, row-major.
pub open spec fn active_levels(n: nat, levels: Seq<i8>) -> Seq<i8> {
    Seq::new(n * n, |k: int| levels[(k / n as int) * MAX_SPECIES as int + k % n as int])
}

/// The bytes a share code carries for `n` species.
pub open spec fn share_code_bytes(n: nat, levels: Seq<i8>) -> Seq<u8> {
    seq![n as u8] + active_levels(n, levels).map_values(|v: i8| v as u8)
}

/// What a share code's bytes decode to: the species count and the levels,
/// or the message for the first check that fails.
pub open spec fn share_code_payload(b: Seq<u8>) -> Result<(usize, Seq<i8>), Seq<char>> {
    if b.len() == 0 {
        Err("empty code"@)
    } else if b[0] == 0 || b[0] > MAX_SPECIES {
        Err("invalid species count "@ + decimal_text(b[0] as nat))
    } else if b.len() != 1 + b[0] * b[0] {
        Err(
            "expected "@ + decimal_text((1 + b[0] * b[0]) as nat) + " bytes, got "@
                + decimal_text(b.len()),
        )
    } else {
        Ok((b[0] as usize, b.drop_first().map_values(|x: u8| x as i8)))
    }
}

/// What `decode_matrix` gives for `code`: `None` when the trimmed code is not
/// standard base64, else the decoded payload or its message.
pub open spec fn decoded_share_code(code: Seq<char>) -> Option<
    Result<(usize, Seq<i8>), Seq<char>>,
> {
    match base64_bytes(trimmed(code)) {
        None => None,
        Some(b) => Some(share_code_payload(b)),
    }
}

proof fn lemma_i8_byte_round_trip(x: i8)
    by (bit_vector)
    ensures
        (x as u8) as i8 == x,
{
}

proof fn lemma_flat_index(n: int, i: int, j: int)
    requires
        0 < n,
        0 <= j < n,
        0 <= i,
    ensures
        (i * n + j) / n == i,
        (i * n + j) % n == j,
{
    vstd::arithmetic::div_mod::lemma_fundamental_div_mod_converse(i * n + j, n, i, j);
}

/// Reading back the bytes of a share code gives the species count and the
/// active block of levels: decoding undoes encoding.
pub proof fn lemma_share_code_payload_round_trip(n: nat, levels: Seq<i8>)
    requires
        1 <= n <= MAX_SPECIES,
        levels.len() == ATTRACTION_LEN,
    ensures
        share_code_payload(share_code_bytes(n, levels)) == Ok::<(usize, Seq<i8>), Seq<char>>(
            (n as usize, active_levels(n, levels)),
        ),
{
    let b = share_code_bytes(n, levels);
    let act = active_levels(n, levels);
    let back = b.drop_first().map_values(|x: u8| x as i8);
    assert(b[0] == n as u8);
    assert(b.drop_first() =~= act.map_values(|v: i8| v as u8));
    assert forall|k: int| 0 <= k < act.len() implies #[trigger] back[k] == act[k] by {
        lemma_i8_byte_round_trip(act[k]);
    }
    assert(back =~= act);
    assert(n * n <= 256) by (nonlinear_arith)
        requires
            n <= 16,
    ;
}

/// A share code pasted with white space around it decodes exactly as the
/// bare code does.
pub proof fn lemma_share_code_ignores_surrounding_white_space(
    w1: Seq<char>,
    code: Seq<char>,
    w2: Seq<char>,
)
    requires
        forall|i: int| 0 <= i < w1.len() ==> is_white_space(#[trigger] w1[i]),
        forall|i: int| 0 <= i < w2.len() ==> is_white_space(#[trigger] w2[i]),
        code.len() > 0,
        !is_white_space(code[0]),
        !is_white_space(code.last()),
    ensures
        decoded_share_code(w1 + code + w2) == decoded_share_code(code),
{
    lemma_trimmed_surrounded(w1, code, w2);
    lemma_trimmed_identity(code);
}

/// A share code pasted with line endings, tabs, spaces or any other Unicode
/// white space around it (U+0009–U+000D, U+0020, U+0085, U+00A0, U+1680,
/// U+2000–U+200A, U+2028, U+2029, U+202F, U+205F, U+3000) decodes exactly
/// as the bare code does; in particular `code + "\r\n"` decodes as `code`.
pub proof fn lemma_share_code_ignores_line_endings(w1: Seq<char>, code: Seq<char>, w2: Seq<char>)
    requires
        forall|i: int|
            0 <= i < w1.len() ==> {
                let c = #[trigger] w1[i];
                ||| ('\u{9}' <= c && c <= '\u{D}')
                ||| c == ' ' || c == '\u{85}' || c == '\u{A0}' || c == '\u{1680}'
                ||| ('\u{2000}' <= c && c <= '\u{200A}')
                ||| c == '\u{2028}' || c == '\u{2029}' || c == '\u{202F}' || c == '\u{205F}'
                ||| c == '\u{3000}'
            },
        forall|i: int|
            0 <= i < w2.len() ==> {
                let c = #[trigger] w2[i];
                ||| ('\u{9}' <= c && c <= '\u{D}')
                ||| c == ' ' || c == '\u{85}' || c == '\u{A0}' || c == '\u{1680}'
                ||| ('\u{2000}' <= c && c <= '\u{200A}')
                ||| c == '\u{2028}' || c == '\u{2029}' || c == '\u{202F}' || c == '\u{205F}'
                ||| c == '\u{3000}'
            },
        code.len() > 0,
        is_base64_char(code[0]),
        is_base64_char(code.last()),
    ensures
        decoded_share_code(w1 + code + w2) == decoded_share_code(code),
        decoded_share_code(code + seq!['\r', '\n']) == decoded_share_code(code),
{
    assert forall|i: int| 0 <= i < w1.len() implies is_white_space(#[trigger] w1[i]) by {}
    assert forall|i: int| 0 <= i < w2.len() implies is_white_space(#[trigger] w2[i]) by {}
    lemma_share_code_ignores_surrounding_white_space(w1, code, w2);
    let crlf = seq!['\r', '\n'];
    assert forall|i: int| 0 <= i < crlf.len() implies is_white_space(#[trigger] crlf[i]) by {}
    let none: Seq<char> = Seq::empty();
    lemma_share_code_ignores_surrounding_white_space(none, code, crlf);
    assert(none + code + crlf =~= code + crlf);
}

/// Encode the active `species × species` block of quantised attraction
/// `levels` (full 16-column layout) as a base64 share code.
pub fn encode_matrix(species: usize, levels: &[i8; 272]) -> (r: String)
    requires
        species <= MAX_SPECIES,
    ensures
        r@ == base64_text(share_code_bytes(species as nat, levels@)),
        1 <= species ==> decoded_share_code(r@) == Some(
            Ok::<(usize, Seq<i8>), Seq<char>>((species, active_levels(species as nat, levels@))),
        ),
{
    let mut bytes: Vec<u8> = Vec::new();
    bytes.push(species as u8);
    let ghost n = species as nat;
    let ghost act = active_levels(n, levels@).map_values(|v: i8| v as u8);
    let mut i: usize = 0;
    while i < species
        invariant
            species <= MAX_SPECIES,
            n == species,
            i <= species,
            act == active_levels(n, levels@).map_values(|v: i8| v as u8),
            bytes@ == seq![species as u8] + act.subrange(0, (i * species) as int),
        decreases species - i,
    {
        let mut j: usize = 0;
        while j < species
            invariant
                species <= MAX_SPECIES,
                n == species,
                i < species,
                j <= species,
                act == active_levels(n, levels@).map_values(|v: i8| v as u8),
                bytes@ == seq![species as u8] + act.subrange(0, (i * species + j) as int),
            decreases species - j,
        {
            proof {
                lemma_flat_index(species as int, i as int, j as int);
                assert(i * species + j < species * species) by (nonlinear_arith)
                    requires
                        i < species,
                        j < species,
                ;
                assert(i * MAX_SPECIES + j < 272) by (nonlinear_arith)
                    requires
                        i < species,
                        j < species,
                        species <= 16,
                ;
            }
            let b = #[verifier::truncate] (levels[i * MAX_SPECIES + j] as u8);
            bytes.push(b);
            proof {
                let k = (i * species + j) as int;
                assert(act[k] == b);
                assert(act.subrange(0, k + 1) =~= act.subrange(0, k).push(b));
            }
            j = j + 1;
        }
        proof {
            assert((i + 1) * species == i * species + species) by (nonlinear_arith);
        }
        i = i + 1;
    }
    proof {
        assert(act.subrange(0, (species * species) as int) =~= act);
        assert(bytes@ =~= share_code_bytes(n, levels@));
        assert(species * species <= 256) by (nonlinear_arith)
            requires
                species <= 16,
        ;
    }
    let r = base64_encode(&bytes);
    proof {
        lemma_base64_text_alphabet(bytes@);
        lemma_base64_bytes_of_text(bytes@);
        if 1 <= species {
            if r@.len() > 0 {
                assert(is_base64_char(r@[0]));
                assert(is_base64_char(r@[r@.len() - 1]));
            }
            lemma_trimmed_identity(r@);
            lemma_share_code_payload_round_trip(n, levels@);
        }
    }
    r
}

/// Read the species count and the row-major `n × n` quantised levels from
/// the decoded bytes of a share code.
pub fn share_code_levels(bytes: &[u8]) -> (r: Result<(usize, Vec<i8>), String>)
    ensures
        match share_code_payload(bytes@) {
            Ok(p) => r matches Ok(q) && q.0 == p.0 && q.1@ == p.1,
            Err(m) => r matches Err(e) && e@ == m,
        },
{
    if bytes.len() == 0 {
        return Err(String::from_str("empty code"));
    }
    let n = bytes[0] as usize;
    if n == 0 || n > MAX_SPECIES {
        let mut m = String::from_str("invalid species count ");
        m.append(usize_to_text(n).as_str());
        return Err(m);
    }
    assert(n * n <= 256) by (nonlinear_arith)
        requires
            n <= 16,
    ;
    let expected = 1 + n * n;
    if bytes.len() != expected {
        let mut m = String::from_str("expected ");
        m.append(usize_to_text(expected).as_str());
        m.append(" bytes, got ");
        m.append(usize_to_text(bytes.len()).as_str());
        return Err(m);
    }
    let mut values: Vec<i8> = Vec::new();
    let mut i: usize = 1;
    while i < bytes.len()
        invariant
            1 <= i <= bytes@.len(),
            values@ == bytes@.subrange(1, i as int).map_values(|x: u8| x as i8),
        decreases bytes.len() - i,
    {
        values.push(#[verifier::truncate] (bytes[i] as i8));
        proof {
            assert(bytes@.subrange(1, i + 1) =~= bytes@.subrange(1, i as int).push(bytes@[i as int]));
            assert(values@ =~= bytes@.subrange(1, i + 1).map_values(|x: u8| x as i8));
        }
        i = i + 1;
    }
    proof {
        assert(bytes@.subrange(1, bytes@.len() as int) =~= bytes@.drop_first());
    }
    Ok((n, values))
}

/// Decode a share code produced by [`encode_matrix`] into the species count
/// and the row-major `n × n` quantised levels.  Surrounding white space is
/// ignored; text that is not standard base64 gives the decoder's message.
pub fn decode_matrix(code: &str) -> (r: Result<(usize, Vec<i8>), String>)
    ensures
        match decoded_share_code(code@) {
            None => r is Err,
            Some(Ok(p)) => r matches Ok(q) && q.0 == p.0 && q.1@ == p.1,
            Some(Err(m)) => r matches Err(e) && e@ == m,
        },
{
    let v = chars_of(code);
    let (a, e) = trim_bounds(&v);
    let t = code.substring_char(a, e);
    match base64_decode(t) {
        Ok(bytes) => {
            proof {
                lemma_base64_bytes_of_text(bytes@);
            }
            share_code_levels(bytes.as_slice())
        },
        Err(m) => Err(m),
    }
}

} // verus!
