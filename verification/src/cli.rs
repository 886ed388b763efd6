//! Command-line value parsing.

use vstd::prelude::*;
use vstd::string::*;
use crate::text::{chars_of, find_char, first_index_of, parse_u32_range, u32_text_value, debug_quoted, str_debug_text};

verus! {

/// The message `parse_world_size` gives for `s`, or the parsed size.
///
/// `s` is split at its first `x`; both halves must parse as `u32` (an
/// optional `+` and decimal digits) and neither may be zero.
pub open spec fn world_size_result(s: Seq<char>) -> Result<(u32, u32), Seq<char>> {
    let k = first_index_of(s, 'x');
    if k < 0 {
        Err("expected WxH (e.g. 1920x1080), got "@ + str_debug_text(s))
    } else {
        let w = s.subrange(0, k);
        let h = s.subrange(k + 1, s.len() as int);
        match u32_text_value(w) {
            None => Err("invalid width "@ + str_debug_text(w) + " in "@ + str_debug_text(s)),
            Some(wv) => match u32_text_value(h) {
                None => Err("invalid height "@ + str_debug_text(h) + " in "@ + str_debug_text(s)),
                Some(hv) => if wv == 0 || hv == 0 {
                    Err("world size must be non-zero, got "@ + str_debug_text(s))
                } else {
                    Ok((wv, hv))
                },
            },
        }
    }
}

/// A parsed world size is never zero in either dimension: every size that
/// parses has a positive width and a positive height, and a text in which
/// either half reads as zero is refused.
pub proof fn lemma_world_size_is_positive(s: Seq<char>)
    ensures
        world_size_result(s) matches Ok(p) ==> p.0 > 0 && p.1 > 0,
        ({
            let k = first_index_of(s, 'x');
            k >= 0 && (u32_text_value(s.subrange(0, k)) == Some(0u32) || u32_text_value(
                s.subrange(k + 1, s.len() as int),
            ) == Some(0u32)) ==> world_size_result(s) is Err
        }),
{
}

/// Parse a world size written `WxH` (e.g. `1920x1080`).
pub fn parse_world_size(s: &str) -> (r: Result<(u32, u32), String>)
    ensures
        match r {
            Ok(p) => world_size_result(s@) == Ok::<(u32, u32), Seq<char>>(p),
            Err(m) => world_size_result(s@) == Err::<(u32, u32), Seq<char>>(m@),
        },
        r matches Ok(p) ==> p.0 > 0 && p.1 > 0,
{
    proof {
        lemma_world_size_is_positive(s@);
    }
    let v = chars_of(s);
    let qs = debug_quoted(s);
    let k = match find_char(&v, 'x') {
        None => {
            let mut m = "expected WxH (e.g. 1920x1080), got ".to_owned();
            m.append(qs.as_str());
            return Err(m);
        },
        Some(k) => k,
    };
    let n = v.len();
    let w = match parse_u32_range(&v, 0, k) {
        None => {
            let ws = s.substring_char(0, k);
            let mut m = "invalid width ".to_owned();
            m.append(debug_quoted(ws).as_str());
            m.append(" in ");
            m.append(qs.as_str());
            return Err(m);
        },
        Some(w) => w,
    };
    let h = match parse_u32_range(&v, k + 1, n) {
        None => {
            let hs = s.substring_char(k + 1, n);
            let mut m = "invalid height ".to_owned();
            m.append(debug_quoted(hs).as_str());
            m.append(" in ");
            m.append(qs.as_str());
            return Err(m);
        },
        Some(h) => h,
    };
    if w == 0 || h == 0 {
        let mut m = "world size must be non-zero, got ".to_owned();
        m.append(qs.as_str());
        return Err(m);
    }
    Ok((w, h))
}

} // verus!
