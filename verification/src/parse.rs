//! Parsing wire text back into a document.
//!
//! `spec_parse` is the mathematical parser: strict JSON — no trailing
//! garbage, no leading zeros, no raw control characters in strings.  A
//! high-surrogate escape followed by a low-surrogate escape combines to
//! one character; a lone surrogate escape is rejected.  The executable
//! parser returns exactly what `spec_parse` says, as a `Json` document.
//!
//! The recursive spec functions guard every recursive call with `step` /
//! `bound`, which pin the next index into a range that shrinks; the
//! progress lemmas in `crate::parse_props` show the guards never alter a
//! successful parse.

use vstd::prelude::*;

use crate::json::{int_form, int_form_fits, int_form_val, is_digit, num_end, JVal};

verus! {
pub open spec fn is_ws(c: char) -> bool {
    c == ' ' || c == '\t' || c == '\n' || c == '\r'
}

/// End of the run of whitespace that starts at `i`.
pub open spec fn ws_end(s: Seq<char>, i: int) -> int
    decreases s.len() - i,
{
    if 0 <= i && i < s.len() && is_ws(s[i]) {
        ws_end(s, i + 1)
    } else {
        i
    }
}

pub open spec fn is_hex(c: char) -> bool {
    is_digit(c) || (0x61 <= (c as u32) && (c as u32) <= 0x66) || (0x41 <= (c as u32) && (c as u32) <= 0x46)
}

pub open spec fn hex_val(c: char) -> int {
    if c == 'a' || c == 'A' { 10 }
    else if c == 'b' || c == 'B' { 11 }
    else if c == 'c' || c == 'C' { 12 }
    else if c == 'd' || c == 'D' { 13 }
    else if c == 'e' || c == 'E' { 14 }
    else if c == 'f' || c == 'F' { 15 }
    else { crate::json::digit_val(c) }
}

/// Whether four hexadecimal digits stand at `i`.
pub open spec fn hex4_ok(s: Seq<char>, i: int) -> bool {
    i + 4 <= s.len() && is_hex(s[i]) && is_hex(s[i + 1]) && is_hex(s[i + 2]) && is_hex(s[i + 3])
}

/// Value of the four hexadecimal digits at `i`.
pub open spec fn hex4_val(s: Seq<char>, i: int) -> int {
    hex_val(s[i]) * 0x1000 + hex_val(s[i + 1]) * 0x100 + hex_val(s[i + 2]) * 0x10 + hex_val(s[i + 3])
}

/// Keeps an index inside `[lo, hi]`; identity whenever the caller's index
/// already lies there.
pub open spec fn bound(lo: int, j: int, hi: int) -> int {
    if j < lo { lo } else if j > hi { hi } else { j }
}

/// Forces strict progress past `i`, capped at `hi`; identity whenever the
/// caller's index already lies in `(i, hi]`.
pub open spec fn step(i: int, j: int, hi: int) -> int {
    if j <= i { i + 1 } else if j > hi { hi } else { j }
}

/// Prepends a character to a successful string parse.
pub open spec fn str_cons(c: char, r: Option<(Seq<char>, int)>) -> Option<(Seq<char>, int)> {
    match r {
        Option::None => Option::None,
        Option::Some((t, j)) => Option::Some((seq![c] + t, j)),
    }
}

/// Parses the body of a string, from just after the opening quote through
/// the closing quote.
pub open spec fn parse_str(s: Seq<char>, i: int) -> Option<(Seq<char>, int)>
    decreases s.len() - i,
{
    if i < 0 || i >= s.len() {
        Option::None
    } else if s[i] == '"' {
        Option::Some((Seq::empty(), i + 1))
    } else if s[i] == '\\' {
        if i + 2 > s.len() {
            Option::None
        } else {
            let e = s[i + 1];
            if e == '"' || e == '\\' || e == '/' {
                str_cons(e, parse_str(s, i + 2))
            } else if e == 'b' {
                str_cons('\u{8}', parse_str(s, i + 2))
            } else if e == 'f' {
                str_cons('\u{c}', parse_str(s, i + 2))
            } else if e == 'n' {
                str_cons('\n', parse_str(s, i + 2))
            } else if e == 'r' {
                str_cons('\r', parse_str(s, i + 2))
            } else if e == 't' {
                str_cons('\t', parse_str(s, i + 2))
            } else if e == 'u' {
                if hex4_ok(s, i + 2) {
                    let c1 = hex4_val(s, i + 2);
                    if c1 < 0xD800 || c1 > 0xDFFF {
                        str_cons((c1 as u32) as char, parse_str(s, i + 6))
                    } else if c1 <= 0xDBFF {
                        if i + 12 <= s.len() && s[i + 6] == '\\' && s[i + 7] == 'u' && hex4_ok(s, i + 8) {
                            let c2 = hex4_val(s, i + 8);
                            if 0xDC00 <= c2 && c2 <= 0xDFFF {
                                str_cons(
                                    ((0x10000 + (c1 - 0xD800) * 0x400 + (c2 - 0xDC00)) as u32) as char,
                                    parse_str(s, i + 12),
                                )
                            } else {
                                Option::None
                            }
                        } else {
                            Option::None
                        }
                    } else {
                        Option::None
                    }
                } else {
                    Option::None
                }
            } else {
                Option::None
            }
        }
    } else if (s[i] as u32) < 0x20 {
        Option::None
    } else {
        str_cons(s[i], parse_str(s, i + 1))
    }
}

/// The document a number token stands for: an in-range integer, or its raw
/// text.
pub open spec fn num_jval(s: Seq<char>, i: int, end: int) -> JVal {
    if int_form(s, i, end) && int_form_fits(s, i, end) {
        JVal::Int(int_form_val(s, i, end))
    } else {
        JVal::NumText(s.subrange(i, end))
    }
}

/// Whether the four characters of `null` stand at `i`.
pub open spec fn lit_null(s: Seq<char>, i: int) -> bool {
    i + 4 <= s.len() && s[i] == 'n' && s[i + 1] == 'u' && s[i + 2] == 'l' && s[i + 3] == 'l'
}

pub open spec fn lit_true(s: Seq<char>, i: int) -> bool {
    i + 4 <= s.len() && s[i] == 't' && s[i + 1] == 'r' && s[i + 2] == 'u' && s[i + 3] == 'e'
}

pub open spec fn lit_false(s: Seq<char>, i: int) -> bool {
    i + 5 <= s.len() && s[i] == 'f' && s[i + 1] == 'a' && s[i + 2] == 'l' && s[i + 3] == 's' && s[i + 4] == 'e'
}

/// Parses one value starting exactly at `i`.
pub open spec fn parse_value(s: Seq<char>, i: int) -> Option<(JVal, int)>
    decreases s.len() - i + 1, 0int,
{
    if i < 0 || i >= s.len() {
        Option::None
    } else {
        let c = s[i];
        if c == 'n' {
            if lit_null(s, i) { Option::Some((JVal::Null, i + 4)) } else { Option::None }
        } else if c == 't' {
            if lit_true(s, i) { Option::Some((JVal::Bool(true), i + 4)) } else { Option::None }
        } else if c == 'f' {
            if lit_false(s, i) { Option::Some((JVal::Bool(false), i + 5)) } else { Option::None }
        } else if c == '"' {
            match parse_str(s, i + 1) {
                Option::None => Option::None,
                Option::Some((t, j)) => Option::Some((JVal::Str(t), j)),
            }
        } else if c == '[' {
            let j = bound(i + 1, ws_end(s, i + 1), s.len() as int);
            if j < s.len() && s[j] == ']' {
                Option::Some((JVal::Arr(Seq::empty()), j + 1))
            } else {
                match parse_elems(s, i + 1) {
                    Option::None => Option::None,
                    Option::Some((elems, k)) => Option::Some((JVal::Arr(elems), k)),
                }
            }
        } else if c == '{' {
            let j = bound(i + 1, ws_end(s, i + 1), s.len() as int);
            if j < s.len() && s[j] == '}' {
                Option::Some((JVal::Obj(Seq::empty()), j + 1))
            } else {
                match parse_members(s, i + 1) {
                    Option::None => Option::None,
                    Option::Some((ms, k)) => Option::Some((JVal::Obj(ms), k)),
                }
            }
        } else if c == '-' || is_digit(c) {
            match num_end(s, i) {
                Option::None => Option::None,
                Option::Some(end) => Option::Some((num_jval(s, i, end), end)),
            }
        } else {
            Option::None
        }
    }
}

/// Parses `ws value ws` then either `, more-elements` or the closing `]`.
pub open spec fn parse_elems(s: Seq<char>, i: int) -> Option<(Seq<JVal>, int)>
    decreases s.len() - i + 1, 1int,
{
    if i < 0 || i > s.len() {
        Option::None
    } else {
        let j = bound(i, ws_end(s, i), s.len() as int);
        match parse_value(s, j) {
            Option::None => Option::None,
            Option::Some((v, j2)) => {
                let k = step(j, j2, s.len() as int);
                let k2 = bound(k, ws_end(s, k), s.len() as int);
                if k2 >= s.len() {
                    Option::None
                } else if s[k2] == ']' {
                    Option::Some((seq![v], k2 + 1))
                } else if s[k2] == ',' {
                    match parse_elems(s, k2 + 1) {
                        Option::None => Option::None,
                        Option::Some((rest, end)) => Option::Some((seq![v] + rest, end)),
                    }
                } else {
                    Option::None
                }
            },
        }
    }
}

/// Parses `ws "key" ws : ws value ws` then either `, more-members` or the
/// closing `}`.
pub open spec fn parse_members(s: Seq<char>, i: int) -> Option<(Seq<(Seq<char>, JVal)>, int)>
    decreases s.len() - i + 1, 1int,
{
    if i < 0 || i > s.len() {
        Option::None
    } else {
        let j = bound(i, ws_end(s, i), s.len() as int);
        if j >= s.len() || s[j] != '"' {
            Option::None
        } else {
            match parse_str(s, j + 1) {
                Option::None => Option::None,
                Option::Some((key, j2)) => {
                    let k = step(j, j2, s.len() as int);
                    let k2 = bound(k, ws_end(s, k), s.len() as int);
                    if k2 >= s.len() || s[k2] != ':' {
                        Option::None
                    } else {
                        let k3 = bound(k2 + 1, ws_end(s, k2 + 1), s.len() as int);
                        match parse_value(s, k3) {
                            Option::None => Option::None,
                            Option::Some((v, k4)) => {
                                let k5 = step(k3, k4, s.len() as int);
                                let k6 = bound(k5, ws_end(s, k5), s.len() as int);
                                if k6 >= s.len() {
                                    Option::None
                                } else if s[k6] == '}' {
                                    Option::Some((seq![(key, v)], k6 + 1))
                                } else if s[k6] == ',' {
                                    match parse_members(s, k6 + 1) {
                                        Option::None => Option::None,
                                        Option::Some((rest, end)) => Option::Some((seq![(key, v)] + rest, end)),
                                    }
                                } else {
                                    Option::None
                                }
                            },
                        }
                    }
                },
            }
        }
    }
}

/// The parse of a whole body: one value, possibly surrounded by
/// whitespace, reaching the end of the text.
pub open spec fn spec_parse(s: Seq<char>) -> Option<JVal> {
    let i = bound(0, ws_end(s, 0), s.len() as int);
    match parse_value(s, i) {
        Option::None => Option::None,
        Option::Some((v, j)) => {
            let k = bound(j, ws_end(s, j), s.len() as int);
            if k == s.len() {
                Option::Some(v)
            } else {
                Option::None
            }
        },
    }
}

} // verus!
