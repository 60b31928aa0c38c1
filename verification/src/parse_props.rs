//! Facts about the parser's scanning functions: the ranges they stay in,
//! what the characters they pass over look like, and how a number token
//! reads the same inside a larger text as it does on its own.

use vstd::prelude::*;

use crate::json::{
    digits_end, digits_val, int_form, int_form_fits, int_form_val, is_digit, num_end, num_text_wf,
    wf,
};
use crate::parse::{
    bound, hex4_ok, is_ws, parse_elems, parse_members, parse_str, parse_value, step, ws_end,
};

verus! {
/// `ws_end` stays in `[i, len]`, passes only whitespace, and stops at a
/// non-whitespace character or the end.
pub proof fn lemma_ws_end(s: Seq<char>, i: int)
    requires
        0 <= i <= s.len(),
    ensures
        i <= ws_end(s, i) <= s.len(),
        forall|k: int| i <= k < ws_end(s, i) ==> is_ws(#[trigger] s[k]),
        ws_end(s, i) < s.len() ==> !is_ws(s[ws_end(s, i)]),
    decreases s.len() - i,
{
    if i < s.len() && is_ws(s[i]) {
        lemma_ws_end(s, i + 1);
    }
}

/// `digits_end` stays in `[i, len]`, passes only digits, and stops at a
/// non-digit or the end.
pub proof fn lemma_digits_end(s: Seq<char>, i: int)
    requires
        0 <= i <= s.len(),
    ensures
        i <= digits_end(s, i) <= s.len(),
        forall|k: int| i <= k < digits_end(s, i) ==> is_digit(#[trigger] s[k]),
        digits_end(s, i) < s.len() ==> !is_digit(s[digits_end(s, i)]),
    decreases s.len() - i,
{
    if i < s.len() && is_digit(s[i]) {
        lemma_digits_end(s, i + 1);
    }
}

/// A digit run scans the same from inside a larger text, as long as the
/// character after the embedded text (if the run would reach it) is not a
/// digit.
pub proof fn lemma_digits_end_embed(s: Seq<char>, off: int, t: Seq<char>, a: int)
    requires
        0 <= off,
        off + t.len() <= s.len(),
        forall|k: int| 0 <= k < t.len() ==> t[k] == s[off + k],
        0 <= a <= t.len(),
        digits_end(t, a) == t.len() ==> (off + t.len() == s.len() || !is_digit(s[off + t.len()])),
    ensures
        digits_end(s, off + a) == off + digits_end(t, a),
    decreases t.len() - a,
{
    if a < t.len() && is_digit(t[a]) {
        lemma_digits_end_embed(s, off, t, a + 1);
    }
}

/// A digit run scans the same in the embedded text, as long as the outer
/// scan does not run past the embedded text's end.
pub proof fn lemma_digits_end_sub(s: Seq<char>, off: int, t: Seq<char>, a: int)
    requires
        0 <= off,
        off + t.len() <= s.len(),
        forall|k: int| 0 <= k < t.len() ==> t[k] == s[off + k],
        0 <= a <= t.len(),
        digits_end(s, off + a) <= off + t.len(),
    ensures
        digits_end(t, a) == digits_end(s, off + a) - off,
    decreases t.len() - a,
{
    if a < t.len() && is_digit(t[a]) {
        lemma_digits_end_sub(s, off, t, a + 1);
    } else {
        if a < t.len() {
            assert(!is_digit(s[off + a]));
        } else {
            lemma_digits_end(s, off + a);
        }
    }
}

/// The value of a digit run is the same wherever it is read.
pub proof fn lemma_digits_val_embed(s: Seq<char>, off: int, t: Seq<char>, a: int, b: int)
    requires
        0 <= off,
        off + t.len() <= s.len(),
        forall|k: int| 0 <= k < t.len() ==> t[k] == s[off + k],
        0 <= a,
        b <= t.len(),
    ensures
        digits_val(s, off + a, off + b) == digits_val(t, a, b),
    decreases b - a,
{
    if a < b {
        lemma_digits_val_embed(s, off, t, a, b - 1);
    }
}

/// A successful number scan moves strictly forward and stays inside the
/// text, and the character at its end (if any) is not a digit.
pub proof fn lemma_num_end_range(s: Seq<char>, i: int)
    requires
        0 <= i < s.len(),
        num_end(s, i) is Some,
    ensures
        i < num_end(s, i)->0 <= s.len(),
        num_end(s, i)->0 < s.len() ==> !is_digit(s[num_end(s, i)->0]),
{
    let j = if s[i] == '-' { i + 1 } else { i };
    lemma_digits_end(s, j);
    let k = digits_end(s, j);
    if k < s.len() && s[k] == '.' {
        lemma_digits_end(s, k + 1);
    }
    let f = if k < s.len() && s[k] == '.' { digits_end(s, k + 1) } else { k };
    if f < s.len() && ((s[f] == 'e') || (s[f] == 'E')) {
        let h = if f + 1 < s.len() && ((s[f + 1] == '+') || (s[f + 1] == '-')) { f + 2 } else { f + 1 };
        if h <= s.len() {
            lemma_digits_end(s, h);
        }
    }
}

/// A character that cannot extend a number token.
pub open spec fn non_extending(c: char) -> bool {
    !is_digit(c) && c != '.' && c != 'e' && c != 'E'
}

/// A whole number token reads the same inside a larger text, provided the
/// character after it (if any) cannot extend it.
pub proof fn lemma_num_end_embed(s: Seq<char>, off: int, t: Seq<char>)
    requires
        0 <= off,
        off + t.len() <= s.len(),
        forall|k: int| 0 <= k < t.len() ==> t[k] == s[off + k],
        t.len() > 0,
        num_end(t, 0) == Some(t.len() as int),
        off + t.len() == s.len() || non_extending(s[off + t.len()]),
    ensures
        num_end(s, off) == Some(off + t.len()),
        int_form(s, off, off + t.len()) == int_form(t, 0, t.len() as int),
        int_form(t, 0, t.len() as int) ==> int_form_val(s, off, off + t.len()) == int_form_val(t, 0, t.len() as int),
{
    let n = t.len() as int;
    let jt: int = if t[0] == '-' { 1 } else { 0 };
    lemma_digits_end(t, jt);
    let kt = digits_end(t, jt);
    lemma_digits_end_embed(s, off, t, jt);
    if kt < n && t[kt] == '.' {
        lemma_digits_end(t, kt + 1);
        lemma_digits_end_embed(s, off, t, kt + 1);
    }
    let ft: int = if kt < n && t[kt] == '.' { digits_end(t, kt + 1) } else { kt };
    if ft < n && ((t[ft] == 'e') || (t[ft] == 'E')) {
        let ht: int = if ft + 1 < n && ((t[ft + 1] == '+') || (t[ft + 1] == '-')) { ft + 2 } else { ft + 1 };
        lemma_digits_end(t, ht);
        lemma_digits_end_embed(s, off, t, ht);
    }
    if int_form(t, 0, n) {
        lemma_digits_val_embed(s, off, t, jt, n);
    }
}

/// A number token read out of a larger text reads the same on its own.
pub proof fn lemma_num_end_sub(s: Seq<char>, i: int)
    requires
        0 <= i < s.len(),
        num_end(s, i) is Some,
    ensures
        ({
            let end = num_end(s, i)->0;
            let t = s.subrange(i, end);
            &&& num_end(t, 0) == Some(t.len() as int)
            &&& int_form(t, 0, t.len() as int) == int_form(s, i, end)
            &&& (int_form(s, i, end) ==> int_form_val(t, 0, t.len() as int) == int_form_val(s, i, end))
        }),
{
    let end = num_end(s, i)->0;
    lemma_num_end_range(s, i);
    let t = s.subrange(i, end);
    let n = t.len() as int;
    let j: int = if s[i] == '-' { i + 1 } else { i };
    lemma_digits_end(s, j);
    let k = digits_end(s, j);
    lemma_digits_end_sub(s, i, t, j - i);
    if k < s.len() && s[k] == '.' {
        lemma_digits_end(s, k + 1);
        if k < end {
            lemma_digits_end_sub(s, i, t, k + 1 - i);
        }
    }
    let f: int = if k < s.len() && s[k] == '.' { digits_end(s, k + 1) } else { k };
    if f < s.len() && ((s[f] == 'e') || (s[f] == 'E')) {
        let h: int = if f + 1 < s.len() && ((s[f + 1] == '+') || (s[f + 1] == '-')) { f + 2 } else { f + 1 };
        lemma_digits_end(s, h);
        if h <= end {
            lemma_digits_end_sub(s, i, t, h - i);
        }
    }
    if int_form(s, i, end) {
        lemma_digits_val_embed(s, i, t, j - i, n);
    }
}

/// A number token that is not an in-range integer is fit to be carried as
/// raw `NumText`.
pub proof fn lemma_num_sub_wf(s: Seq<char>, i: int)
    requires
        0 <= i < s.len(),
        num_end(s, i) is Some,
        !(int_form(s, i, num_end(s, i)->0) && int_form_fits(s, i, num_end(s, i)->0)),
    ensures
        num_text_wf(s.subrange(i, num_end(s, i)->0)),
{
    lemma_num_end_sub(s, i);
}

/// A successful string parse moves strictly forward and stays inside the
/// text.
pub proof fn lemma_parse_str_range(s: Seq<char>, i: int)
    ensures
        parse_str(s, i) matches Some((t, j)) ==> i < j <= s.len(),
    decreases s.len() - i,
{
    if 0 <= i && i < s.len() {
        if s[i] == '"' {
        } else if s[i] == '\\' {
            if i + 2 <= s.len() {
                let e = s[i + 1];
                if e == 'u' {
                    if hex4_ok(s, i + 2) {
                        lemma_parse_str_range(s, i + 6);
                        if i + 12 <= s.len() {
                            lemma_parse_str_range(s, i + 12);
                        }
                    }
                } else {
                    lemma_parse_str_range(s, i + 2);
                }
            }
        } else {
            lemma_parse_str_range(s, i + 1);
        }
    }
}

/// A successful value parse moves strictly forward, stays inside the text,
/// and yields a well-formed document.
pub proof fn lemma_parse_value_props(s: Seq<char>, i: int)
    ensures
        parse_value(s, i) matches Some((v, j)) ==> i < j <= s.len() && wf(v),
    decreases s.len() - i + 1, 0int,
{
    if 0 <= i && i < s.len() {
        let c = s[i];
        if c == '"' {
            lemma_parse_str_range(s, i + 1);
        } else if c == '[' {
            lemma_ws_end(s, i + 1);
            lemma_parse_elems_props(s, i + 1);
        } else if c == '{' {
            lemma_ws_end(s, i + 1);
            lemma_parse_members_props(s, i + 1);
        } else if c == '-' || is_digit(c) {
            if num_end(s, i) is Some {
                lemma_num_end_range(s, i);
                let end = num_end(s, i)->0;
                if !(int_form(s, i, end) && int_form_fits(s, i, end)) {
                    lemma_num_sub_wf(s, i);
                }
            }
        }
    }
}

/// A successful element-list parse moves strictly forward, stays inside
/// the text, and yields at least one well-formed element.
pub proof fn lemma_parse_elems_props(s: Seq<char>, i: int)
    ensures
        parse_elems(s, i) matches Some((elems, j)) ==> {
            &&& i < j <= s.len()
            &&& elems.len() >= 1
            &&& forall|k: int| 0 <= k < elems.len() ==> wf(#[trigger] elems[k])
        },
    decreases s.len() - i + 1, 1int,
{
    if 0 <= i && i <= s.len() {
        lemma_ws_end(s, i);
        let j = bound(i, ws_end(s, i), s.len() as int);
        lemma_parse_value_props(s, j);
        match parse_value(s, j) {
            Option::None => {},
            Option::Some((v, j2)) => {
                let k = step(j, j2, s.len() as int);
                lemma_ws_end(s, k);
                let k2 = bound(k, ws_end(s, k), s.len() as int);
                if k2 < s.len() && s[k2] == ',' {
                    lemma_parse_elems_props(s, k2 + 1);
                }
            },
        }
    }
}

/// A successful member-list parse moves strictly forward, stays inside the
/// text, and yields at least one member with a well-formed value.
pub proof fn lemma_parse_members_props(s: Seq<char>, i: int)
    ensures
        parse_members(s, i) matches Some((ms, j)) ==> {
            &&& i < j <= s.len()
            &&& ms.len() >= 1
            &&& forall|k: int| 0 <= k < ms.len() ==> wf((#[trigger] ms[k]).1)
        },
    decreases s.len() - i + 1, 1int,
{
    if 0 <= i && i <= s.len() {
        lemma_ws_end(s, i);
        let j = bound(i, ws_end(s, i), s.len() as int);
        if j < s.len() && s[j] == '"' {
            lemma_parse_str_range(s, j + 1);
            match parse_str(s, j + 1) {
                Option::None => {},
                Option::Some((key, j2)) => {
                    let k = step(j, j2, s.len() as int);
                    lemma_ws_end(s, k);
                    let k2 = bound(k, ws_end(s, k), s.len() as int);
                    if k2 < s.len() && s[k2] == ':' {
                        lemma_ws_end(s, k2 + 1);
                        let k3 = bound(k2 + 1, ws_end(s, k2 + 1), s.len() as int);
                        lemma_parse_value_props(s, k3);
                        match parse_value(s, k3) {
                            Option::None => {},
                            Option::Some((v, k4)) => {
                                let k5 = step(k3, k4, s.len() as int);
                                lemma_ws_end(s, k5);
                                let k6 = bound(k5, ws_end(s, k5), s.len() as int);
                                if k6 < s.len() && s[k6] == ',' {
                                    lemma_parse_members_props(s, k6 + 1);
                                }
                            },
                        }
                    }
                },
            }
        }
    }
}

} // verus!
