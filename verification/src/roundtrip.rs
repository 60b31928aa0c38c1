//! Parsing is the inverse of rendering: any well-formed document, rendered
//! by `ser_val` and read back by the parser, comes back unchanged.

use vstd::prelude::*;

use crate::json::{
    dec_str, digit_char, digit_val, digits_end, digits_val, esc, esc_char, hex_char, int_form,
    int_form_fits, int_form_val, int_str, is_digit, num_end, ser_elems, ser_member, ser_members,
    ser_val, wf, JVal,
};
use crate::parse::{
    bound, hex4_ok, hex4_val, hex_val, is_hex, is_ws, lit_false, lit_null, lit_true, num_jval,
    parse_elems, parse_members, parse_str, parse_value, spec_parse, step, str_cons, ws_end,
};
use crate::parse_props::{
    lemma_digits_end, lemma_digits_end_embed, lemma_digits_val_embed, lemma_num_end_embed,
};

verus! {
broadcast use vstd::seq::group_seq_axioms, vstd::utf8::char_u32_cast;

/// `dec_str` is a non-empty digit run with no leading zero.
proof fn lemma_dec_str_props(n: nat)
    ensures
        dec_str(n).len() >= 1,
        forall|k: int| 0 <= k < dec_str(n).len() ==> is_digit(#[trigger] dec_str(n)[k]),
        dec_str(n).len() > 1 ==> dec_str(n)[0] != '0',
        n == 0 ==> dec_str(n) == seq!['0'],
        n > 0 ==> dec_str(n)[0] != '0',
    decreases n,
{
    if n < 10 {
        assert(is_digit(digit_char(n as int)));
        assert(n > 0 ==> digit_char(n as int) != '0');
    } else {
        lemma_dec_str_props(n / 10);
        let w = dec_str(n);
        let p = dec_str(n / 10);
        assert(w == p + seq![digit_char((n % 10) as int)]);
        assert(is_digit(digit_char((n % 10) as int)));
        assert forall|k: int| 0 <= k < w.len() implies is_digit(#[trigger] w[k]) by {
            if k < p.len() {
                assert(w[k] == p[k]);
            }
        }
        assert(w[0] == p[0]);
    }
}

/// Reading back the digits of `dec_str(n)` gives `n`.
proof fn lemma_dec_str_val(n: nat)
    ensures
        digits_val(dec_str(n), 0, dec_str(n).len() as int) == n,
    decreases n,
{
    if n < 10 {
        assert(digits_val(dec_str(n), 0, 0) == 0);
        assert(digits_val(dec_str(n), 0, 1) == digit_val(digit_char(n as int)));
    } else {
        lemma_dec_str_val(n / 10);
        let w = dec_str(n);
        let p = dec_str(n / 10);
        let m = p.len() as int;
        assert(w == p + seq![digit_char((n % 10) as int)]);
        assert forall|k: int| 0 <= k < p.len() implies p[k] == w[0 + k] by {
            assert(w[k] == p[k]);
        }
        lemma_digits_val_embed(w, 0, p, 0, m);
        assert(digits_val(w, 0, m) == digits_val(p, 0, m));
        assert(digits_val(w, 0, m + 1) == digits_val(w, 0, m) * 10 + digit_val(w[m]));
        assert(w[m] == digit_char((n % 10) as int));
        assert(digit_val(digit_char((n % 10) as int)) == n % 10);
    }
}

/// `int_str` of an in-range integer is a complete integer token with that
/// value.
proof fn lemma_int_str_token(x: int)
    requires
        -0x8000_0000_0000_0000 <= x <= 0xFFFF_FFFF_FFFF_FFFF,
    ensures
        ({
            let w = int_str(x);
            &&& w.len() >= 1
            &&& (w[0] == '-' || is_digit(w[0]))
            &&& num_end(w, 0) == Some(w.len() as int)
            &&& int_form(w, 0, w.len() as int)
            &&& int_form_val(w, 0, w.len() as int) == x
        }),
{
    let w = int_str(x);
    let n = w.len() as int;
    if x < 0 {
        let d = dec_str((-x) as nat);
        lemma_dec_str_props((-x) as nat);
        lemma_dec_str_val((-x) as nat);
        assert(w == seq!['-'] + d);
        assert(w[0] == '-');
        assert forall|k: int| 0 <= k < d.len() implies d[k] == w[1 + k] by {
            assert(w[1 + k] == d[k]);
        }
        lemma_digits_end(d, 0);
        assert(digits_end(d, 0) == d.len());
        lemma_digits_end_embed(w, 1, d, 0);
        assert(digits_end(w, 1) == n);
        lemma_digits_end(w, 1);
        assert(w[1] == d[0]);
        assert(d[0] != '0');
        lemma_digits_val_embed(w, 1, d, 0, d.len() as int);
        assert(digits_val(w, 1, n) == (-x) as nat);
    } else {
        let d = dec_str(x as nat);
        lemma_dec_str_props(x as nat);
        lemma_dec_str_val(x as nat);
        assert(w == d);
        assert(is_digit(w[0]));
        assert(w[0] != '-');
        lemma_digits_end(w, 0);
        assert(digits_end(w, 0) == n);
        assert(forall|k: int| 0 <= k < n ==> is_digit(#[trigger] w[k]));
        assert(d.len() > 1 ==> d[0] != '0');
    }
}

/// A rendered document is never empty, and its first character is not
/// whitespace nor one of the closing or separating characters.
proof fn lemma_ser_first(v: JVal)
    requires
        wf(v),
    ensures
        ser_val(v).len() >= 1,
        !is_ws(ser_val(v)[0]),
        ser_val(v)[0] != ']',
        ser_val(v)[0] != '}',
        ser_val(v)[0] != ',',
        ser_val(v)[0] != ':',
{
    match v {
        JVal::Null => {},
        JVal::Bool(b) => {},
        JVal::Int(x) => {
            lemma_int_str_token(x);
            let w = int_str(x);
            if w[0] != '-' {
                assert(is_digit(w[0]));
            }
        },
        JVal::NumText(t) => {
            assert(num_end(t, 0) == Some(t.len() as int));
            if t[0] != '-' {
                crate::parse_props::lemma_digits_end(t, 0);
                assert(digits_end(t, 0) != 0);
                assert(is_digit(t[0]));
            }
        },
        JVal::Str(t) => {
            assert(ser_val(v)[0] == '"');
        },
        JVal::Arr(elems) => {
            assert(ser_val(v)[0] == '[');
        },
        JVal::Obj(ms) => {
            assert(ser_val(v)[0] == '{');
        },
    }
}

/// `hex_char` writes hexadecimal digits, and `hex_val` reads them back.
proof fn lemma_hex_char(d: int)
    requires
        0 <= d < 16,
    ensures
        is_hex(hex_char(d)),
        hex_val(hex_char(d)) == d,
{
}

/// Reading back an escaped string: `parse_str` undoes `esc`, consuming the
/// closing quote.
#[verifier::rlimit(100)]
proof fn lemma_inv_str(s: Seq<char>, j: int, t: Seq<char>)
    requires
        0 <= j,
        j + esc(t).len() + 1 <= s.len(),
        forall|k: int| 0 <= k < esc(t).len() ==> s[j + k] == esc(t)[k],
        s[j + esc(t).len()] == '"',
    ensures
        parse_str(s, j) == Some((t, j + esc(t).len() + 1)),
    decreases t.len(),
{
    if t.len() == 0 {
        assert(esc(t).len() == 0);
    } else {
        let c = t[0];
        let e = esc_char(c);
        let rest = t.drop_first();
        assert(esc(t) == e + esc(rest));
        assert forall|k: int| 0 <= k < e.len() implies s[j + k] == e[k] by {
            assert(esc(t)[k] == e[k]);
        }
        assert forall|k: int| 0 <= k < esc(rest).len() implies s[j + e.len() + k] == esc(rest)[k] by {
            assert(esc(t)[e.len() + k] == esc(rest)[k]);
            assert(s[j + (e.len() + k)] == esc(t)[e.len() + k]);
        }
        assert(s[j + e.len() + esc(rest).len()] == '"');
        lemma_inv_str(s, j + e.len(), rest);
        assert(seq![c] + rest =~= t);
        if c == '"' || c == '\\' {
            assert(s[j] == '\\' && s[j + 1] == c);
            assert(parse_str(s, j) == str_cons(c, parse_str(s, j + 2)));
        } else if c == '\u{8}' {
            assert(s[j] == '\\' && s[j + 1] == 'b');
            assert(parse_str(s, j) == str_cons(c, parse_str(s, j + 2)));
        } else if c == '\t' {
            assert(s[j] == '\\' && s[j + 1] == 't');
            assert(parse_str(s, j) == str_cons(c, parse_str(s, j + 2)));
        } else if c == '\n' {
            assert(s[j] == '\\' && s[j + 1] == 'n');
            assert(parse_str(s, j) == str_cons(c, parse_str(s, j + 2)));
        } else if c == '\u{c}' {
            assert(s[j] == '\\' && s[j + 1] == 'f');
            assert(parse_str(s, j) == str_cons(c, parse_str(s, j + 2)));
        } else if c == '\r' {
            assert(s[j] == '\\' && s[j + 1] == 'r');
            assert(parse_str(s, j) == str_cons(c, parse_str(s, j + 2)));
        } else if (c as u32) < 0x20 {
            let u = c as u32;
            let hi = (u / 16) as int;
            let lo = (u % 16) as int;
            assert(s[j] == '\\' && s[j + 1] == 'u' && s[j + 2] == '0' && s[j + 3] == '0'
                && s[j + 4] == hex_char(hi) && s[j + 5] == hex_char(lo));
            lemma_hex_char(hi);
            lemma_hex_char(lo);
            assert(is_hex('0') && hex_val('0') == 0);
            assert(hex4_ok(s, j + 2));
            assert(hex4_val(s, j + 2) == u);
            vstd::utf8::char_u32_cast(c, u);
            assert((hex4_val(s, j + 2) as u32) as char == c);
            assert(parse_str(s, j) == str_cons(c, parse_str(s, j + 6)));
        } else {
            assert(s[j] == c);
            assert(c != '"' && c != '\\');
            assert(parse_str(s, j) == str_cons(c, parse_str(s, j + 1)));
        }
    }
}

/// A character that may follow a rendered value: the end of the text, a
/// separator, a closing bracket or whitespace.
pub open spec fn delim_ok(s: Seq<char>, e: int) -> bool {
    e == s.len() || (s[e] == ',' || s[e] == ']' || s[e] == '}' || is_ws(s[e]))
}

/// Reading back a rendered value embedded in a larger text gives the value
/// back, ending right after it.
proof fn lemma_inv_value(s: Seq<char>, i: int, v: JVal)
    requires
        wf(v),
        0 <= i,
        i + ser_val(v).len() <= s.len(),
        forall|k: int| 0 <= k < ser_val(v).len() ==> s[i + k] == ser_val(v)[k],
        delim_ok(s, i + ser_val(v).len()),
    ensures
        parse_value(s, i) == Some((v, i + ser_val(v).len())),
    decreases v,
{
    let w = ser_val(v);
    lemma_ser_first(v);
    match v {
        JVal::Null => {
            assert(s[i] == 'n' && s[i + 1] == 'u' && s[i + 2] == 'l' && s[i + 3] == 'l');
            assert(lit_null(s, i));
        },
        JVal::Bool(b) => {
            if b {
                assert(s[i] == 't' && s[i + 1] == 'r' && s[i + 2] == 'u' && s[i + 3] == 'e');
                assert(lit_true(s, i));
            } else {
                assert(s[i] == 'f' && s[i + 1] == 'a' && s[i + 2] == 'l' && s[i + 3] == 's' && s[i + 4] == 'e');
                assert(lit_false(s, i));
            }
        },
        JVal::Int(x) => {
            lemma_int_str_token(x);
            assert(s[i] == w[0]);
            lemma_num_end_embed(s, i, w);
            assert(num_end(s, i) == Some(i + w.len()));
            assert(int_form(s, i, i + w.len()));
            assert(int_form_val(s, i, i + w.len()) == x);
            assert(num_jval(s, i, i + w.len()) == JVal::Int(x));
        },
        JVal::NumText(t) => {
            assert(num_end(t, 0) == Some(t.len() as int));
            if t[0] != '-' {
                lemma_digits_end(t, 0);
                assert(digits_end(t, 0) != 0);
                assert(is_digit(t[0]));
            }
            lemma_num_end_embed(s, i, t);
            assert(num_end(s, i) == Some(i + t.len()));
            assert(!(int_form(s, i, i + t.len()) && int_form_fits(s, i, i + t.len())));
            assert(s.subrange(i, i + t.len()) =~= t);
            assert(num_jval(s, i, i + t.len()) == JVal::NumText(t));
        },
        JVal::Str(t) => {
            assert(s[i] == '"');
            assert(w == seq!['"'] + esc(t) + seq!['"']);
            assert forall|k: int| 0 <= k < esc(t).len() implies s[i + 1 + k] == esc(t)[k] by {
                assert(w[1 + k] == esc(t)[k]);
                assert(s[i + (1 + k)] == w[1 + k]);
            }
            assert(s[i + 1 + esc(t).len()] == w[1 + esc(t).len() as int]);
            assert(w[1 + esc(t).len() as int] == '"');
            lemma_inv_str(s, i + 1, t);
        },
        JVal::Arr(elems) => {
            assert(s[i] == '[');
            let se = ser_elems(elems);
            assert(w == seq!['['] + se + seq![']']);
            assert forall|k: int| 0 <= k < se.len() implies s[i + 1 + k] == se[k] by {
                assert(w[1 + k] == se[k]);
                assert(s[i + (1 + k)] == w[1 + k]);
            }
            assert(s[i + 1 + se.len()] == w[1 + se.len() as int]);
            assert(w[1 + se.len() as int] == ']');
            if elems.len() == 0 {
                assert(se.len() == 0);
                assert(s[i + 1] == ']');
                assert(ws_end(s, i + 1) == i + 1);
                assert(bound(i + 1, ws_end(s, i + 1), s.len() as int) == i + 1);
                assert(elems =~= Seq::<JVal>::empty());
                assert(parse_value(s, i) == Some((JVal::Arr(Seq::empty()), i + 2)));
            } else {
                let v0 = elems[0];
                assert(wf(v0));
                lemma_ser_first(v0);
                let w0 = ser_val(v0);
                assert(se[0] == w0[0]) by {
                    if elems.len() == 1 {
                    } else {
                        assert(se == w0 + seq![','] + ser_elems(elems.drop_first()));
                        assert(se[0] == w0[0]);
                    }
                }
                assert(w[1 + 0int] == se[0]);
                assert(s[i + 1] == w[1]);
                assert(s[i + 1] == se[0]);
                assert(!is_ws(s[i + 1]));
                assert(ws_end(s, i + 1) == i + 1);
                assert(bound(i + 1, ws_end(s, i + 1), s.len() as int) == i + 1);
                assert(s[i + 1] != ']');
                lemma_inv_elems(s, i + 1, elems);
                assert(parse_elems(s, i + 1) == Some((elems, i + 1 + se.len() + 1)));
            }
        },
        JVal::Obj(ms) => {
            assert(s[i] == '{');
            let sm = ser_members(ms);
            assert(w == seq!['{'] + sm + seq!['}']);
            assert forall|k: int| 0 <= k < sm.len() implies s[i + 1 + k] == sm[k] by {
                assert(w[1 + k] == sm[k]);
                assert(s[i + (1 + k)] == w[1 + k]);
            }
            assert(s[i + 1 + sm.len()] == w[1 + sm.len() as int]);
            assert(w[1 + sm.len() as int] == '}');
            if ms.len() == 0 {
                assert(sm.len() == 0);
                assert(s[i + 1] == '}');
                assert(ws_end(s, i + 1) == i + 1);
                assert(bound(i + 1, ws_end(s, i + 1), s.len() as int) == i + 1);
                assert(ms =~= Seq::<(Seq<char>, JVal)>::empty());
                assert(parse_value(s, i) == Some((JVal::Obj(Seq::empty()), i + 2)));
            } else {
                assert(sm[0] == '"') by {
                    let m0 = ser_member(ms[0]);
                    assert(m0[0] == '"');
                    if ms.len() == 1 {
                    } else {
                        assert(sm == m0 + seq![','] + ser_members(ms.drop_first()));
                        assert(sm[0] == m0[0]);
                    }
                }
                assert(sm.len() >= 1) by {
                    let m0 = ser_member(ms[0]);
                    assert(m0.len() >= 1);
                    if ms.len() > 1 {
                        assert(sm == m0 + seq![','] + ser_members(ms.drop_first()));
                    }
                }
                assert(w[1 + 0int] == sm[0]);
                assert(s[i + 1] == w[1]);
                assert(s[i + 1] == sm[0]);
                assert(ws_end(s, i + 1) == i + 1);
                assert(bound(i + 1, ws_end(s, i + 1), s.len() as int) == i + 1);
                assert(s[i + 1] != '}');
                lemma_inv_members(s, i + 1, ms);
                assert(parse_members(s, i + 1) == Some((ms, i + 1 + sm.len() + 1)));
            }
        },
    }
}

/// Reading back a rendered element list followed by `]`.
proof fn lemma_inv_elems(s: Seq<char>, i: int, elems: Seq<JVal>)
    requires
        elems.len() >= 1,
        forall|k: int| 0 <= k < elems.len() ==> wf(#[trigger] elems[k]),
        0 <= i,
        i + ser_elems(elems).len() + 1 <= s.len(),
        forall|k: int| 0 <= k < ser_elems(elems).len() ==> s[i + k] == ser_elems(elems)[k],
        s[i + ser_elems(elems).len()] == ']',
    ensures
        parse_elems(s, i) == Some((elems, i + ser_elems(elems).len() + 1)),
    decreases elems,
{
    let se = ser_elems(elems);
    let v0 = elems[0];
    let w0 = ser_val(v0);
    lemma_ser_first(v0);
    if elems.len() == 1 {
        assert(se == w0);
        assert(s[i] == w0[0]);
        assert(ws_end(s, i) == i);
        assert(bound(i, ws_end(s, i), s.len() as int) == i);
        assert(s[i + w0.len()] == ']');
        lemma_inv_value(s, i, v0);
        assert(parse_value(s, i) == Some((v0, i + w0.len())));
        let j2 = i + w0.len();
        assert(step(i, j2, s.len() as int) == j2);
        assert(ws_end(s, j2) == j2);
        assert(bound(j2, ws_end(s, j2), s.len() as int) == j2);
        assert(s[j2] == ']');
        assert(parse_elems(s, i) == Some((seq![v0], j2 + 1)));
        assert(seq![v0] =~= elems);
    } else {
        let rest = elems.drop_first();
        let sr = ser_elems(rest);
        assert(se == w0 + seq![','] + sr);
        assert forall|k: int| 0 <= k < w0.len() implies s[i + k] == w0[k] by {
            assert(se[k] == w0[k]);
        }
        assert(s[i + w0.len()] == se[w0.len() as int]);
        assert(se[w0.len() as int] == ',');
        assert(s[i] == w0[0]);
        assert(ws_end(s, i) == i);
        assert(bound(i, ws_end(s, i), s.len() as int) == i);
        lemma_inv_value(s, i, v0);
        assert(parse_value(s, i) == Some((v0, i + w0.len())));
        let j2 = i + w0.len();
        assert(step(i, j2, s.len() as int) == j2);
        assert(ws_end(s, j2) == j2);
        assert(bound(j2, ws_end(s, j2), s.len() as int) == j2);
        assert(s[j2] == ',');
        let next = j2 + 1;
        assert forall|k: int| 0 <= k < sr.len() implies s[next + k] == sr[k] by {
            assert(se[w0.len() + 1 + k] == sr[k]);
            assert(s[i + (w0.len() + 1 + k)] == se[w0.len() + 1 + k]);
        }
        assert(next + sr.len() == i + se.len());
        assert(s[next + sr.len()] == ']');
        assert forall|k: int| 0 <= k < rest.len() implies wf(#[trigger] rest[k]) by {
            assert(rest[k] == elems[k + 1]);
        }
        lemma_inv_elems(s, next, rest);
        assert(parse_elems(s, next) == Some((rest, next + sr.len() + 1)));
        assert(parse_elems(s, i) == Some((seq![v0] + rest, next + sr.len() + 1)));
        assert(seq![v0] + rest =~= elems);
        assert(next + sr.len() + 1 == i + se.len() + 1);
    }
}

/// Reading back a rendered member list followed by `}`.
#[verifier::rlimit(100)]
proof fn lemma_inv_members(s: Seq<char>, i: int, ms: Seq<(Seq<char>, JVal)>)
    requires
        ms.len() >= 1,
        forall|k: int| 0 <= k < ms.len() ==> wf((#[trigger] ms[k]).1),
        0 <= i,
        i + ser_members(ms).len() + 1 <= s.len(),
        forall|k: int| 0 <= k < ser_members(ms).len() ==> s[i + k] == ser_members(ms)[k],
        s[i + ser_members(ms).len()] == '}',
    ensures
        parse_members(s, i) == Some((ms, i + ser_members(ms).len() + 1)),
    decreases ms,
{
    let sm = ser_members(ms);
    let m0 = ms[0];
    let w0 = ser_member(m0);
    let key = m0.0;
    let v0 = m0.1;
    let wv = ser_val(v0);
    assert(wf(v0));
    lemma_ser_first(v0);
    assert(w0 == seq!['"'] + esc(key) + seq!['"', ':'] + wv);
    let ek = esc(key).len() as int;
    assert forall|k: int| 0 <= k < w0.len() implies s[i + k] == w0[k] by {
        if ms.len() == 1 {
            assert(sm == w0);
            assert(sm[k] == w0[k]);
        } else {
            assert(sm == w0 + seq![','] + ser_members(ms.drop_first()));
            assert(sm[k] == w0[k]);
        }
    }
    // the key string
    assert(s[i] == w0[0]);
    assert(w0[0] == '"');
    assert(ws_end(s, i) == i);
    assert(bound(i, ws_end(s, i), s.len() as int) == i);
    assert forall|k: int| 0 <= k < ek implies s[i + 1 + k] == esc(key)[k] by {
        assert(w0[1 + k] == esc(key)[k]);
        assert(s[i + (1 + k)] == w0[1 + k]);
    }
    assert(s[i + 1 + ek] == w0[1 + ek]);
    assert(w0[1 + ek] == '"');
    lemma_inv_str(s, i + 1, key);
    let p = i + 1 + ek + 1;
    assert(parse_str(s, i + 1) == Some((key, p)));
    assert(step(i, p, s.len() as int) == p);
    // the colon
    assert(s[p] == w0[p - i]);
    assert(w0[2 + ek] == ':');
    assert(ws_end(s, p) == p);
    assert(bound(p, ws_end(s, p), s.len() as int) == p);
    // the value
    let q = p + 1;
    assert forall|k: int| 0 <= k < wv.len() implies s[q + k] == wv[k] by {
        assert(w0[3 + ek + k] == wv[k]);
        assert(s[i + (3 + ek + k)] == w0[3 + ek + k]);
    }
    assert(s[q] == wv[0]);
    assert(ws_end(s, q) == q);
    assert(bound(q, ws_end(s, q), s.len() as int) == q);
    let r = q + wv.len();
    assert(r == i + w0.len());
    if ms.len() == 1 {
        assert(sm == w0);
        assert(s[r] == '}');
        lemma_inv_value(s, q, v0);
        assert(parse_value(s, q) == Some((v0, r)));
        assert(step(q, r, s.len() as int) == r);
        assert(ws_end(s, r) == r);
        assert(bound(r, ws_end(s, r), s.len() as int) == r);
        assert(parse_members(s, i) == Some((seq![(key, v0)], r + 1)));
        assert(seq![(key, v0)] =~= ms);
    } else {
        let rest = ms.drop_first();
        let sr = ser_members(rest);
        assert(sm == w0 + seq![','] + sr);
        assert(s[r] == sm[w0.len() as int]);
        assert(sm[w0.len() as int] == ',');
        lemma_inv_value(s, q, v0);
        assert(parse_value(s, q) == Some((v0, r)));
        assert(step(q, r, s.len() as int) == r);
        assert(ws_end(s, r) == r);
        assert(bound(r, ws_end(s, r), s.len() as int) == r);
        let next = r + 1;
        assert forall|k: int| 0 <= k < sr.len() implies s[next + k] == sr[k] by {
            assert(sm[w0.len() + 1 + k] == sr[k]);
            assert(s[i + (w0.len() + 1 + k)] == sm[w0.len() + 1 + k]);
        }
        assert(next + sr.len() == i + sm.len());
        assert(s[next + sr.len()] == '}');
        assert forall|k: int| 0 <= k < rest.len() implies wf((#[trigger] rest[k]).1) by {
            assert(rest[k] == ms[k + 1]);
        }
        lemma_inv_members(s, next, rest);
        assert(parse_members(s, next) == Some((rest, next + sr.len() + 1)));
        assert(parse_members(s, i) == Some((seq![(key, v0)] + rest, next + sr.len() + 1)));
        assert(seq![(key, v0)] + rest =~= ms);
        assert(next + sr.len() + 1 == i + sm.len() + 1);
    }
}

/// Round trip: rendering a well-formed document and parsing the text gives
/// the document back.
pub proof fn lemma_parse_render(v: JVal)
    requires
        wf(v),
    ensures
        spec_parse(ser_val(v)) == Some(v),
{
    let s = ser_val(v);
    lemma_ser_first(v);
    assert(ws_end(s, 0) == 0);
    assert(bound(0, ws_end(s, 0), s.len() as int) == 0);
    assert forall|k: int| 0 <= k < s.len() implies s[0 + k] == #[trigger] s[k] by {}
    lemma_inv_value(s, 0, v);
    assert(parse_value(s, 0) == Some((v, s.len() as int)));
    assert(ws_end(s, s.len() as int) == s.len());
    assert(bound(s.len() as int, ws_end(s, s.len() as int), s.len() as int) == s.len());
}

} // verus!
