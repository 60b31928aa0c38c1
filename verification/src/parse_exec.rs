//! The executable parser: returns exactly what `spec_parse` says.

use vstd::prelude::*;

use crate::json::{
    digit_val, digits_end, digits_val, int_form_val, is_digit, jv, jv_members, jv_seq, jwf,
    num_end, JVal, Json,
};
use crate::parse::{
    hex4_val, hex_val, is_hex, is_ws, num_jval, parse_elems, parse_members, parse_str,
    parse_value, spec_parse, step, str_cons, ws_end,
};
use crate::parse_props::{
    lemma_digits_end, lemma_num_end_range, lemma_num_sub_wf, lemma_parse_str_range,
};
use crate::render::push_char;

verus! {
broadcast use
    vstd::seq::group_seq_axioms,
    vstd::std_specs::vec::group_vec_axioms,
    vstd::utf8::char_u32_cast;

/// Relies on char::from_u32: `Some` exactly at Unicode scalar values, and
/// the character casts back to the given code.
#[verifier::external_body]
fn char_from_u32(u: u32) -> (r: Option<char>)
    ensures
        r is Some <==> (u < 0xD800 || (0xE000 <= u && u <= 0x10FFFF)),
        r matches Some(c) ==> c as u32 == u,
{
    char::from_u32(u)
}

/// The characters of a string slice, as a vector.
pub fn str_chars(s: &str) -> (r: Vec<char>)
    ensures
        r@ == s@,
{
    let n: usize = s.unicode_len();
    let mut r: Vec<char> = Vec::new();
    let mut i: usize = 0;
    while i < n
        invariant
            i <= n,
            n == s@.len(),
            r@ == s@.take(i as int),
        decreases n - i,
    {
        r.push(s.get_char(i));
        proof {
            assert(r@ =~= s@.take(i + 1));
        }
        i = i + 1;
    }
    proof {
        assert(s@.take(n as int) =~= s@);
    }
    r
}

/// The characters `v[from .. to]`, as a string.
fn chars_string(v: &Vec<char>, from: usize, to: usize) -> (r: String)
    requires
        from <= to <= v@.len(),
    ensures
        r@ == v@.subrange(from as int, to as int),
{
    let mut r = String::new();
    let mut i: usize = from;
    proof {
        assert(v@.subrange(from as int, from as int) =~= Seq::<char>::empty());
    }
    while i < to
        invariant
            from <= i <= to <= v@.len(),
            r@ == v@.subrange(from as int, i as int),
        decreases to - i,
    {
        push_char(&mut r, v[i]);
        proof {
            assert(v@.subrange(from as int, i + 1) =~= v@.subrange(from as int, i as int).push(v@[i as int]));
        }
        i = i + 1;
    }
    r
}

/// The value of a decimal digit character.
fn digit_of(c: char) -> (r: u64)
    requires
        is_digit(c),
    ensures
        r == digit_val(c),
        r < 10,
{
    ((c as u32) - 0x30) as u64
}

/// The value of a hexadecimal digit character.
fn hex_of(c: char) -> (r: u32)
    requires
        is_hex(c),
    ensures
        r == hex_val(c),
        r < 16,
{
    let u: u32 = c as u32;
    if u >= 0x61 {
        u - 0x61 + 10
    } else if u >= 0x41 {
        u - 0x41 + 10
    } else {
        u - 0x30
    }
}

fn is_ws_char(c: char) -> (r: bool)
    ensures
        r == is_ws(c),
{
    c == ' ' || c == '\t' || c == '\n' || c == '\r'
}

fn is_digit_char(c: char) -> (r: bool)
    ensures
        r == is_digit(c),
{
    let u: u32 = c as u32;
    0x30 <= u && u <= 0x39
}

fn is_hex_char(c: char) -> (r: bool)
    ensures
        r == is_hex(c),
{
    let u: u32 = c as u32;
    (0x30 <= u && u <= 0x39) || (0x61 <= u && u <= 0x66) || (0x41 <= u && u <= 0x46)
}

/// Skips whitespace: the executable `ws_end`.
fn skip_ws(s: &Vec<char>, i: usize) -> (r: usize)
    requires
        i <= s@.len(),
    ensures
        r == ws_end(s@, i as int),
        i <= r <= s@.len(),
{
    let n: usize = s.len();
    let mut cur: usize = i;
    while cur < n && is_ws_char(s[cur])
        invariant
            i <= cur <= n,
            n == s@.len(),
            ws_end(s@, i as int) == ws_end(s@, cur as int),
        decreases n - cur,
    {
        cur = cur + 1;
    }
    cur
}

/// Scans a digit run: the executable `digits_end`.
fn scan_digits(s: &Vec<char>, i: usize) -> (r: usize)
    requires
        i <= s@.len(),
    ensures
        r == digits_end(s@, i as int),
        i <= r <= s@.len(),
{
    let n: usize = s.len();
    let mut cur: usize = i;
    while cur < n && is_digit_char(s[cur])
        invariant
            i <= cur <= n,
            n == s@.len(),
            digits_end(s@, i as int) == digits_end(s@, cur as int),
        decreases n - cur,
    {
        cur = cur + 1;
    }
    cur
}

/// Powers of ten.
pub open spec fn pow10(n: nat) -> nat
    decreases n,
{
    if n == 0 {
        1
    } else {
        10 * pow10((n - 1) as nat)
    }
}

/// A digit run's value is below `pow10` of its length.
proof fn lemma_digits_val_upper(s: Seq<char>, a: int, b: int)
    requires
        0 <= a <= b <= s.len(),
        forall|k: int| a <= k < b ==> is_digit(#[trigger] s[k]),
    ensures
        digits_val(s, a, b) < pow10((b - a) as nat),
    decreases b - a,
{
    if a < b {
        lemma_digits_val_upper(s, a, b - 1);
    }
}

/// A digit run with no leading zero is at least `pow10` of its length less
/// one.
proof fn lemma_digits_val_lower(s: Seq<char>, a: int, b: int)
    requires
        0 <= a < b <= s.len(),
        forall|k: int| a <= k < b ==> is_digit(#[trigger] s[k]),
        s[a] != '0',
    ensures
        digits_val(s, a, b) >= pow10((b - a - 1) as nat),
    decreases b - a,
{
    if a == b - 1 {
        assert(digit_val(s[a]) >= 1);
    } else {
        lemma_digits_val_lower(s, a, b - 1);
    }
}

/// The executable `num_end`.
fn scan_num(s: &Vec<char>, i: usize) -> (r: Option<usize>)
    requires
        i < s@.len(),
    ensures
        match r {
            Option::None => num_end(s@, i as int) is None,
            Option::Some(end) => num_end(s@, i as int) == Some(end as int) && i < end <= s@.len(),
        },
{
    let n: usize = s.len();
    let j: usize = if s[i] == '-' { i + 1 } else { i };
    let k = scan_digits(s, j);
    if k == j || !(k - j == 1 || s[j] != '0') {
        return Option::None;
    }
    let f: usize = if k < n && s[k] == '.' { scan_digits(s, k + 1) } else { k };
    if f != k && f == k + 1 {
        return Option::None;
    }
    if f < n && (s[f] == 'e' || s[f] == 'E') {
        let h: usize = if f + 1 < n && (s[f + 1] == '+' || s[f + 1] == '-') { f + 2 } else { f + 1 };
        let e = scan_digits(s, h);
        if e == h {
            Option::None
        } else {
            proof {
                lemma_num_end_range(s@, i as int);
            }
            Option::Some(e)
        }
    } else {
        proof {
            lemma_num_end_range(s@, i as int);
        }
        Option::Some(f)
    }
}

/// Parses the number token at `i` into a document.
fn parse_num(s: &Vec<char>, i: usize) -> (r: Option<(Json, usize)>)
    requires
        i < s@.len(),
    ensures
        match r {
            Option::None => num_end(s@, i as int) is None,
            Option::Some((j, end)) => {
                &&& num_end(s@, i as int) == Some(end as int)
                &&& jv(j) == num_jval(s@, i as int, end as int)
                &&& jwf(j)
                &&& i < end <= s@.len()
            },
        },
{
    let end = match scan_num(s, i) {
        Option::None => { return Option::None; },
        Option::Some(e) => e,
    };
    let neg: bool = s[i] == '-';
    let j: usize = if neg { i + 1 } else { i };
    let k = scan_digits(s, j);
    proof {
        lemma_digits_end(s@, j as int);
    }
    if k == end && end - j <= 20 {
        // a plain integer short enough to evaluate exactly
        let mut acc: u128 = 0;
        let mut cur: usize = j;
        proof {
            lemma_digits_val_upper(s@, j as int, j as int);
        }
        while cur < end
            invariant
                j <= cur <= end <= s@.len(),
                end - j <= 20,
                k == end,
                digits_end(s@, j as int) == end,
                forall|x: int| j <= x < end ==> is_digit(#[trigger] s@[x]),
                acc == digits_val(s@, j as int, cur as int),
                acc < pow10((cur - j) as nat),
            decreases end - cur,
        {
            proof {
                lemma_digits_val_upper(s@, j as int, cur + 1);
                assert(pow10(((cur + 1) - j) as nat) <= pow10(20)) by {
                    lemma_pow10_mono(((cur + 1) - j) as nat, 20);
                };
                assert(pow10(20) == 0x5_6bc7_5e2d_6310_0000) by {
                    reveal_with_fuel(pow10, 21);
                };
            }
            acc = acc * 10 + (digit_of(s[cur]) as u128);
            cur = cur + 1;
        }
        if !neg {
            if acc <= 0xFFFF_FFFF_FFFF_FFFF {
                assert(int_form_val(s@, i as int, end as int) == acc as int);
                Option::Some((Json::UInt(acc as u64), end))
            } else {
                proof {
                    lemma_num_sub_wf(s@, i as int);
                }
                let text = chars_string(s, i, end);
                Option::Some((Json::NumText(text), end))
            }
        } else {
            if acc == 0 {
                assert(int_form_val(s@, i as int, end as int) == 0);
                Option::Some((Json::UInt(0), end))
            } else if acc <= 0x8000_0000_0000_0000 {
                assert(int_form_val(s@, i as int, end as int) == -(acc as int));
                Option::Some((Json::NegInt(acc as u64), end))
            } else {
                proof {
                    lemma_num_sub_wf(s@, i as int);
                }
                let text = chars_string(s, i, end);
                Option::Some((Json::NumText(text), end))
            }
        }
    } else {
        proof {
            if k == end {
                // more than 20 digits: the value cannot fit in 64 bits
                assert(s@[j as int] != '0');
                lemma_digits_val_lower(s@, j as int, end as int);
                assert(pow10((end - j - 1) as nat) >= pow10(20)) by {
                    lemma_pow10_mono(20, (end - j - 1) as nat);
                };
                assert(pow10(20) == 0x5_6bc7_5e2d_6310_0000) by {
                    reveal_with_fuel(pow10, 21);
                };
            }
            lemma_num_sub_wf(s@, i as int);
        }
        let text = chars_string(s, i, end);
        Option::Some((Json::NumText(text), end))
    }
}

/// Parses a string body, from just after the opening quote: the
/// executable `parse_str`.
#[verifier::rlimit(100)]
fn parse_string_body(s: &Vec<char>, i: usize) -> (r: Option<(String, usize)>)
    requires
        i <= s@.len(),
    ensures
        match r {
            Option::None => parse_str(s@, i as int) is None,
            Option::Some((t, j)) => parse_str(s@, i as int) == Some((t@, j as int)) && i < j <= s@.len(),
        },
{
    let n: usize = s.len();
    let mut acc = String::new();
    let mut cur: usize = i;
    loop
        invariant
            i <= cur <= n,
            n == s@.len(),
            (parse_str(s@, i as int) == match parse_str(s@, cur as int) {
                Option::None => Option::<(Seq<char>, int)>::None,
                Option::Some((t, j)) => Option::Some((acc@ + t, j)),
            }),
        decreases n - cur,
    {
        if cur >= n {
            return Option::None;
        }
        let c = s[cur];
        if c == '"' {
            proof {
                assert(acc@ + Seq::<char>::empty() =~= acc@);
                lemma_parse_str_range(s@, i as int);
            }
            return Option::Some((acc, cur + 1));
        }
        let ghost acc0 = acc@;
        let ghost cur0 = cur as int;
        if c == '\\' {
            if n - cur < 2 {
                return Option::None;
            }
            let e = s[cur + 1];
            let decoded: char;
            if e == '"' || e == '\\' || e == '/' {
                decoded = e;
            } else if e == 'b' {
                decoded = '\u{8}';
            } else if e == 'f' {
                decoded = '\u{c}';
            } else if e == 'n' {
                decoded = '\n';
            } else if e == 'r' {
                decoded = '\r';
            } else if e == 't' {
                decoded = '\t';
            } else if e == 'u' {
                if n - cur < 6 {
                    return Option::None;
                }
                if !(is_hex_char(s[cur + 2]) && is_hex_char(s[cur + 3]) && is_hex_char(s[cur + 4])
                    && is_hex_char(s[cur + 5])) {
                    return Option::None;
                }
                let code: u32 = hex_of(s[cur + 2]) * 0x1000 + hex_of(s[cur + 3]) * 0x100
                    + hex_of(s[cur + 4]) * 0x10 + hex_of(s[cur + 5]);
                proof {
                    assert(code == hex4_val(s@, cur0 + 2));
                }
                if code < 0xD800 || code > 0xDFFF {
                    match char_from_u32(code) {
                        Option::Some(ch) => {
                            push_char(&mut acc, ch);
                            cur = cur + 6;
                            proof {
                                vstd::utf8::char_u32_cast(ch, code);
                                assert((hex4_val(s@, cur0 + 2) as u32) as char == ch);
                                assert(parse_str(s@, cur0) == str_cons(ch, parse_str(s@, cur as int)));
                                lemma_str_fold(s@, i as int, cur0, cur as int, acc0, acc@, ch);
                            }
                            continue;
                        },
                        Option::None => {
                            proof {
                                assert(false);
                            }
                            return Option::None;
                        },
                    }
                } else if code <= 0xDBFF {
                    // a high surrogate: it must be followed by an escaped
                    // low surrogate, and the two combine to one character
                    if n - cur < 12 {
                        return Option::None;
                    }
                    if !(s[cur + 6] == '\\' && s[cur + 7] == 'u') {
                        return Option::None;
                    }
                    if !(is_hex_char(s[cur + 8]) && is_hex_char(s[cur + 9]) && is_hex_char(s[cur + 10])
                        && is_hex_char(s[cur + 11])) {
                        return Option::None;
                    }
                    let code2: u32 = hex_of(s[cur + 8]) * 0x1000 + hex_of(s[cur + 9]) * 0x100
                        + hex_of(s[cur + 10]) * 0x10 + hex_of(s[cur + 11]);
                    proof {
                        assert(code2 == hex4_val(s@, cur0 + 8));
                    }
                    if !(0xDC00 <= code2 && code2 <= 0xDFFF) {
                        return Option::None;
                    }
                    let combined: u32 = 0x10000 + (code - 0xD800) * 0x400 + (code2 - 0xDC00);
                    match char_from_u32(combined) {
                        Option::Some(ch) => {
                            push_char(&mut acc, ch);
                            cur = cur + 12;
                            proof {
                                vstd::utf8::char_u32_cast(ch, combined);
                                assert(((0x10000 + (hex4_val(s@, cur0 + 2) - 0xD800) * 0x400
                                    + (hex4_val(s@, cur0 + 8) - 0xDC00)) as u32) as char == ch);
                                assert(parse_str(s@, cur0) == str_cons(ch, parse_str(s@, cur as int)));
                                lemma_str_fold(s@, i as int, cur0, cur as int, acc0, acc@, ch);
                            }
                            continue;
                        },
                        Option::None => {
                            proof {
                                assert(false);
                            }
                            return Option::None;
                        },
                    }
                } else {
                    return Option::None;
                }
            } else {
                return Option::None;
            }
            push_char(&mut acc, decoded);
            cur = cur + 2;
            proof {
                assert(parse_str(s@, cur0) == str_cons(decoded, parse_str(s@, cur as int)));
                lemma_str_fold(s@, i as int, cur0, cur as int, acc0, acc@, decoded);
            }
        } else if (c as u32) < 0x20 {
            return Option::None;
        } else {
            push_char(&mut acc, c);
            cur = cur + 1;
            proof {
                assert(parse_str(s@, cur0) == str_cons(c, parse_str(s@, cur as int)));
                lemma_str_fold(s@, i as int, cur0, cur as int, acc0, acc@, c);
            }
        }
    }
}

/// One step of the string loop: folding a decoded character into the
/// accumulated text keeps the loop's account of the parse.
proof fn lemma_str_fold(s: Seq<char>, i0: int, cur0: int, curn: int, acc0: Seq<char>, accn: Seq<char>, d: char)
    requires
        parse_str(s, cur0) == str_cons(d, parse_str(s, curn)),
        accn == acc0.push(d),
        parse_str(s, i0) == (match parse_str(s, cur0) {
            Option::None => Option::<(Seq<char>, int)>::None,
            Option::Some((t, j)) => Option::Some((acc0 + t, j)),
        }),
    ensures
        parse_str(s, i0) == (match parse_str(s, curn) {
            Option::None => Option::<(Seq<char>, int)>::None,
            Option::Some((t, j)) => Option::Some((accn + t, j)),
        }),
{
    let pn = parse_str(s, curn);
    if pn is Some {
        let t = (pn->0).0;
        assert(acc0 + (seq![d] + t) =~= accn + t);
    }
}

/// The executable `parse_value`.
fn parse_value_at(s: &Vec<char>, i: usize) -> (r: Option<(Json, usize)>)
    requires
        i <= s@.len(),
    ensures
        match r {
            Option::None => parse_value(s@, i as int) is None,
            Option::Some((doc, j)) => {
                &&& parse_value(s@, i as int) == Some((jv(doc), j as int))
                &&& jwf(doc)
                &&& i < j <= s@.len()
            },
        },
    decreases s@.len() - i, 0int,
{
    let n: usize = s.len();
    if i >= n {
        return Option::None;
    }
    let c = s[i];
    if c == 'n' {
        if n - i >= 4 && s[i + 1] == 'u' && s[i + 2] == 'l' && s[i + 3] == 'l' {
            Option::Some((Json::Null, i + 4))
        } else {
            Option::None
        }
    } else if c == 't' {
        if n - i >= 4 && s[i + 1] == 'r' && s[i + 2] == 'u' && s[i + 3] == 'e' {
            Option::Some((Json::Bool(true), i + 4))
        } else {
            Option::None
        }
    } else if c == 'f' {
        if n - i >= 5 && s[i + 1] == 'a' && s[i + 2] == 'l' && s[i + 3] == 's' && s[i + 4] == 'e' {
            Option::Some((Json::Bool(false), i + 5))
        } else {
            Option::None
        }
    } else if c == '"' {
        match parse_string_body(s, i + 1) {
            Option::None => Option::None,
            Option::Some((t, j)) => Option::Some((Json::Str(t), j)),
        }
    } else if c == '[' {
        let j = skip_ws(s, i + 1);
        if j < n && s[j] == ']' {
            let empty: Vec<Json> = Vec::new();
            proof {
                assert(jv_seq(empty@) =~= Seq::<JVal>::empty());
            }
            Option::Some((Json::Arr(empty), j + 1))
        } else {
            match parse_elems_at(s, i + 1) {
                Option::None => Option::None,
                Option::Some((elems, k)) => Option::Some((Json::Arr(elems), k)),
            }
        }
    } else if c == '{' {
        let j = skip_ws(s, i + 1);
        if j < n && s[j] == '}' {
            let empty: Vec<(String, Json)> = Vec::new();
            proof {
                assert(jv_members(empty@) =~= Seq::<(Seq<char>, JVal)>::empty());
            }
            Option::Some((Json::Obj(empty), j + 1))
        } else {
            match parse_members_at(s, i + 1) {
                Option::None => Option::None,
                Option::Some((ms, k)) => Option::Some((Json::Obj(ms), k)),
            }
        }
    } else if c == '-' || is_digit_char(c) {
        parse_num(s, i)
    } else {
        Option::None
    }
}

/// The executable `parse_elems`.
fn parse_elems_at(s: &Vec<char>, i: usize) -> (r: Option<(Vec<Json>, usize)>)
    requires
        i <= s@.len(),
    ensures
        match r {
            Option::None => parse_elems(s@, i as int) is None,
            Option::Some((elems, j)) => {
                &&& parse_elems(s@, i as int) == Some((jv_seq(elems@), j as int))
                &&& forall|k: int| 0 <= k < elems@.len() ==> jwf(#[trigger] elems@[k])
                &&& i < j <= s@.len()
            },
        },
    decreases s@.len() - i, 1int,
{
    let n: usize = s.len();
    let mut acc: Vec<Json> = Vec::new();
    let mut cur: usize = i;
    proof {
        assert(jv_seq(acc@) =~= Seq::<JVal>::empty());
        let pe = parse_elems(s@, i as int);
        if pe is Some {
            assert(jv_seq(acc@) + (pe->0).0 =~= (pe->0).0);
        }
    }
    loop
        invariant
            i <= cur <= n,
            n == s@.len(),
            forall|k: int| 0 <= k < acc@.len() ==> jwf(#[trigger] acc@[k]),
            (parse_elems(s@, i as int) == match parse_elems(s@, cur as int) {
                Option::None => Option::<(Seq<JVal>, int)>::None,
                Option::Some((rest, end)) => Option::Some((jv_seq(acc@) + rest, end)),
            }),
        decreases n - cur,
    {
        let j = skip_ws(s, cur);
        let (doc, j2) = match parse_value_at(s, j) {
            Option::None => {
                return Option::None;
            },
            Option::Some(p) => p,
        };
        let k2 = skip_ws(s, j2);
        proof {
            assert(step(j as int, j2 as int, n as int) == j2 as int);
        }
        if k2 >= n {
            return Option::None;
        }
        let c = s[k2];
        let ghost acc0 = acc@;
        if c == ']' {
            acc.push(doc);
            proof {
                crate::json::lemma_jv_seq_push(acc0, doc);
                assert(jv_seq(acc0) + seq![jv(doc)] =~= jv_seq(acc@));
            }
            return Option::Some((acc, k2 + 1));
        } else if c == ',' {
            acc.push(doc);
            proof {
                crate::json::lemma_jv_seq_push(acc0, doc);
                let pe = parse_elems(s@, k2 + 1);
                if pe is Some {
                    assert(jv_seq(acc0) + (seq![jv(doc)] + (pe->0).0) =~= jv_seq(acc@) + (pe->0).0);
                }
            }
            cur = k2 + 1;
        } else {
            return Option::None;
        }
    }
}

/// The executable `parse_members`.
fn parse_members_at(s: &Vec<char>, i: usize) -> (r: Option<(Vec<(String, Json)>, usize)>)
    requires
        i <= s@.len(),
    ensures
        match r {
            Option::None => parse_members(s@, i as int) is None,
            Option::Some((ms, j)) => {
                &&& parse_members(s@, i as int) == Some((jv_members(ms@), j as int))
                &&& forall|k: int| 0 <= k < ms@.len() ==> jwf((#[trigger] ms@[k]).1)
                &&& i < j <= s@.len()
            },
        },
    decreases s@.len() - i, 1int,
{
    let n: usize = s.len();
    let mut acc: Vec<(String, Json)> = Vec::new();
    let mut cur: usize = i;
    proof {
        assert(jv_members(acc@) =~= Seq::<(Seq<char>, JVal)>::empty());
        let pm = parse_members(s@, i as int);
        if pm is Some {
            assert(jv_members(acc@) + (pm->0).0 =~= (pm->0).0);
        }
    }
    loop
        invariant
            i <= cur <= n,
            n == s@.len(),
            forall|k: int| 0 <= k < acc@.len() ==> jwf((#[trigger] acc@[k]).1),
            (parse_members(s@, i as int) == match parse_members(s@, cur as int) {
                Option::None => Option::<(Seq<(Seq<char>, JVal)>, int)>::None,
                Option::Some((rest, end)) => Option::Some((jv_members(acc@) + rest, end)),
            }),
        decreases n - cur,
    {
        let j = skip_ws(s, cur);
        if j >= n {
            return Option::None;
        }
        if s[j] != '"' {
            return Option::None;
        }
        let (key, j2) = match parse_string_body(s, j + 1) {
            Option::None => {
                return Option::None;
            },
            Option::Some(p) => p,
        };
        let k2 = skip_ws(s, j2);
        proof {
            assert(step(j as int, j2 as int, n as int) == j2 as int);
        }
        if k2 >= n {
            return Option::None;
        }
        if s[k2] != ':' {
            return Option::None;
        }
        let k3 = skip_ws(s, k2 + 1);
        let (doc, k4) = match parse_value_at(s, k3) {
            Option::None => {
                return Option::None;
            },
            Option::Some(p) => p,
        };
        let k6 = skip_ws(s, k4);
        proof {
            assert(step(k3 as int, k4 as int, n as int) == k4 as int);
        }
        if k6 >= n {
            return Option::None;
        }
        let c = s[k6];
        let ghost acc0 = acc@;
        if c == '}' {
            acc.push((key, doc));
            proof {
                crate::json::lemma_jv_members_push(acc0, (key, doc));
                assert(jv_members(acc0) + seq![(key@, jv(doc))] =~= jv_members(acc@));
            }
            return Option::Some((acc, k6 + 1));
        } else if c == ',' {
            acc.push((key, doc));
            proof {
                crate::json::lemma_jv_members_push(acc0, (key, doc));
                let pm = parse_members(s@, k6 + 1);
                if pm is Some {
                    assert(jv_members(acc0) + (seq![(key@, jv(doc))] + (pm->0).0) =~= jv_members(acc@) + (pm->0).0);
                }
            }
            cur = k6 + 1;
        } else {
            return Option::None;
        }
    }
}

/// Parses a whole body: exactly what `spec_parse` says, as a `Json`
/// document.
pub fn parse(text: &str) -> (r: Option<Json>)
    ensures
        match r {
            Option::None => spec_parse(text@) is None,
            Option::Some(doc) => spec_parse(text@) == Some(jv(doc)) && jwf(doc),
        },
{
    let chars = str_chars(text);
    let i = skip_ws(&chars, 0);
    match parse_value_at(&chars, i) {
        Option::None => Option::None,
        Option::Some((doc, j)) => {
            let k = skip_ws(&chars, j);
            if k == chars.len() {
                Option::Some(doc)
            } else {
                Option::None
            }
        },
    }
}

/// `pow10` is monotone.
proof fn lemma_pow10_mono(a: nat, b: nat)
    requires
        a <= b,
    ensures
        pow10(a) <= pow10(b),
    decreases b,
{
    if a < b {
        lemma_pow10_mono(a, (b - 1) as nat);
        assert(pow10(b) == 10 * pow10((b - 1) as nat));
        assert(pow10((b - 1) as nat) >= 1) by {
            lemma_pow10_pos((b - 1) as nat);
        };
    }
}

/// `pow10` is positive.
proof fn lemma_pow10_pos(n: nat)
    ensures
        pow10(n) >= 1,
    decreases n,
{
    if n > 0 {
        lemma_pow10_pos((n - 1) as nat);
    }
}

} // verus!
