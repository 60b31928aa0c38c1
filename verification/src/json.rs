//! The JSON wire format.
//!
//! `Json` is the executable document type: request bodies are built as `Json`
//! values and rendered to text, response bodies are parsed back into `Json`.
//! `JVal` is its mathematical model, with `Seq` and `int` in place of `Vec`,
//! `String` and the machine integers.  `ser_val` says, character by
//! character, what the renderer emits; the parser is specified in
//! `crate::parse`.
//!
//! Numbers keep their wire fidelity: integers that fit the signed or unsigned
//! 64-bit range become `UInt`/`NegInt`, every other number literal (decimals,
//! exponents, oversize integers) is carried verbatim as `NumText`.

use vstd::prelude::*;

verus! {
broadcast use vstd::seq::group_seq_axioms, vstd::std_specs::vec::group_vec_axioms;

/// Mathematical model of a JSON document.
#[verifier::ext_equal]
pub enum JVal {
    Null,
    Bool(bool),
    /// An integer in `-(2^63) ..= u64::MAX`.
    Int(int),
    /// A number literal kept as raw text (not an integer in `Int` range).
    NumText(Seq<char>),
    Str(Seq<char>),
    Arr(Seq<JVal>),
    Obj(Seq<(Seq<char>, JVal)>),
}

/// Executable JSON document.
#[derive(Debug, PartialEq, Eq)]
pub enum Json {
    Null,
    Bool(bool),
    UInt(u64),
    /// A negative integer, stored as its magnitude (`1 ..= 2^63`).
    NegInt(u64),
    /// A number literal kept as raw text.
    NumText(String),
    Str(String),
    Arr(Vec<Json>),
    Obj(Vec<(String, Json)>),
}

/// The model of an executable document.
pub open spec fn jv(j: Json) -> JVal
    decreases j,
{
    match j {
        Json::Null => JVal::Null,
        Json::Bool(b) => JVal::Bool(b),
        Json::UInt(u) => JVal::Int(u as int),
        Json::NegInt(m) => JVal::Int(-(m as int)),
        Json::NumText(s) => JVal::NumText(s@),
        Json::Str(s) => JVal::Str(s@),
        Json::Arr(v) => JVal::Arr(jv_seq(v@)),
        Json::Obj(v) => JVal::Obj(jv_members(v@)),
    }
}

/// The models of a sequence of executable documents.
pub open spec fn jv_seq(v: Seq<Json>) -> Seq<JVal>
    decreases v,
{
    if v.len() == 0 {
        Seq::empty()
    } else {
        seq![jv(v[0])] + jv_seq(v.drop_first())
    }
}

/// The models of a sequence of executable object members.
pub open spec fn jv_members(v: Seq<(String, Json)>) -> Seq<(Seq<char>, JVal)>
    decreases v,
{
    if v.len() == 0 {
        Seq::empty()
    } else {
        seq![(v[0].0@, jv(v[0].1))] + jv_members(v.drop_first())
    }
}

/// `jv_seq` maps elementwise.
pub proof fn lemma_jv_seq(v: Seq<Json>)
    ensures
        jv_seq(v).len() == v.len(),
        forall|i: int| 0 <= i < v.len() ==> jv_seq(v)[i] == jv(#[trigger] v[i]),
    decreases v.len(),
{
    if v.len() > 0 {
        lemma_jv_seq(v.drop_first());
        assert forall|i: int| 0 <= i < v.len() implies jv_seq(v)[i] == jv(#[trigger] v[i]) by {
            if i > 0 {
                assert(v.drop_first()[i - 1] == v[i]);
                assert(jv_seq(v)[i] == jv_seq(v.drop_first())[i - 1]);
            }
        }
    }
}

/// `jv_members` maps elementwise.
pub proof fn lemma_jv_members(v: Seq<(String, Json)>)
    ensures
        jv_members(v).len() == v.len(),
        forall|i: int| 0 <= i < v.len() ==> jv_members(v)[i] == ((#[trigger] v[i]).0@, jv(v[i].1)),
    decreases v.len(),
{
    if v.len() > 0 {
        lemma_jv_members(v.drop_first());
        assert forall|i: int| 0 <= i < v.len() implies jv_members(v)[i] == ((#[trigger] v[i]).0@, jv(v[i].1)) by {
            if i > 0 {
                assert(v.drop_first()[i - 1] == v[i]);
                assert(jv_members(v)[i] == jv_members(v.drop_first())[i - 1]);
            }
        }
    }
}

pub open spec fn is_digit(c: char) -> bool {
    0x30 <= (c as u32) && (c as u32) <= 0x39
}

pub open spec fn digit_char(d: int) -> char {
    if d == 0 { '0' }
    else if d == 1 { '1' }
    else if d == 2 { '2' }
    else if d == 3 { '3' }
    else if d == 4 { '4' }
    else if d == 5 { '5' }
    else if d == 6 { '6' }
    else if d == 7 { '7' }
    else if d == 8 { '8' }
    else { '9' }
}

pub open spec fn digit_val(c: char) -> int {
    if c == '0' { 0 }
    else if c == '1' { 1 }
    else if c == '2' { 2 }
    else if c == '3' { 3 }
    else if c == '4' { 4 }
    else if c == '5' { 5 }
    else if c == '6' { 6 }
    else if c == '7' { 7 }
    else if c == '8' { 8 }
    else { 9 }
}

/// Lower-case hexadecimal digit, for `\u00xx` escapes.
pub open spec fn hex_char(d: int) -> char {
    if d == 10 { 'a' }
    else if d == 11 { 'b' }
    else if d == 12 { 'c' }
    else if d == 13 { 'd' }
    else if d == 14 { 'e' }
    else if d == 15 { 'f' }
    else { digit_char(d) }
}

/// Decimal rendering of a natural number, most significant digit first.
pub open spec fn dec_str(n: nat) -> Seq<char>
    decreases n,
{
    if n < 10 {
        seq![digit_char(n as int)]
    } else {
        dec_str(n / 10) + seq![digit_char((n % 10) as int)]
    }
}

/// Decimal rendering of an integer, with a leading `-` when negative.
pub open spec fn int_str(i: int) -> Seq<char> {
    if i < 0 {
        seq!['-'] + dec_str((-i) as nat)
    } else {
        dec_str(i as nat)
    }
}

/// How one character of a string is written inside double quotes.
pub open spec fn esc_char(c: char) -> Seq<char> {
    if c == '"' { seq!['\\', '"'] }
    else if c == '\\' { seq!['\\', '\\'] }
    else if c == '\u{8}' { seq!['\\', 'b'] }
    else if c == '\t' { seq!['\\', 't'] }
    else if c == '\n' { seq!['\\', 'n'] }
    else if c == '\u{c}' { seq!['\\', 'f'] }
    else if c == '\r' { seq!['\\', 'r'] }
    else if (c as u32) < 0x20 {
        seq!['\\', 'u', '0', '0', hex_char(((c as u32) / 16) as int), hex_char(((c as u32) % 16) as int)]
    } else {
        seq![c]
    }
}

/// A string's characters, escaped for the wire.
pub open spec fn esc(s: Seq<char>) -> Seq<char>
    decreases s.len(),
{
    if s.len() == 0 {
        Seq::empty()
    } else {
        esc_char(s[0]) + esc(s.drop_first())
    }
}

/// The rendering of a document: compact, no whitespace, keys in the order
/// the object holds them.
pub open spec fn ser_val(v: JVal) -> Seq<char>
    decreases v,
{
    match v {
        JVal::Null => seq!['n', 'u', 'l', 'l'],
        JVal::Bool(b) => if b { seq!['t', 'r', 'u', 'e'] } else { seq!['f', 'a', 'l', 's', 'e'] },
        JVal::Int(i) => int_str(i),
        JVal::NumText(s) => s,
        JVal::Str(s) => seq!['"'] + esc(s) + seq!['"'],
        JVal::Arr(elems) => seq!['['] + ser_elems(elems) + seq![']'],
        JVal::Obj(ms) => seq!['{'] + ser_members(ms) + seq!['}'],
    }
}

/// Comma-separated renderings of an array's elements.
pub open spec fn ser_elems(elems: Seq<JVal>) -> Seq<char>
    decreases elems,
{
    if elems.len() == 0 {
        Seq::empty()
    } else if elems.len() == 1 {
        ser_val(elems[0])
    } else {
        ser_val(elems[0]) + seq![','] + ser_elems(elems.drop_first())
    }
}

/// One `"key":value` object member.
pub open spec fn ser_member(m: (Seq<char>, JVal)) -> Seq<char>
    decreases m,
{
    seq!['"'] + esc(m.0) + seq!['"', ':'] + ser_val(m.1)
}

/// Comma-separated renderings of an object's members.
pub open spec fn ser_members(ms: Seq<(Seq<char>, JVal)>) -> Seq<char>
    decreases ms,
{
    if ms.len() == 0 {
        Seq::empty()
    } else if ms.len() == 1 {
        ser_member(ms[0])
    } else {
        ser_member(ms[0]) + seq![','] + ser_members(ms.drop_first())
    }
}

/// End of the run of decimal digits that starts at `i`.
pub open spec fn digits_end(s: Seq<char>, i: int) -> int
    decreases s.len() - i,
{
    if 0 <= i && i < s.len() && is_digit(s[i]) {
        digits_end(s, i + 1)
    } else {
        i
    }
}

/// Value of the digit run `s[i .. j]`, most significant digit first.
pub open spec fn digits_val(s: Seq<char>, i: int, j: int) -> nat
    decreases j - i,
{
    if i < j {
        (digits_val(s, i, j - 1) * 10 + digit_val(s[j - 1])) as nat
    } else {
        0
    }
}

/// JSON's integer-part rule: one digit, or several not starting with zero.
pub open spec fn int_part_ok(s: Seq<char>, i: int, j: int) -> bool {
    j - i == 1 || s[i] != '0'
}

/// End of the number token that starts at `i`, when there is a valid one.
pub open spec fn num_end(s: Seq<char>, i: int) -> Option<int> {
    let j = if i < s.len() && s[i] == '-' { i + 1 } else { i };
    let k = digits_end(s, j);
    if k == j || !int_part_ok(s, j, k) {
        None
    } else {
        let f = if k < s.len() && s[k] == '.' { digits_end(s, k + 1) } else { k };
        if f != k && f == k + 1 {
            None
        } else {
            let g = if f < s.len() && ((s[f] == 'e') || (s[f] == 'E')) {
                let h = if f + 1 < s.len() && ((s[f + 1] == '+') || (s[f + 1] == '-')) { f + 2 } else { f + 1 };
                let e = digits_end(s, h);
                if e == h { None } else { Some(e) }
            } else {
                Some(f)
            };
            g
        }
    }
}

/// Whether the number token `s[i .. end]` is written as a plain integer.
pub open spec fn int_form(s: Seq<char>, i: int, end: int) -> bool {
    let j = if i < s.len() && s[i] == '-' { i + 1 } else { i };
    digits_end(s, j) == end
}

/// The value of a plain-integer token `s[i .. end]`.
pub open spec fn int_form_val(s: Seq<char>, i: int, end: int) -> int {
    if i < s.len() && s[i] == '-' {
        -(digits_val(s, i + 1, end) as int)
    } else {
        digits_val(s, i, end) as int
    }
}

/// Whether a plain-integer token's value lies in `Int`'s range.
pub open spec fn int_form_fits(s: Seq<char>, i: int, end: int) -> bool {
    -0x8000_0000_0000_0000 <= int_form_val(s, i, end) && int_form_val(s, i, end) <= 0xFFFF_FFFF_FFFF_FFFF
}

/// What `NumText` may carry: a whole valid number token that is not an
/// integer in `Int`'s range.
pub open spec fn num_text_wf(s: Seq<char>) -> bool {
    num_end(s, 0) == Some(s.len() as int) && !(int_form(s, 0, s.len() as int) && int_form_fits(s, 0, s.len() as int))
}

/// Well-formed models: numbers in range or carried as valid raw text.
pub open spec fn wf(v: JVal) -> bool
    decreases v,
{
    match v {
        JVal::Null => true,
        JVal::Bool(_) => true,
        JVal::Int(i) => -0x8000_0000_0000_0000 <= i && i <= 0xFFFF_FFFF_FFFF_FFFF,
        JVal::NumText(s) => num_text_wf(s),
        JVal::Str(_) => true,
        JVal::Arr(elems) => forall|i: int| 0 <= i < elems.len() ==> wf(#[trigger] elems[i]),
        JVal::Obj(ms) => forall|i: int| 0 <= i < ms.len() ==> wf(#[trigger] ms[i].1),
    }
}

/// Well-formed executable documents: `NegInt` holds a true magnitude and raw
/// number text is valid, so that rendering matches `ser_val` exactly.
pub open spec fn jwf(j: Json) -> bool
    decreases j,
{
    match j {
        Json::Null => true,
        Json::Bool(_) => true,
        Json::UInt(_) => true,
        Json::NegInt(m) => 1 <= m && m <= 0x8000_0000_0000_0000,
        Json::NumText(s) => num_text_wf(s@),
        Json::Str(_) => true,
        Json::Arr(v) => forall|i: int| 0 <= i < v@.len() ==> jwf(#[trigger] v@[i]),
        Json::Obj(v) => forall|i: int| 0 <= i < v@.len() ==> jwf((#[trigger] v@[i]).1),
    }
}

/// Adding one document to a sequence adds its model.
pub proof fn lemma_jv_seq_push(v: Seq<Json>, j: Json)
    ensures
        jv_seq(v.push(j)) == jv_seq(v).push(jv(j)),
{
    lemma_jv_seq(v.push(j));
    lemma_jv_seq(v);
    assert forall|i: int| 0 <= i < v.len() + 1 implies jv_seq(v.push(j))[i] == jv_seq(v).push(jv(j))[i] by {
        if i < v.len() {
            assert(v.push(j)[i] == v[i]);
        } else {
            assert(v.push(j)[i] == j);
        }
    }
    assert(jv_seq(v.push(j)) =~= jv_seq(v).push(jv(j)));
}

/// Adding one member to a sequence adds its model.
pub proof fn lemma_jv_members_push(v: Seq<(String, Json)>, m: (String, Json))
    ensures
        jv_members(v.push(m)) == jv_members(v).push((m.0@, jv(m.1))),
{
    lemma_jv_members(v.push(m));
    lemma_jv_members(v);
    assert forall|i: int| 0 <= i < v.len() + 1 implies jv_members(v.push(m))[i] == jv_members(v).push((m.0@, jv(m.1)))[i] by {
        if i < v.len() {
            assert(v.push(m)[i] == v[i]);
        } else {
            assert(v.push(m)[i] == m);
        }
    }
    assert(jv_members(v.push(m)) =~= jv_members(v).push((m.0@, jv(m.1))));
}

/// The document an optional string field serializes to: `null` when
/// absent.
pub open spec fn jv_opt_str(o: Option<String>) -> JVal {
    match o {
        Option::None => JVal::Null,
        Option::Some(s) => JVal::Str(s@),
    }
}

/// The document an optional count field serializes to: `null` when
/// absent.
pub open spec fn jv_opt_u64(o: Option<u64>) -> JVal {
    match o {
        Option::None => JVal::Null,
        Option::Some(u) => JVal::Int(u as int),
    }
}

/// The document an optional signed count field serializes to.
pub open spec fn jv_opt_i64(o: Option<i64>) -> JVal {
    match o {
        Option::None => JVal::Null,
        Option::Some(x) => JVal::Int(x as int),
    }
}

/// The document an optional boolean field serializes to.
pub open spec fn jv_opt_bool(o: Option<bool>) -> JVal {
    match o {
        Option::None => JVal::Null,
        Option::Some(b) => JVal::Bool(b),
    }
}

/// The view of an optional string.
pub open spec fn o_str(o: Option<String>) -> Option<Seq<char>> {
    match o {
        Option::None => Option::None,
        Option::Some(s) => Option::Some(s@),
    }
}

/// The value of an optional unsigned count.
pub open spec fn o_u64(o: Option<u64>) -> Option<int> {
    match o {
        Option::None => Option::None,
        Option::Some(u) => Option::Some(u as int),
    }
}

/// The value of an optional signed count.
pub open spec fn o_i64(o: Option<i64>) -> Option<int> {
    match o {
        Option::None => Option::None,
        Option::Some(x) => Option::Some(x as int),
    }
}

/// A well-formed executable document models a well-formed `JVal`.
pub proof fn lemma_jwf_wf(j: Json)
    requires
        jwf(j),
    ensures
        wf(jv(j)),
    decreases j,
{
    match j {
        Json::Arr(v) => {
            lemma_jv_seq(v@);
            assert forall|i: int| 0 <= i < jv_seq(v@).len() implies wf(#[trigger] jv_seq(v@)[i]) by {
                lemma_jwf_wf(v@[i]);
            }
        },
        Json::Obj(v) => {
            lemma_jv_members(v@);
            assert forall|i: int| 0 <= i < jv_members(v@).len() implies wf(#[trigger] jv_members(v@)[i].1) by {
                lemma_jwf_wf(v@[i].1);
            }
        },
        _ => {},
    }
}

} // verus!
