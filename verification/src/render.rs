//! Rendering a `Json` document to its wire text.
//!
//! The renderer writes exactly `ser_val` of the document's model: compact
//! JSON, members in order, strings escaped as `esc` says.

use vstd::prelude::*;

use crate::json::{
    dec_str, digit_char, esc, esc_char, hex_char, int_str, jv, jv_members, jv_seq, jwf,
    lemma_jv_members, lemma_jv_seq, ser_elems, ser_member, ser_members, ser_val, JVal, Json,
};

verus! {
broadcast use vstd::seq::group_seq_axioms, vstd::std_specs::vec::group_vec_axioms;

/// Relies on String::push: appends the given character to the end.
#[verifier::external_body]
pub(crate) fn push_char(out: &mut String, c: char)
    ensures
        final(out)@ == old(out)@.push(c),
{
    out.push(c);
}

/// The decimal digit `d` as a one-character string slice.
fn digit_str(d: u64) -> (r: &'static str)
    requires
        d < 10,
    ensures
        r@ == seq![digit_char(d as int)],
{
    proof {
        reveal_strlit("0");
        reveal_strlit("1");
        reveal_strlit("2");
        reveal_strlit("3");
        reveal_strlit("4");
        reveal_strlit("5");
        reveal_strlit("6");
        reveal_strlit("7");
        reveal_strlit("8");
        reveal_strlit("9");
    }
    if d == 0 { "0" }
    else if d == 1 { "1" }
    else if d == 2 { "2" }
    else if d == 3 { "3" }
    else if d == 4 { "4" }
    else if d == 5 { "5" }
    else if d == 6 { "6" }
    else if d == 7 { "7" }
    else if d == 8 { "8" }
    else { "9" }
}

/// The hexadecimal digit `d` as a one-character string slice, lower case.
fn hex_str(d: u32) -> (r: &'static str)
    requires
        d < 16,
    ensures
        r@ == seq![hex_char(d as int)],
{
    proof {
        reveal_strlit("a");
        reveal_strlit("b");
        reveal_strlit("c");
        reveal_strlit("d");
        reveal_strlit("e");
        reveal_strlit("f");
    }
    if d < 10 { digit_str(d as u64) }
    else if d == 10 { "a" }
    else if d == 11 { "b" }
    else if d == 12 { "c" }
    else if d == 13 { "d" }
    else if d == 14 { "e" }
    else { "f" }
}

/// Writes the decimal rendering of `n`.
fn push_dec(out: &mut String, n: u64)
    ensures
        final(out)@ == old(out)@ + dec_str(n as nat),
    decreases n,
{
    if n < 10 {
        out.append(digit_str(n));
    } else {
        push_dec(out, n / 10);
        out.append(digit_str(n % 10));
    }
}

/// `esc` distributes over concatenation.
proof fn lemma_esc_concat(a: Seq<char>, b: Seq<char>)
    ensures
        esc(a + b) == esc(a) + esc(b),
    decreases a.len(),
{
    if a.len() == 0 {
        assert(a + b =~= b);
        assert(esc(a) + esc(b) =~= esc(b));
    } else {
        lemma_esc_concat(a.drop_first(), b);
        assert((a + b).drop_first() =~= a.drop_first() + b);
        assert(esc_char(a[0]) + (esc(a.drop_first()) + esc(b)) =~= (esc_char(a[0]) + esc(a.drop_first())) + esc(b));
    }
}

/// Writes `esc` of the characters of `s`.
fn push_esc(out: &mut String, s: &str)
    ensures
        final(out)@ == old(out)@ + esc(s@),
{
    let n: usize = s.unicode_len();
    let mut i: usize = 0;
    proof {
        assert(s@.take(0) =~= Seq::<char>::empty());
    }
    while i < n
        invariant
            i <= n,
            n == s@.len(),
            out@ == old(out)@ + esc(s@.take(i as int)),
        decreases n - i,
    {
        let c = s.get_char(i);
        let u: u32 = c as u32;
        if c == '"' {
            proof { reveal_strlit("\\\""); }
            out.append("\\\"");
        } else if c == '\\' {
            proof { reveal_strlit("\\\\"); }
            out.append("\\\\");
        } else if c == '\u{8}' {
            proof { reveal_strlit("\\b"); }
            out.append("\\b");
        } else if c == '\t' {
            proof { reveal_strlit("\\t"); }
            out.append("\\t");
        } else if c == '\n' {
            proof { reveal_strlit("\\n"); }
            out.append("\\n");
        } else if c == '\u{c}' {
            proof { reveal_strlit("\\f"); }
            out.append("\\f");
        } else if c == '\r' {
            proof { reveal_strlit("\\r"); }
            out.append("\\r");
        } else if u < 0x20 {
            proof { reveal_strlit("\\u00"); }
            out.append("\\u00");
            out.append(hex_str(u / 16));
            out.append(hex_str(u % 16));
        } else {
            push_char(out, c);
            proof {
                assert(out@ =~= old(out)@ + esc(s@.take(i as int)) + esc_char(c));
            }
        }
        proof {
            reveal_with_fuel(esc, 2);
            let single = seq![s@[i as int]];
            assert(s@.take(i + 1) =~= s@.take(i as int) + single);
            lemma_esc_concat(s@.take(i as int), single);
            assert(single.drop_first() =~= Seq::<char>::empty());
            assert(esc(single) =~= esc_char(s@[i as int]) + esc(Seq::<char>::empty()));
            assert(esc(single) =~= esc_char(s@[i as int]));
            assert(out@ =~= old(out)@ + esc(s@.take(i + 1)));
        }
        i = i + 1;
    }
    proof {
        assert(s@.take(n as int) =~= s@);
    }
}

/// Splitting the last element off a non-empty element list's rendering.
proof fn lemma_ser_elems_snoc(elems: Seq<JVal>)
    requires
        elems.len() >= 2,
    ensures
        ser_elems(elems) == ser_elems(elems.drop_last()) + seq![','] + ser_val(elems.last()),
    decreases elems.len(),
{
    reveal_with_fuel(ser_elems, 3);
    if elems.len() == 2 {
        assert(elems.drop_first() =~= seq![elems[1]]);
        assert(elems.drop_last() =~= seq![elems[0]]);
        assert(ser_elems(seq![elems[1]]) == ser_val(elems[1]));
        assert(ser_elems(seq![elems[0]]) == ser_val(elems[0]));
        assert(ser_elems(elems) =~= ser_elems(elems.drop_last()) + seq![','] + ser_val(elems.last()));
    } else {
        lemma_ser_elems_snoc(elems.drop_first());
        assert(elems.drop_first().drop_last() =~= elems.drop_last().drop_first());
        assert(elems.drop_first().last() == elems.last());
        assert(elems.drop_last().len() >= 2);
        assert(elems.drop_last()[0] == elems[0]);
        assert(ser_elems(elems.drop_last()) == ser_val(elems[0]) + seq![','] + ser_elems(elems.drop_last().drop_first()));
        assert(ser_elems(elems) =~= ser_elems(elems.drop_last()) + seq![','] + ser_val(elems.last()));
    }
}

/// Splitting the last member off a non-empty member list's rendering.
proof fn lemma_ser_members_snoc(ms: Seq<(Seq<char>, JVal)>)
    requires
        ms.len() >= 2,
    ensures
        ser_members(ms) == ser_members(ms.drop_last()) + seq![','] + ser_member(ms.last()),
    decreases ms.len(),
{
    reveal_with_fuel(ser_members, 3);
    if ms.len() == 2 {
        assert(ms.drop_first() =~= seq![ms[1]]);
        assert(ms.drop_last() =~= seq![ms[0]]);
        assert(ser_members(seq![ms[1]]) == ser_member(ms[1]));
        assert(ser_members(seq![ms[0]]) == ser_member(ms[0]));
        assert(ser_members(ms) =~= ser_members(ms.drop_last()) + seq![','] + ser_member(ms.last()));
    } else {
        lemma_ser_members_snoc(ms.drop_first());
        assert(ms.drop_first().drop_last() =~= ms.drop_last().drop_first());
        assert(ms.drop_first().last() == ms.last());
        assert(ms.drop_last().len() >= 2);
        assert(ms.drop_last()[0] == ms[0]);
        assert(ser_members(ms.drop_last()) == ser_member(ms[0]) + seq![','] + ser_members(ms.drop_last().drop_first()));
        assert(ser_members(ms) =~= ser_members(ms.drop_last()) + seq![','] + ser_member(ms.last()));
    }
}

/// Writes the rendering of the document `j`.
fn push_val(out: &mut String, j: &Json)
    requires
        jwf(*j),
    ensures
        final(out)@ == old(out)@ + ser_val(jv(*j)),
    decreases *j,
{
    match j {
        Json::Null => {
            proof { reveal_strlit("null"); }
            out.append("null");
        },
        Json::Bool(b) => {
            if *b {
                proof { reveal_strlit("true"); }
                out.append("true");
            } else {
                proof { reveal_strlit("false"); }
                out.append("false");
            }
        },
        Json::UInt(u) => {
            push_dec(out, *u);
            proof {
                assert(int_str(*u as int) == dec_str(*u as nat));
            }
        },
        Json::NegInt(m) => {
            proof { reveal_strlit("-"); }
            out.append("-");
            push_dec(out, *m);
            proof {
                assert(int_str(jv(*j)->Int_0) =~= seq!['-'] + dec_str(*m as nat));
                assert(out@ =~= old(out)@ + int_str(jv(*j)->Int_0));
            }
        },
        Json::NumText(s) => {
            out.append(s.as_str());
        },
        Json::Str(s) => {
            proof { reveal_strlit("\""); }
            out.append("\"");
            push_esc(out, s.as_str());
            out.append("\"");
            proof {
                assert(out@ =~= old(out)@ + (seq!['"'] + esc(s@) + seq!['"']));
            }
        },
        Json::Arr(v) => {
            proof {
                reveal_strlit("[");
                reveal_strlit("]");
                reveal_strlit(",");
                lemma_jv_seq(v@);
            }
            let ghost elems = jv_seq(v@);
            out.append("[");
            let ghost mid = out@;
            let n: usize = v.len();
            let mut i: usize = 0;
            proof {
                assert(ser_elems(elems.take(0)) =~= Seq::<char>::empty());
            }
            while i < n
                invariant
                    *j == Json::Arr(*v),
                    jwf(*j),
                    i <= n,
                    n == v@.len(),
                    elems == jv_seq(v@),
                    elems.len() == n,
                    forall|k: int| 0 <= k < n ==> elems[k] == jv(#[trigger] v@[k]),
                    forall|k: int| 0 <= k < n ==> jwf(#[trigger] v@[k]),
                    out@ == mid + ser_elems(elems.take(i as int)),
                decreases n - i,
            {
                proof {
                    reveal_strlit(",");
                }
                if i > 0 {
                    out.append(",");
                }
                proof {
                    assert(*j == Json::Arr(*v));
                    assert(decreases_to!(*j => j->Arr_0));
                    assert(j->Arr_0 == *v);
                    assert(decreases_to!(*v => v@));
                    assert(decreases_to!(v@ => v@[i as int]));
                }
                push_val(out, &v[i]);
                proof {
                    reveal_with_fuel(ser_elems, 2);
                    let pre = elems.take(i as int);
                    let cur = elems.take(i + 1);
                    assert(cur.last() == elems[i as int]);
                    if i == 0 {
                        assert(cur =~= seq![elems[0]]);
                        assert(ser_elems(cur) == ser_val(elems[0]));
                    } else {
                        lemma_ser_elems_snoc(cur);
                        assert(cur.drop_last() =~= pre);
                    }
                    assert(out@ =~= mid + ser_elems(cur));
                }
                i = i + 1;
            }
            out.append("]");
            proof {
                assert(elems.take(n as int) =~= elems);
                assert(out@ =~= old(out)@ + (seq!['['] + ser_elems(elems) + seq![']']));
            }
        },
        Json::Obj(v) => {
            proof {
                reveal_strlit("{");
                reveal_strlit("}");
                reveal_strlit(",");
                reveal_strlit("\"");
                reveal_strlit(":");
                lemma_jv_members(v@);
            }
            let ghost ms = jv_members(v@);
            out.append("{");
            let ghost mid = out@;
            let n: usize = v.len();
            let mut i: usize = 0;
            proof {
                assert(ser_members(ms.take(0)) =~= Seq::<char>::empty());
            }
            while i < n
                invariant
                    *j == Json::Obj(*v),
                    jwf(*j),
                    i <= n,
                    n == v@.len(),
                    ms == jv_members(v@),
                    ms.len() == n,
                    forall|k: int| 0 <= k < n ==> ms[k] == ((#[trigger] v@[k]).0@, jv(v@[k].1)),
                    forall|k: int| 0 <= k < n ==> jwf((#[trigger] v@[k]).1),
                    out@ == mid + ser_members(ms.take(i as int)),
                decreases n - i,
            {
                proof {
                    reveal_strlit(",");
                    reveal_strlit("\"");
                    reveal_strlit(":");
                }
                if i > 0 {
                    out.append(",");
                }
                let pair = &v[i];
                out.append("\"");
                push_esc(out, pair.0.as_str());
                out.append("\"");
                out.append(":");
                proof {
                    assert(*j == Json::Obj(*v));
                    assert(decreases_to!(*j => j->Obj_0));
                    assert(j->Obj_0 == *v);
                    assert(decreases_to!(*v => v@));
                    assert(decreases_to!(v@ => v@[i as int]));
                    assert(decreases_to!(v@[i as int] => v@[i as int].1));
                }
                push_val(out, &pair.1);
                proof {
                    reveal_with_fuel(ser_members, 2);
                    let pre = ms.take(i as int);
                    let cur = ms.take(i + 1);
                    assert(cur.last() == ms[i as int]);
                    assert(ser_member(ms[i as int]) =~= seq!['"'] + esc(v@[i as int].0@) + seq!['"', ':'] + ser_val(jv(v@[i as int].1)));
                    if i == 0 {
                        assert(cur =~= seq![ms[0]]);
                        assert(ser_members(cur) == ser_member(ms[0]));
                    } else {
                        lemma_ser_members_snoc(cur);
                        assert(cur.drop_last() =~= pre);
                    }
                    assert(out@ =~= mid + ser_members(cur));
                }
                i = i + 1;
            }
            out.append("}");
            proof {
                assert(ms.take(n as int) =~= ms);
                assert(out@ =~= old(out)@ + (seq!['{'] + ser_members(ms) + seq!['}']));
            }
        },
    }
}

/// The wire text of a document: exactly `ser_val` of its model.
pub fn render(j: &Json) -> (r: String)
    requires
        jwf(*j),
    ensures
        r@ == ser_val(jv(*j)),
{
    let mut out = String::new();
    push_val(&mut out, j);
    out
}

/// Two spaces of indentation per nesting level.
pub open spec fn indent(d: nat) -> Seq<char>
    decreases d,
{
    if d == 0 {
        Seq::empty()
    } else {
        indent((d - 1) as nat) + seq![' ', ' ']
    }
}

/// The pretty rendering of a document at nesting depth `d`: scalars as in
/// the compact form, arrays and objects one element per line, indented.
pub open spec fn pretty_val(v: JVal, d: nat) -> Seq<char>
    decreases v,
{
    match v {
        JVal::Arr(elems) => if elems.len() == 0 {
            seq!['[', ']']
        } else {
            seq!['[', '\n'] + pretty_elems(elems, (d + 1) as nat) + seq!['\n'] + indent(d) + seq![']']
        },
        JVal::Obj(ms) => if ms.len() == 0 {
            seq!['{', '}']
        } else {
            seq!['{', '\n'] + pretty_members(ms, (d + 1) as nat) + seq!['\n'] + indent(d) + seq!['}']
        },
        _ => ser_val(v),
    }
}

/// Pretty array elements, one per line.
pub open spec fn pretty_elems(elems: Seq<JVal>, d: nat) -> Seq<char>
    decreases elems,
{
    if elems.len() == 0 {
        Seq::empty()
    } else if elems.len() == 1 {
        indent(d) + pretty_val(elems[0], d)
    } else {
        indent(d) + pretty_val(elems[0], d) + seq![',', '\n'] + pretty_elems(elems.drop_first(), d)
    }
}

/// One pretty `"key": value` member.
pub open spec fn pretty_member(m: (Seq<char>, JVal), d: nat) -> Seq<char>
    decreases m,
{
    indent(d) + seq!['"'] + esc(m.0) + seq!['"', ':', ' '] + pretty_val(m.1, d)
}

/// Pretty object members, one per line.
pub open spec fn pretty_members(ms: Seq<(Seq<char>, JVal)>, d: nat) -> Seq<char>
    decreases ms,
{
    if ms.len() == 0 {
        Seq::empty()
    } else if ms.len() == 1 {
        pretty_member(ms[0], d)
    } else {
        pretty_member(ms[0], d) + seq![',', '\n'] + pretty_members(ms.drop_first(), d)
    }
}

/// Splitting the last element off a pretty element list.
proof fn lemma_pretty_elems_snoc(elems: Seq<JVal>, d: nat)
    requires
        elems.len() >= 2,
    ensures
        pretty_elems(elems, d) == pretty_elems(elems.drop_last(), d) + seq![',', '\n']
            + indent(d) + pretty_val(elems.last(), d),
    decreases elems.len(),
{
    reveal_with_fuel(pretty_elems, 3);
    if elems.len() == 2 {
        assert(elems.drop_first() =~= seq![elems[1]]);
        assert(elems.drop_last() =~= seq![elems[0]]);
        assert(pretty_elems(elems, d) =~= pretty_elems(elems.drop_last(), d) + seq![',', '\n']
            + indent(d) + pretty_val(elems.last(), d));
    } else {
        lemma_pretty_elems_snoc(elems.drop_first(), d);
        assert(elems.drop_first().drop_last() =~= elems.drop_last().drop_first());
        assert(elems.drop_first().last() == elems.last());
        assert(elems.drop_last().len() >= 2);
        assert(elems.drop_last()[0] == elems[0]);
        assert(pretty_elems(elems.drop_last(), d) == indent(d) + pretty_val(elems[0], d)
            + seq![',', '\n'] + pretty_elems(elems.drop_last().drop_first(), d));
        assert(pretty_elems(elems, d) =~= pretty_elems(elems.drop_last(), d) + seq![',', '\n']
            + indent(d) + pretty_val(elems.last(), d));
    }
}

/// Splitting the last member off a pretty member list.
proof fn lemma_pretty_members_snoc(ms: Seq<(Seq<char>, JVal)>, d: nat)
    requires
        ms.len() >= 2,
    ensures
        pretty_members(ms, d) == pretty_members(ms.drop_last(), d) + seq![',', '\n']
            + pretty_member(ms.last(), d),
    decreases ms.len(),
{
    reveal_with_fuel(pretty_members, 3);
    if ms.len() == 2 {
        assert(ms.drop_first() =~= seq![ms[1]]);
        assert(ms.drop_last() =~= seq![ms[0]]);
        assert(pretty_members(ms, d) =~= pretty_members(ms.drop_last(), d) + seq![',', '\n']
            + pretty_member(ms.last(), d));
    } else {
        lemma_pretty_members_snoc(ms.drop_first(), d);
        assert(ms.drop_first().drop_last() =~= ms.drop_last().drop_first());
        assert(ms.drop_first().last() == ms.last());
        assert(ms.drop_last().len() >= 2);
        assert(ms.drop_last()[0] == ms[0]);
        assert(pretty_members(ms.drop_last(), d) == pretty_member(ms[0], d)
            + seq![',', '\n'] + pretty_members(ms.drop_last().drop_first(), d));
        assert(pretty_members(ms, d) =~= pretty_members(ms.drop_last(), d) + seq![',', '\n']
            + pretty_member(ms.last(), d));
    }
}

/// Writes the pretty rendering of `j` at the nesting depth whose
/// indentation is `pad`.
fn push_pretty(out: &mut String, j: &Json, pad: &String, d: Ghost<nat>)
    requires
        jwf(*j),
        pad@ == indent(d@),
    ensures
        final(out)@ == old(out)@ + pretty_val(jv(*j), d@),
    decreases *j,
{
    match j {
        Json::Arr(v) => {
            proof {
                reveal_strlit("[]");
                reveal_strlit("[\n");
                reveal_strlit(",\n");
                reveal_strlit("\n");
                reveal_strlit("]");
                reveal_strlit("  ");
                lemma_jv_seq(v@);
            }
            let ghost elems = jv_seq(v@);
            if v.len() == 0 {
                out.append("[]");
                proof {
                    assert(out@ =~= old(out)@ + pretty_val(jv(*j), d@));
                }
                return ;
            }
            let child_pad = pad.clone().concat("  ");
            proof {
                assert(child_pad@ =~= indent(d@ + 1));
            }
            out.append("[\n");
            let ghost mid = out@;
            let n: usize = v.len();
            let mut i: usize = 0;
            proof {
                assert(pretty_elems(elems.take(0), d@ + 1) =~= Seq::<char>::empty());
            }
            while i < n
                invariant
                    *j == Json::Arr(*v),
                    jwf(*j),
                    i <= n,
                    n == v@.len(),
                    elems == jv_seq(v@),
                    elems.len() == n,
                    child_pad@ == indent(d@ + 1),
                    forall|k: int| 0 <= k < n ==> elems[k] == jv(#[trigger] v@[k]),
                    forall|k: int| 0 <= k < n ==> jwf(#[trigger] v@[k]),
                    out@ == mid + pretty_elems(elems.take(i as int), d@ + 1),
                decreases n - i,
            {
                proof {
                    reveal_strlit(",\n");
                }
                if i > 0 {
                    out.append(",\n");
                }
                out.append(child_pad.as_str());
                proof {
                    assert(decreases_to!(*j => j->Arr_0));
                    assert(j->Arr_0 == *v);
                    assert(decreases_to!(*v => v@));
                    assert(decreases_to!(v@ => v@[i as int]));
                }
                push_pretty(out, &v[i], &child_pad, Ghost(d@ + 1));
                proof {
                    reveal_with_fuel(pretty_elems, 2);
                    let pre = elems.take(i as int);
                    let cur = elems.take(i + 1);
                    assert(cur.last() == elems[i as int]);
                    if i == 0 {
                        assert(cur =~= seq![elems[0]]);
                        assert(pretty_elems(cur, d@ + 1) == indent(d@ + 1) + pretty_val(elems[0], d@ + 1));
                    } else {
                        lemma_pretty_elems_snoc(cur, d@ + 1);
                        assert(cur.drop_last() =~= pre);
                    }
                    assert(out@ =~= mid + pretty_elems(cur, d@ + 1));
                }
                i = i + 1;
            }
            out.append("\n");
            out.append(pad.as_str());
            out.append("]");
            proof {
                assert(elems.take(n as int) =~= elems);
                assert(out@ =~= old(out)@ + (seq!['[', '\n'] + pretty_elems(elems, d@ + 1)
                    + seq!['\n'] + indent(d@) + seq![']']));
            }
        },
        Json::Obj(v) => {
            proof {
                reveal_strlit("{}");
                reveal_strlit("{\n");
                reveal_strlit(",\n");
                reveal_strlit("\n");
                reveal_strlit("}");
                reveal_strlit("\"");
                reveal_strlit(": ");
                reveal_strlit("  ");
                lemma_jv_members(v@);
            }
            let ghost ms = jv_members(v@);
            if v.len() == 0 {
                out.append("{}");
                proof {
                    assert(out@ =~= old(out)@ + pretty_val(jv(*j), d@));
                }
                return ;
            }
            let child_pad = pad.clone().concat("  ");
            proof {
                assert(child_pad@ =~= indent(d@ + 1));
            }
            out.append("{\n");
            let ghost mid = out@;
            let n: usize = v.len();
            let mut i: usize = 0;
            proof {
                assert(pretty_members(ms.take(0), d@ + 1) =~= Seq::<char>::empty());
            }
            while i < n
                invariant
                    *j == Json::Obj(*v),
                    jwf(*j),
                    i <= n,
                    n == v@.len(),
                    ms == jv_members(v@),
                    ms.len() == n,
                    child_pad@ == indent(d@ + 1),
                    forall|k: int| 0 <= k < n ==> ms[k] == ((#[trigger] v@[k]).0@, jv(v@[k].1)),
                    forall|k: int| 0 <= k < n ==> jwf((#[trigger] v@[k]).1),
                    out@ == mid + pretty_members(ms.take(i as int), d@ + 1),
                decreases n - i,
            {
                proof {
                    reveal_strlit(",\n");
                    reveal_strlit("\"");
                    reveal_strlit(": ");
                }
                if i > 0 {
                    out.append(",\n");
                }
                let pair = &v[i];
                out.append(child_pad.as_str());
                out.append("\"");
                push_esc(out, pair.0.as_str());
                out.append("\"");
                out.append(": ");
                proof {
                    assert(decreases_to!(*j => j->Obj_0));
                    assert(j->Obj_0 == *v);
                    assert(decreases_to!(*v => v@));
                    assert(decreases_to!(v@ => v@[i as int]));
                    assert(decreases_to!(v@[i as int] => v@[i as int].1));
                }
                push_pretty(out, &pair.1, &child_pad, Ghost(d@ + 1));
                proof {
                    reveal_with_fuel(pretty_members, 2);
                    let pre = ms.take(i as int);
                    let cur = ms.take(i + 1);
                    assert(cur.last() == ms[i as int]);
                    assert(pretty_member(ms[i as int], d@ + 1) =~= indent(d@ + 1) + seq!['"']
                        + esc(v@[i as int].0@) + seq!['"', ':', ' '] + pretty_val(jv(v@[i as int].1), d@ + 1));
                    if i == 0 {
                        assert(cur =~= seq![ms[0]]);
                        assert(pretty_members(cur, d@ + 1) == pretty_member(ms[0], d@ + 1));
                    } else {
                        lemma_pretty_members_snoc(cur, d@ + 1);
                        assert(cur.drop_last() =~= pre);
                    }
                    assert(out@ =~= mid + pretty_members(cur, d@ + 1));
                }
                i = i + 1;
            }
            out.append("\n");
            out.append(pad.as_str());
            out.append("}");
            proof {
                assert(ms.take(n as int) =~= ms);
                assert(out@ =~= old(out)@ + (seq!['{', '\n'] + pretty_members(ms, d@ + 1)
                    + seq!['\n'] + indent(d@) + seq!['}']));
            }
        },
        _ => {
            push_val(out, j);
        },
    }
}

/// The pretty text of a document, for inspection: exactly `pretty_val` of
/// its model at depth zero.
pub fn pretty_json(j: &Json) -> (r: String)
    requires
        jwf(*j),
    ensures
        r@ == pretty_val(jv(*j), 0),
{
    let mut out = String::new();
    let pad = String::new();
    push_pretty(&mut out, j, &pad, Ghost(0nat));
    out
}

} // verus!
