//! Request bodies as member lists.
//!
//! Every endpoint request serializes to a JSON object whose members are
//! given by segments, one per declared field, in declaration order.  A
//! field whose value equals its type's sentinel — the empty string, a
//! zero count, an absent option — contributes no member at all: the wire
//! format tells "unset" from "set" by omission.  `lemma_seg_get` and
//! `lemma_obj_get_concat` together are the sentinel-omission law: a
//! reader of the serialized object finds exactly the non-sentinel fields,
//! each under its own name with its own value.

use vstd::prelude::*;

use crate::json::{jv, jv_members, jv_opt_bool, jv_opt_i64, jv_opt_str, jv_opt_u64, jwf,
    lemma_jv_members_push, JVal, Json};

verus! {
broadcast use vstd::seq::group_seq_axioms, vstd::std_specs::vec::group_vec_axioms;

/// One field's contribution to the serialized object: its member when the
/// value is not the sentinel, nothing when it is.
pub open spec fn seg(name: Seq<char>, present: bool, v: JVal) -> Seq<(Seq<char>, JVal)> {
    if present {
        seq![(name, v)]
    } else {
        Seq::empty()
    }
}

/// A string field: the empty string means "unset".
pub open spec fn opt_text(name: Seq<char>, s: Seq<char>) -> Seq<(Seq<char>, JVal)> {
    seg(name, s.len() > 0, JVal::Str(s))
}

/// A count field: zero means "unset".
pub open spec fn opt_count(name: Seq<char>, n: int) -> Seq<(Seq<char>, JVal)> {
    seg(name, n > 0, JVal::Int(n))
}

/// A document field: `None` means "unset".
pub open spec fn opt_doc(name: Seq<char>, o: Option<JVal>) -> Seq<(Seq<char>, JVal)> {
    seg(name, o is Some, if o is Some { o->0 } else { JVal::Null })
}

/// The model of an optional document value.
pub open spec fn opt_jv(o: Option<Json>) -> Option<JVal> {
    match o {
        Option::None => Option::None,
        Option::Some(j) => Option::Some(jv(j)),
    }
}

/// First member with the given name, if any.
pub open spec fn obj_get(ms: Seq<(Seq<char>, JVal)>, name: Seq<char>) -> Option<JVal>
    decreases ms,
{
    if ms.len() == 0 {
        Option::None
    } else if ms[0].0 == name {
        Option::Some(ms[0].1)
    } else {
        obj_get(ms.drop_first(), name)
    }
}

/// Looking a name up in a segment: its value exactly when the field is
/// present under that name.
pub proof fn lemma_seg_get(name: Seq<char>, present: bool, v: JVal, query: Seq<char>)
    ensures
        obj_get(seg(name, present, v), query) == if present && name == query {
            Option::Some(v)
        } else {
            Option::<JVal>::None
        },
{
    reveal_with_fuel(obj_get, 3);
    if present {
        let ms = seg(name, present, v);
        assert(ms[0] == (name, v));
        if name == query {
            assert(obj_get(ms, query) == Some(v));
        } else {
            assert(ms.drop_first() =~= Seq::<(Seq<char>, JVal)>::empty());
            assert(obj_get(ms, query) == obj_get(ms.drop_first(), query));
        }
    }
}

/// `lemma_seg_get`, for every query name at once.
pub proof fn lemma_seg_get_any(name: Seq<char>, present: bool, v: JVal)
    ensures
        forall|query: Seq<char>| #[trigger] obj_get(seg(name, present, v), query)
            == if present && name == query {
                Option::Some(v)
            } else {
                Option::<JVal>::None
            },
{
    assert forall|query: Seq<char>|
        #[trigger] obj_get(seg(name, present, v), query) == if present && name == query {
            Option::Some(v)
        } else {
            Option::<JVal>::None
        } by {
        lemma_seg_get(name, present, v, query);
    }
}

/// Looking a name up in a concatenation: the left part wins, else the
/// right part answers.
pub proof fn lemma_obj_get_concat(a: Seq<(Seq<char>, JVal)>, b: Seq<(Seq<char>, JVal)>, name: Seq<char>)
    ensures
        obj_get(a + b, name) == if obj_get(a, name) is Some {
            obj_get(a, name)
        } else {
            obj_get(b, name)
        },
    decreases a.len(),
{
    if a.len() == 0 {
        assert(a + b =~= b);
    } else {
        lemma_obj_get_concat(a.drop_first(), b, name);
        assert((a + b).drop_first() =~= a.drop_first() + b);
        assert((a + b)[0] == a[0]);
    }
}

/// A member whose name no earlier member carries reads back as itself.
pub proof fn lemma_obj_get_index(ms: Seq<(Seq<char>, JVal)>, x: int)
    requires
        0 <= x < ms.len(),
        forall|a: int| 0 <= a < x ==> (#[trigger] ms[a]).0 != ms[x].0,
    ensures
        obj_get(ms, ms[x].0) == Some(ms[x].1),
    decreases x,
{
    if x > 0 {
        let rest = ms.drop_first();
        assert forall|a: int| 0 <= a < x - 1 implies (#[trigger] rest[a]).0 != rest[x - 1].0 by {
            assert(rest[a] == ms[a + 1]);
            assert(rest[x - 1] == ms[x]);
        }
        lemma_obj_get_index(rest, x - 1);
        assert(rest[x - 1] == ms[x]);
        assert(ms[0].0 != ms[x].0);
    }
}

/// Appends a string field's member, unless the string is empty.
pub fn push_text(out: &mut Vec<(String, Json)>, name: &str, s: &String)
    ensures
        jv_members(final(out)@) == jv_members(old(out)@) + opt_text(name@, s@),
        (forall|k: int| 0 <= k < old(out)@.len() ==> jwf((#[trigger] old(out)@[k]).1))
            ==> (forall|k: int| 0 <= k < final(out)@.len() ==> jwf((#[trigger] final(out)@[k]).1)),
{
    let ghost out0 = out@;
    if s.unicode_len() > 0 {
        out.push((name.to_owned(), Json::Str(s.clone())));
        proof {
            lemma_jv_members_push(out0, (out@.last().0, out@.last().1));
            assert(out@ =~= out0.push(out@.last()));
            assert(jv_members(out@) =~= jv_members(out0) + opt_text(name@, s@));
        }
    } else {
        proof {
            assert(jv_members(out@) =~= jv_members(out0) + opt_text(name@, s@));
        }
    }
}

/// Appends a count field's member, unless the count is zero.
pub fn push_count(out: &mut Vec<(String, Json)>, name: &str, n: usize)
    ensures
        jv_members(final(out)@) == jv_members(old(out)@) + opt_count(name@, n as int),
        (forall|k: int| 0 <= k < old(out)@.len() ==> jwf((#[trigger] old(out)@[k]).1))
            ==> (forall|k: int| 0 <= k < final(out)@.len() ==> jwf((#[trigger] final(out)@[k]).1)),
{
    let ghost out0 = out@;
    if n > 0 {
        out.push((name.to_owned(), Json::UInt(n as u64)));
        proof {
            lemma_jv_members_push(out0, (out@.last().0, out@.last().1));
            assert(out@ =~= out0.push(out@.last()));
            assert(jv_members(out@) =~= jv_members(out0) + opt_count(name@, n as int));
        }
    } else {
        proof {
            assert(jv_members(out@) =~= jv_members(out0) + opt_count(name@, n as int));
        }
    }
}

/// Appends a document field's member, unless the document is absent.
pub fn push_doc(out: &mut Vec<(String, Json)>, name: &str, o: Option<Json>)
    requires
        o matches Option::Some(j) ==> jwf(j),
    ensures
        jv_members(final(out)@) == jv_members(old(out)@) + opt_doc(name@, opt_jv(o)),
        (forall|k: int| 0 <= k < old(out)@.len() ==> jwf((#[trigger] old(out)@[k]).1))
            ==> (forall|k: int| 0 <= k < final(out)@.len() ==> jwf((#[trigger] final(out)@[k]).1)),
{
    let ghost out0 = out@;
    match o {
        Option::Some(j) => {
            out.push((name.to_owned(), j));
            proof {
                lemma_jv_members_push(out0, (out@.last().0, out@.last().1));
                assert(out@ =~= out0.push(out@.last()));
                assert(jv_members(out@) =~= jv_members(out0) + opt_doc(name@, opt_jv(o)));
            }
        },
        Option::None => {
            proof {
                assert(jv_members(out@) =~= jv_members(out0) + opt_doc(name@, opt_jv(o)));
            }
        },
    }
}

/// Writes an optional string field as a member, `null` when absent.
pub fn put_str_field(out: &mut Vec<(String, Json)>, name: &str, o: &Option<String>)
    ensures
        jv_members(final(out)@) == jv_members(old(out)@) + seq![(name@, jv_opt_str(*o))],
        (forall|k: int| 0 <= k < old(out)@.len() ==> jwf((#[trigger] old(out)@[k]).1))
            ==> (forall|k: int| 0 <= k < final(out)@.len() ==> jwf((#[trigger] final(out)@[k]).1)),
{
    let ghost out0 = out@;
    match o {
        Option::Some(s) => out.push((name.to_owned(), Json::Str(s.clone()))),
        Option::None => out.push((name.to_owned(), Json::Null)),
    }
    proof {
        lemma_jv_members_push(out0, (out@.last().0, out@.last().1));
        assert(out@ =~= out0.push(out@.last()));
        assert(jv_members(out@) =~= jv_members(out0) + seq![(name@, jv_opt_str(*o))]);
    }
}

/// Writes an optional count field as a member, `null` when absent.
pub fn put_u64_field(out: &mut Vec<(String, Json)>, name: &str, o: &Option<u64>)
    ensures
        jv_members(final(out)@) == jv_members(old(out)@) + seq![(name@, jv_opt_u64(*o))],
        (forall|k: int| 0 <= k < old(out)@.len() ==> jwf((#[trigger] old(out)@[k]).1))
            ==> (forall|k: int| 0 <= k < final(out)@.len() ==> jwf((#[trigger] final(out)@[k]).1)),
{
    let ghost out0 = out@;
    match o {
        Option::Some(u) => out.push((name.to_owned(), Json::UInt(*u))),
        Option::None => out.push((name.to_owned(), Json::Null)),
    }
    proof {
        lemma_jv_members_push(out0, (out@.last().0, out@.last().1));
        assert(out@ =~= out0.push(out@.last()));
        assert(jv_members(out@) =~= jv_members(out0) + seq![(name@, jv_opt_u64(*o))]);
    }
}

/// Writes an optional signed count field as a member, `null` when absent.
pub fn put_i64_field(out: &mut Vec<(String, Json)>, name: &str, o: &Option<i64>)
    ensures
        jv_members(final(out)@) == jv_members(old(out)@) + seq![(name@, jv_opt_i64(*o))],
        (forall|k: int| 0 <= k < old(out)@.len() ==> jwf((#[trigger] old(out)@[k]).1))
            ==> (forall|k: int| 0 <= k < final(out)@.len() ==> jwf((#[trigger] final(out)@[k]).1)),
{
    let ghost out0 = out@;
    match o {
        Option::Some(x) => {
            if *x >= 0 {
                out.push((name.to_owned(), Json::UInt(*x as u64)));
            } else {
                let m: i128 = -(*x as i128);
                out.push((name.to_owned(), Json::NegInt(m as u64)));
            }
        },
        Option::None => out.push((name.to_owned(), Json::Null)),
    }
    proof {
        lemma_jv_members_push(out0, (out@.last().0, out@.last().1));
        assert(out@ =~= out0.push(out@.last()));
        assert(jv_members(out@) =~= jv_members(out0) + seq![(name@, jv_opt_i64(*o))]);
    }
}

/// Writes an optional boolean field as a member, `null` when absent.
pub fn put_bool_field(out: &mut Vec<(String, Json)>, name: &str, o: &Option<bool>)
    ensures
        jv_members(final(out)@) == jv_members(old(out)@) + seq![(name@, jv_opt_bool(*o))],
        (forall|k: int| 0 <= k < old(out)@.len() ==> jwf((#[trigger] old(out)@[k]).1))
            ==> (forall|k: int| 0 <= k < final(out)@.len() ==> jwf((#[trigger] final(out)@[k]).1)),
{
    let ghost out0 = out@;
    match o {
        Option::Some(b) => out.push((name.to_owned(), Json::Bool(*b))),
        Option::None => out.push((name.to_owned(), Json::Null)),
    }
    proof {
        lemma_jv_members_push(out0, (out@.last().0, out@.last().1));
        assert(out@ =~= out0.push(out@.last()));
        assert(jv_members(out@) =~= jv_members(out0) + seq![(name@, jv_opt_bool(*o))]);
    }
}

/// Writes a document field as a member.
pub fn put_doc_field(out: &mut Vec<(String, Json)>, name: &str, j: Json)
    requires
        jwf(j),
    ensures
        jv_members(final(out)@) == jv_members(old(out)@) + seq![(name@, jv(j))],
        (forall|k: int| 0 <= k < old(out)@.len() ==> jwf((#[trigger] old(out)@[k]).1))
            ==> (forall|k: int| 0 <= k < final(out)@.len() ==> jwf((#[trigger] final(out)@[k]).1)),
{
    let ghost out0 = out@;
    let ghost jj = jv(j);
    out.push((name.to_owned(), j));
    proof {
        lemma_jv_members_push(out0, (out@.last().0, out@.last().1));
        assert(out@ =~= out0.push(out@.last()));
        assert(jv_members(out@) =~= jv_members(out0) + seq![(name@, jj)]);
    }
}

} // verus!
