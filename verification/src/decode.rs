//! Reading typed response values out of parsed documents.
//!
//! Every response decoder is built from the same small readers: look a
//! member up by name, then accept exactly the JSON shapes the declared
//! field type allows.  An absent member and a `null` member both read as
//! "absent" — the wire cannot tell them apart.

use vstd::prelude::*;

use crate::fields::obj_get;
use crate::parse::spec_parse;
use crate::parse_exec::parse;
use crate::json::{jv, jv_members, jv_seq, jwf, lemma_jv_seq, num_text_wf, ser_val, wf, JVal, Json};

verus! {
broadcast use vstd::seq::group_seq_axioms, vstd::std_specs::vec::group_vec_axioms;

/// Why a response body was rejected.
#[derive(Debug, PartialEq, Eq)]
pub enum DecodeError {
    /// The body is not valid JSON.
    Syntax,
    /// The body is valid JSON but does not fit the declared shape.
    Shape,
}

/// A JSON number as a response field: an unsigned integer, a negative
/// integer by magnitude, or any other number literal as raw text.
#[derive(Debug, PartialEq, Eq)]
pub enum NumVal {
    UInt(u64),
    NegInt(u64),
    Text(String),
}

/// The document a `NumVal` stands for.
pub open spec fn num_jv(n: NumVal) -> JVal {
    match n {
        NumVal::UInt(u) => JVal::Int(u as int),
        NumVal::NegInt(m) => JVal::Int(-(m as int)),
        NumVal::Text(t) => JVal::NumText(t@),
    }
}

/// Canonical, well-formed number values: the reading a decoder produces.
pub open spec fn num_wf(n: NumVal) -> bool {
    match n {
        NumVal::UInt(_) => true,
        NumVal::NegInt(m) => 1 <= m && m <= 0x8000_0000_0000_0000,
        NumVal::Text(t) => num_text_wf(t@),
    }
}

/// Finds the first member with the given name.
pub fn lookup_member<'a>(ms: &'a Vec<(String, Json)>, name: &str) -> (r: Option<&'a Json>)
    ensures
        match r {
            Option::None => obj_get(jv_members(ms@), name@) is None,
            Option::Some(j) => obj_get(jv_members(ms@), name@) == Some(jv(*j))
                && ((forall|k: int| 0 <= k < ms@.len() ==> jwf((#[trigger] ms@[k]).1)) ==> jwf(*j)),
        },
{
    let n: usize = ms.len();
    let mut i: usize = 0;
    proof {
        assert(ms@.skip(0) =~= ms@);
    }
    while i < n
        invariant
            i <= n,
            n == ms@.len(),
            obj_get(jv_members(ms@), name@) == obj_get(jv_members(ms@.skip(i as int)), name@),
        decreases n - i,
    {
        proof {
            assert(ms@.skip(i as int).drop_first() =~= ms@.skip(i + 1));
            assert(ms@.skip(i as int)[0] == ms@[i as int]);
            assert(jv_members(ms@.skip(i as int)) == seq![(ms@[i as int].0@, jv(ms@[i as int].1))]
                + jv_members(ms@.skip(i + 1)));
            assert(jv_members(ms@.skip(i as int)).drop_first() =~= jv_members(ms@.skip(i + 1)));
        }
        if str_eq_inner(ms[i].0.as_str(), name) {
            return Option::Some(&ms[i].1);
        }
        i = i + 1;
    }
    proof {
        assert(ms@.skip(n as int) =~= Seq::<(String, Json)>::empty());
    }
    Option::None
}

/// Relies on str's `PartialEq`: equality of the two slices' characters.
#[verifier::external_body]
fn str_eq_inner(a: &str, b: &str) -> (r: bool)
    ensures
        r == (a@ == b@),
{
    a == b
}

/// What an optional string member reads as.
pub open spec fn spec_opt_string(ms: Seq<(Seq<char>, JVal)>, name: Seq<char>) -> Result<Option<Seq<char>>, ()> {
    match obj_get(ms, name) {
        Option::None => Result::Ok(Option::None),
        Option::Some(JVal::Null) => Result::Ok(Option::None),
        Option::Some(JVal::Str(s)) => Result::Ok(Option::Some(s)),
        Option::Some(_) => Result::Err(()),
    }
}

/// Reads an optional string member.
pub fn get_opt_string(ms: &Vec<(String, Json)>, name: &str) -> (r: Result<Option<String>, DecodeError>)
    requires
        forall|k: int| 0 <= k < ms@.len() ==> jwf((#[trigger] ms@[k]).1),
    ensures
        match r {
            Result::Ok(o) => spec_opt_string(jv_members(ms@), name@) == Result::<Option<Seq<char>>, ()>::Ok(
                match o {
                    Option::None => Option::<Seq<char>>::None,
                    Option::Some(s) => Option::Some(s@),
                },
            ),
            Result::Err(e) => e == DecodeError::Shape && spec_opt_string(jv_members(ms@), name@) is Err,
        },
{
    match lookup_member(ms, name) {
        Option::None => Result::Ok(Option::None),
        Option::Some(j) => match j {
            Json::Null => Result::Ok(Option::None),
            Json::Str(s) => Result::Ok(Option::Some(s.clone())),
            _ => Result::Err(DecodeError::Shape),
        },
    }
}

/// What an optional unsigned-count member reads as.
pub open spec fn spec_opt_u64(ms: Seq<(Seq<char>, JVal)>, name: Seq<char>) -> Result<Option<int>, ()> {
    match obj_get(ms, name) {
        Option::None => Result::Ok(Option::None),
        Option::Some(JVal::Null) => Result::Ok(Option::None),
        Option::Some(JVal::Int(x)) => if 0 <= x && x <= 0xFFFF_FFFF_FFFF_FFFF {
            Result::Ok(Option::Some(x))
        } else {
            Result::Err(())
        },
        Option::Some(_) => Result::Err(()),
    }
}

/// Reads an optional unsigned-count member.
pub fn get_opt_u64(ms: &Vec<(String, Json)>, name: &str) -> (r: Result<Option<u64>, DecodeError>)
    requires
        forall|k: int| 0 <= k < ms@.len() ==> jwf((#[trigger] ms@[k]).1),
    ensures
        match r {
            Result::Ok(o) => spec_opt_u64(jv_members(ms@), name@) == Result::<Option<int>, ()>::Ok(
                match o {
                    Option::None => Option::<int>::None,
                    Option::Some(u) => Option::Some(u as int),
                },
            ),
            Result::Err(e) => e == DecodeError::Shape && spec_opt_u64(jv_members(ms@), name@) is Err,
        },
{
    match lookup_member(ms, name) {
        Option::None => Result::Ok(Option::None),
        Option::Some(j) => match j {
            Json::Null => Result::Ok(Option::None),
            Json::UInt(u) => Result::Ok(Option::Some(*u)),
            _ => Result::Err(DecodeError::Shape),
        },
    }
}

/// What an optional signed-count member reads as.
pub open spec fn spec_opt_i64(ms: Seq<(Seq<char>, JVal)>, name: Seq<char>) -> Result<Option<int>, ()> {
    match obj_get(ms, name) {
        Option::None => Result::Ok(Option::None),
        Option::Some(JVal::Null) => Result::Ok(Option::None),
        Option::Some(JVal::Int(x)) => if -0x8000_0000_0000_0000 <= x && x <= 0x7FFF_FFFF_FFFF_FFFF {
            Result::Ok(Option::Some(x))
        } else {
            Result::Err(())
        },
        Option::Some(_) => Result::Err(()),
    }
}

/// Reads an optional signed-count member.
pub fn get_opt_i64(ms: &Vec<(String, Json)>, name: &str) -> (r: Result<Option<i64>, DecodeError>)
    requires
        forall|k: int| 0 <= k < ms@.len() ==> jwf((#[trigger] ms@[k]).1),
    ensures
        match r {
            Result::Ok(o) => spec_opt_i64(jv_members(ms@), name@) == Result::<Option<int>, ()>::Ok(
                match o {
                    Option::None => Option::<int>::None,
                    Option::Some(x) => Option::Some(x as int),
                },
            ),
            Result::Err(e) => e == DecodeError::Shape && spec_opt_i64(jv_members(ms@), name@) is Err,
        },
{
    match lookup_member(ms, name) {
        Option::None => Result::Ok(Option::None),
        Option::Some(j) => match j {
            Json::Null => Result::Ok(Option::None),
            Json::UInt(u) => {
                if *u <= 0x7FFF_FFFF_FFFF_FFFF {
                    Result::Ok(Option::Some(*u as i64))
                } else {
                    Result::Err(DecodeError::Shape)
                }
            },
            Json::NegInt(m) => {
                let x: i128 = -(*m as i128);
                Result::Ok(Option::Some(x as i64))
            },
            _ => Result::Err(DecodeError::Shape),
        },
    }
}

/// What an optional boolean member reads as.
pub open spec fn spec_opt_bool(ms: Seq<(Seq<char>, JVal)>, name: Seq<char>) -> Result<Option<bool>, ()> {
    match obj_get(ms, name) {
        Option::None => Result::Ok(Option::None),
        Option::Some(JVal::Null) => Result::Ok(Option::None),
        Option::Some(JVal::Bool(b)) => Result::Ok(Option::Some(b)),
        Option::Some(_) => Result::Err(()),
    }
}

/// Reads an optional boolean member.
pub fn get_opt_bool(ms: &Vec<(String, Json)>, name: &str) -> (r: Result<Option<bool>, DecodeError>)
    requires
        forall|k: int| 0 <= k < ms@.len() ==> jwf((#[trigger] ms@[k]).1),
    ensures
        match r {
            Result::Ok(o) => spec_opt_bool(jv_members(ms@), name@) == Result::<Option<bool>, ()>::Ok(o),
            Result::Err(e) => e == DecodeError::Shape && spec_opt_bool(jv_members(ms@), name@) is Err,
        },
{
    match lookup_member(ms, name) {
        Option::None => Result::Ok(Option::None),
        Option::Some(j) => match j {
            Json::Null => Result::Ok(Option::None),
            Json::Bool(b) => Result::Ok(Option::Some(*b)),
            _ => Result::Err(DecodeError::Shape),
        },
    }
}

/// What an optional number member reads as.
pub open spec fn spec_opt_num(ms: Seq<(Seq<char>, JVal)>, name: Seq<char>) -> Result<Option<JVal>, ()> {
    match obj_get(ms, name) {
        Option::None => Result::Ok(Option::None),
        Option::Some(JVal::Null) => Result::Ok(Option::None),
        Option::Some(JVal::Int(x)) => Result::Ok(Option::Some(JVal::Int(x))),
        Option::Some(JVal::NumText(t)) => Result::Ok(Option::Some(JVal::NumText(t))),
        Option::Some(_) => Result::Err(()),
    }
}

/// Reads an optional number member, keeping its wire fidelity.
pub fn get_opt_num(ms: &Vec<(String, Json)>, name: &str) -> (r: Result<Option<NumVal>, DecodeError>)
    requires
        forall|k: int| 0 <= k < ms@.len() ==> jwf((#[trigger] ms@[k]).1),

    ensures
        match r {
            Result::Ok(o) => spec_opt_num(jv_members(ms@), name@) == Result::<Option<JVal>, ()>::Ok(
                match o {
                    Option::None => Option::<JVal>::None,
                    Option::Some(nv) => Option::Some(num_jv(nv)),
                },
            ) && (o matches Option::Some(nv) ==> num_wf(nv) && (match num_jv(nv) {
                JVal::Int(x) => x >= 0 ==> nv is UInt,
                _ => true,
            })),
            Result::Err(e) => e == DecodeError::Shape && spec_opt_num(jv_members(ms@), name@) is Err,
        },
{
    match lookup_member(ms, name) {
        Option::None => Result::Ok(Option::None),
        Option::Some(j) => match j {
            Json::Null => Result::Ok(Option::None),
            Json::UInt(u) => Result::Ok(Option::Some(NumVal::UInt(*u))),
            Json::NegInt(m) => Result::Ok(Option::Some(NumVal::NegInt(*m))),
            Json::NumText(t) => Result::Ok(Option::Some(NumVal::Text(t.clone()))),
            _ => Result::Err(DecodeError::Shape),
        },
    }
}

/// The document an optional number field serializes to: `null` when
/// absent.
pub open spec fn jv_opt_num(o: Option<NumVal>) -> JVal {
    match o {
        Option::None => JVal::Null,
        Option::Some(nv) => num_jv(nv),
    }
}

/// The model of an optional number value.
pub open spec fn o_num(o: Option<NumVal>) -> Option<JVal> {
    match o {
        Option::None => Option::None,
        Option::Some(nv) => Option::Some(num_jv(nv)),
    }
}

/// Canonical number values inside an optional field.
pub open spec fn o_num_wf(o: Option<NumVal>) -> bool {
    match o {
        Option::None => true,
        Option::Some(nv) => num_wf(nv),
    }
}

/// Writes an optional number field as a member, `null` when absent.
pub fn put_num_field(out: &mut Vec<(String, Json)>, name: &str, o: &Option<NumVal>)
    requires
        o_num_wf(*o),
    ensures
        jv_members(final(out)@) == jv_members(old(out)@) + seq![(name@, jv_opt_num(*o))],
        (forall|k: int| 0 <= k < old(out)@.len() ==> jwf((#[trigger] old(out)@[k]).1))
            ==> (forall|k: int| 0 <= k < final(out)@.len() ==> jwf((#[trigger] final(out)@[k]).1)),
{
    let ghost out0 = out@;
    match o {
        Option::Some(NumVal::UInt(u)) => out.push((name.to_owned(), Json::UInt(*u))),
        Option::Some(NumVal::NegInt(m)) => out.push((name.to_owned(), Json::NegInt(*m))),
        Option::Some(NumVal::Text(t)) => out.push((name.to_owned(), Json::NumText(t.clone()))),
        Option::None => out.push((name.to_owned(), Json::Null)),
    }
    proof {
        crate::json::lemma_jv_members_push(out0, (out@.last().0, out@.last().1));
        assert(out@ =~= out0.push(out@.last()));
        assert(jv_members(out@) =~= jv_members(out0) + seq![(name@, jv_opt_num(*o))]);
    }
}

/// What a required string member reads as.
pub open spec fn spec_req_string(ms: Seq<(Seq<char>, JVal)>, name: Seq<char>) -> Result<Seq<char>, ()> {
    match obj_get(ms, name) {
        Option::Some(JVal::Str(s)) => Result::Ok(s),
        _ => Result::Err(()),
    }
}

/// Reads a required string member.
pub fn get_req_string(ms: &Vec<(String, Json)>, name: &str) -> (r: Result<String, DecodeError>)
    requires
        forall|k: int| 0 <= k < ms@.len() ==> jwf((#[trigger] ms@[k]).1),
    ensures
        match r {
            Result::Ok(s) => spec_req_string(jv_members(ms@), name@) == Result::<Seq<char>, ()>::Ok(s@),
            Result::Err(e) => e == DecodeError::Shape && spec_req_string(jv_members(ms@), name@) is Err,
        },
{
    match lookup_member(ms, name) {
        Option::Some(j) => match j {
            Json::Str(s) => Result::Ok(s.clone()),
            _ => Result::Err(DecodeError::Shape),
        },
        Option::None => Result::Err(DecodeError::Shape),
    }
}

/// What a required unsigned-count member reads as.
pub open spec fn spec_req_u64(ms: Seq<(Seq<char>, JVal)>, name: Seq<char>) -> Result<int, ()> {
    match obj_get(ms, name) {
        Option::Some(JVal::Int(x)) => if 0 <= x && x <= 0xFFFF_FFFF_FFFF_FFFF {
            Result::Ok(x)
        } else {
            Result::Err(())
        },
        _ => Result::Err(()),
    }
}

/// Reads a required unsigned-count member.
pub fn get_req_u64(ms: &Vec<(String, Json)>, name: &str) -> (r: Result<u64, DecodeError>)
    requires
        forall|k: int| 0 <= k < ms@.len() ==> jwf((#[trigger] ms@[k]).1),
    ensures
        match r {
            Result::Ok(u) => spec_req_u64(jv_members(ms@), name@) == Result::<int, ()>::Ok(u as int),
            Result::Err(e) => e == DecodeError::Shape && spec_req_u64(jv_members(ms@), name@) is Err,
        },
{
    match lookup_member(ms, name) {
        Option::Some(j) => match j {
            Json::UInt(u) => Result::Ok(*u),
            _ => Result::Err(DecodeError::Shape),
        },
        Option::None => Result::Err(DecodeError::Shape),
    }
}

/// What a required signed-count member reads as.
pub open spec fn spec_req_i64(ms: Seq<(Seq<char>, JVal)>, name: Seq<char>) -> Result<int, ()> {
    match obj_get(ms, name) {
        Option::Some(JVal::Int(x)) => if -0x8000_0000_0000_0000 <= x && x <= 0x7FFF_FFFF_FFFF_FFFF {
            Result::Ok(x)
        } else {
            Result::Err(())
        },
        _ => Result::Err(()),
    }
}

/// Reads a required signed-count member.
pub fn get_req_i64(ms: &Vec<(String, Json)>, name: &str) -> (r: Result<i64, DecodeError>)
    requires
        forall|k: int| 0 <= k < ms@.len() ==> jwf((#[trigger] ms@[k]).1),
    ensures
        match r {
            Result::Ok(x) => spec_req_i64(jv_members(ms@), name@) == Result::<int, ()>::Ok(x as int),
            Result::Err(e) => e == DecodeError::Shape && spec_req_i64(jv_members(ms@), name@) is Err,
        },
{
    match lookup_member(ms, name) {
        Option::Some(j) => match j {
            Json::UInt(u) => {
                if *u <= 0x7FFF_FFFF_FFFF_FFFF {
                    Result::Ok(*u as i64)
                } else {
                    Result::Err(DecodeError::Shape)
                }
            },
            Json::NegInt(m) => {
                let x: i128 = -(*m as i128);
                Result::Ok(x as i64)
            },
            _ => Result::Err(DecodeError::Shape),
        },
        Option::None => Result::Err(DecodeError::Shape),
    }
}

/// What a required boolean member reads as.
pub open spec fn spec_req_bool(ms: Seq<(Seq<char>, JVal)>, name: Seq<char>) -> Result<bool, ()> {
    match obj_get(ms, name) {
        Option::Some(JVal::Bool(b)) => Result::Ok(b),
        _ => Result::Err(()),
    }
}

/// Reads a required boolean member.
pub fn get_req_bool(ms: &Vec<(String, Json)>, name: &str) -> (r: Result<bool, DecodeError>)
    requires
        forall|k: int| 0 <= k < ms@.len() ==> jwf((#[trigger] ms@[k]).1),
    ensures
        match r {
            Result::Ok(b) => spec_req_bool(jv_members(ms@), name@) == Result::<bool, ()>::Ok(b),
            Result::Err(e) => e == DecodeError::Shape && spec_req_bool(jv_members(ms@), name@) is Err,
        },
{
    match lookup_member(ms, name) {
        Option::Some(j) => match j {
            Json::Bool(b) => Result::Ok(*b),
            _ => Result::Err(DecodeError::Shape),
        },
        Option::None => Result::Err(DecodeError::Shape),
    }
}

/// Whether every element of an array is a string.
pub open spec fn all_strings(elems: Seq<JVal>) -> bool {
    forall|k: int| 0 <= k < elems.len() ==> (#[trigger] elems[k]) is Str
}

/// The characters of an array of strings.
pub open spec fn str_values(elems: Seq<JVal>) -> Seq<Seq<char>> {
    elems.map_values(|v: JVal| v->Str_0)
}

/// What an optional array-of-strings member reads as.
pub open spec fn spec_opt_str_arr(ms: Seq<(Seq<char>, JVal)>, name: Seq<char>) -> Result<Option<Seq<Seq<char>>>, ()> {
    match obj_get(ms, name) {
        Option::None => Result::Ok(Option::None),
        Option::Some(JVal::Null) => Result::Ok(Option::None),
        Option::Some(JVal::Arr(elems)) => if all_strings(elems) {
            Result::Ok(Option::Some(str_values(elems)))
        } else {
            Result::Err(())
        },
        Option::Some(_) => Result::Err(()),
    }
}

/// Reads an optional array-of-strings member.
pub fn get_opt_str_arr(ms: &Vec<(String, Json)>, name: &str) -> (r: Result<Option<Vec<String>>, DecodeError>)
    requires
        forall|k: int| 0 <= k < ms@.len() ==> jwf((#[trigger] ms@[k]).1),
    ensures
        match r {
            Result::Ok(o) => spec_opt_str_arr(jv_members(ms@), name@) == Result::<Option<Seq<Seq<char>>>, ()>::Ok(
                match o {
                    Option::None => Option::<Seq<Seq<char>>>::None,
                    Option::Some(v) => Option::Some(v@.map_values(|s: String| s@)),
                },
            ),
            Result::Err(e) => e == DecodeError::Shape && spec_opt_str_arr(jv_members(ms@), name@) is Err,
        },
{
    let arr = match lookup_member(ms, name) {
        Option::None => {
            return Result::Ok(Option::None);
        },
        Option::Some(j) => match j {
            Json::Null => {
                return Result::Ok(Option::None);
            },
            Json::Arr(elems) => elems,
            _ => {
                return Result::Err(DecodeError::Shape);
            },
        },
    };
    let ghost evs = jv_seq(arr@);
    proof {
        lemma_jv_seq(arr@);
    }
    let n: usize = arr.len();
    let mut out: Vec<String> = Vec::new();
    let mut i: usize = 0;
    while i < n
        invariant
            i <= n,
            n == arr@.len(),
            obj_get(jv_members(ms@), name@) == Some(JVal::Arr(evs)),
            evs == jv_seq(arr@),
            evs.len() == n,
            forall|k: int| 0 <= k < n ==> evs[k] == jv(#[trigger] arr@[k]),
            out@.len() == i,
            forall|k: int| 0 <= k < i ==> (#[trigger] evs[k]) is Str,
            forall|k: int| 0 <= k < i ==> (#[trigger] out@[k])@ == evs[k]->Str_0,
        decreases n - i,
    {
        match &arr[i] {
            Json::Str(s) => {
                out.push(s.clone());
            },
            _ => {
                proof {
                    let g = obj_get(jv_members(ms@), name@);
                    let gelems = g->0->Arr_0;
                    assert(gelems == evs);
                    assert(!all_strings(gelems)) by {
                        assert(!(gelems[i as int] is Str));
                    }
                }
                return Result::Err(DecodeError::Shape);
            },
        }
        i = i + 1;
    }
    proof {
        assert(all_strings(evs));
        assert(out@.map_values(|s: String| s@) =~= str_values(evs));
    }
    Result::Ok(Option::Some(out))
}

/// The document an optional array-of-strings field serializes to: `null`
/// when absent.
pub open spec fn jv_opt_str_arr(o: Option<Vec<String>>) -> JVal {
    match o {
        Option::None => JVal::Null,
        Option::Some(vs) => JVal::Arr(vs@.map_values(|t: String| JVal::Str(t@))),
    }
}

/// Writes an optional array-of-strings field as a member, `null` when
/// absent.
pub fn put_str_arr_field(out: &mut Vec<(String, Json)>, name: &str, o: &Option<Vec<String>>)
    ensures
        jv_members(final(out)@) == jv_members(old(out)@) + seq![(name@, jv_opt_str_arr(*o))],
        (forall|k: int| 0 <= k < old(out)@.len() ==> jwf((#[trigger] old(out)@[k]).1))
            ==> (forall|k: int| 0 <= k < final(out)@.len() ==> jwf((#[trigger] final(out)@[k]).1)),
{
    let ghost out0 = out@;
    match o {
        Option::None => {
            out.push((name.to_owned(), Json::Null));
        },
        Option::Some(vs) => {
            let ghost docs_s = vs@.map_values(|t: String| JVal::Str(t@));
            let n: usize = vs.len();
            let mut docs: Vec<Json> = Vec::new();
            let mut i: usize = 0;
            proof {
                assert(jv_seq(docs@) =~= docs_s.take(0));
            }
            while i < n
                invariant
                    i <= n,
                    n == vs@.len(),
                    docs_s == vs@.map_values(|t: String| JVal::Str(t@)),
                    docs_s.len() == n,
                    docs@.len() == i,
                    jv_seq(docs@) == docs_s.take(i as int),
                    forall|k: int| 0 <= k < docs@.len() ==> jwf(#[trigger] docs@[k]),
                decreases n - i,
            {
                let ghost docs0 = docs@;
                let d = Json::Str(vs[i].clone());
                docs.push(d);
                proof {
                    crate::json::lemma_jv_seq_push(docs0, d);
                    assert(docs_s[i as int] == JVal::Str(vs@[i as int]@));
                    assert(docs_s.take(i + 1) =~= docs_s.take(i as int).push(docs_s[i as int]));
                    assert(jv_seq(docs@) =~= docs_s.take(i + 1));
                }
                i = i + 1;
            }
            proof {
                assert(docs_s.take(n as int) =~= docs_s);
            }
            out.push((name.to_owned(), Json::Arr(docs)));
        },
    }
    proof {
        crate::json::lemma_jv_members_push(out0, (out@.last().0, out@.last().1));
        assert(out@ =~= out0.push(out@.last()));
        assert(jv_members(out@) =~= jv_members(out0) + seq![(name@, jv_opt_str_arr(*o))]);
    }
}

/// The shared response envelope, seen from outside: every endpoint's
/// response type reads the same two-member object, and accepts the empty
/// envelope.  The trait is implemented, with proof, by every response
/// type; nothing here is taken on trust.
pub trait ResponseEnvelope: Sized {
    /// Whether a document fits this endpoint's envelope shape.
    spec fn env_ok(v: JVal) -> bool;

    /// Whether this value is what the document decodes to.
    spec fn env_matches(self, v: JVal) -> bool;

    /// Reads the envelope out of a parsed document.
    fn env_from_json(doc: &Json) -> (r: Result<Self, DecodeError>)
        requires
            jwf(*doc),
        ensures
            match r {
                Result::Ok(resp) => Self::env_ok(jv(*doc)) && resp.env_matches(jv(*doc)),
                Result::Err(e) => e == DecodeError::Shape && !Self::env_ok(jv(*doc)),
            },
    ;

    /// The empty envelope — a null record array and a null continuation
    /// token — fits every endpoint's shape.
    proof fn lemma_empty_envelope()
        ensures
            Self::env_ok(empty_envelope()),
    ;
}

/// The empty envelope's document.
pub open spec fn empty_envelope() -> JVal {
    JVal::Obj(seq![("data"@, JVal::Null), ("paginationToken"@, JVal::Null)])
}

/// Decodes one response body against any endpoint's envelope: `Syntax`
/// when the body is not valid JSON, `Shape` when it does not fit the
/// declared shape, the typed response otherwise.
pub fn decode_body<T: ResponseEnvelope>(body: &str) -> (r: Result<T, DecodeError>)
    ensures
        match spec_parse(body@) {
            Option::None => r == Result::<T, DecodeError>::Err(DecodeError::Syntax),
            Option::Some(v) => match r {
                Result::Ok(resp) => T::env_ok(v) && resp.env_matches(v),
                Result::Err(e) => e == DecodeError::Shape && !T::env_ok(v),
            },
        },
{
    match parse(body) {
        Option::None => Result::Err(DecodeError::Syntax),
        Option::Some(doc) => T::env_from_json(&doc),
    }
}

/// For every endpoint's response type at once: the rendered empty
/// envelope parses back to itself and is accepted, so a body whose record
/// array and continuation token are both null is never an error.
pub proof fn lemma_empty_envelope_accepted<T: ResponseEnvelope>()
    ensures
        spec_parse(ser_val(empty_envelope())) == Some(empty_envelope()),
        T::env_ok(empty_envelope()),
{
    assert(wf(empty_envelope())) by {
        let ms = empty_envelope()->Obj_0;
        assert forall|k: int| 0 <= k < ms.len() implies wf(#[trigger] ms[k].1) by {}
    }
    crate::roundtrip::lemma_parse_render(empty_envelope());
    T::lemma_empty_envelope();
}

} // verus!
