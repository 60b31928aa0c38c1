//! Liquidity-pool reward emissions, `POST <root>/defi/liquidity-pools/emissions`.

use vstd::prelude::*;

use crate::call::{PreparedCall, headers_model, hellomoon_root_url, prepare_call, root_url, spec_headers};
use crate::decode::{
    get_opt_num, get_opt_string, get_opt_u64, jv_opt_num, o_num, o_num_wf, put_num_field,
    spec_opt_num, spec_opt_string, spec_opt_u64, DecodeError, NumVal,
};
use crate::fields::{
    obj_get, opt_count, opt_text, push_count, push_text, put_doc_field, put_str_field,
    put_u64_field,
};
use crate::json::{
    JVal, Json, jv, jv_members, jv_opt_str, jv_opt_u64, jv_seq, jwf, lemma_jv_seq, o_str, o_u64,
    ser_val, wf,
};
use crate::parse::spec_parse;

verus! {
broadcast use vstd::seq::group_seq_axioms, vstd::std_specs::vec::group_vec_axioms;

/// What to ask the emissions endpoint for.
pub struct LpEmissionsRequest {
    pub pool_address: String,
    pub mint: String,
    pub block_time: usize,
    pub limit: usize,
    pub page: usize,
    pub pagination_token: String,
}

impl LpEmissionsRequest {
    /// The members of the serialized request body, in declaration order,
    /// sentinel fields omitted.
    pub open spec fn spec_members(self) -> Seq<(Seq<char>, JVal)> {
        opt_text("poolAddress"@, self.pool_address@)
            + opt_text("mint"@, self.mint@)
            + opt_count("blockTime"@, self.block_time as int)
            + opt_count("limit"@, self.limit as int)
            + opt_count("page"@, self.page as int)
            + opt_text("paginationToken"@, self.pagination_token@)
    }

    /// Serializes the request body.
    pub fn to_json(&self) -> (r: Json)
        ensures
            jv(r) == JVal::Obj(self.spec_members()),
            jwf(r),
    {
        let mut out: Vec<(String, Json)> = Vec::new();
        proof {
            assert(jv_members(out@) =~= Seq::<(Seq<char>, JVal)>::empty());
        }
        push_text(&mut out, "poolAddress", &self.pool_address);
        push_text(&mut out, "mint", &self.mint);
        push_count(&mut out, "blockTime", self.block_time);
        push_count(&mut out, "limit", self.limit);
        push_count(&mut out, "page", self.page);
        push_text(&mut out, "paginationToken", &self.pagination_token);
        proof {
            assert(jv_members(out@) =~= self.spec_members());
        }
        Json::Obj(out)
    }
}

impl crate::call::RequestShape for LpEmissionsRequest {
    open spec fn req_members(self) -> Seq<(Seq<char>, JVal)> {
        self.spec_members()
    }

    fn req_to_json(&self) -> (r: Json) {
        self.to_json()
    }
}

impl LpEmissionsRequest {
    /// Sentinel omission: each field stands in the serialized object
    /// exactly when its value is not the sentinel, under its wire name,
    /// with its serialized value; a sentinel field's name is absent.
    #[verifier::rlimit(100)]
    pub proof fn lemma_sentinel_omission(self)
        ensures
            obj_get(self.spec_members(), "poolAddress"@) == (if self.pool_address@.len() > 0 {
                Option::Some(JVal::Str(self.pool_address@))
            } else {
                Option::<JVal>::None
            }),
            obj_get(self.spec_members(), "mint"@) == (if self.mint@.len() > 0 {
                Option::Some(JVal::Str(self.mint@))
            } else {
                Option::<JVal>::None
            }),
            obj_get(self.spec_members(), "blockTime"@) == (if self.block_time > 0 {
                Option::Some(JVal::Int(self.block_time as int))
            } else {
                Option::<JVal>::None
            }),
            obj_get(self.spec_members(), "limit"@) == (if self.limit > 0 {
                Option::Some(JVal::Int(self.limit as int))
            } else {
                Option::<JVal>::None
            }),
            obj_get(self.spec_members(), "page"@) == (if self.page > 0 {
                Option::Some(JVal::Int(self.page as int))
            } else {
                Option::<JVal>::None
            }),
            obj_get(self.spec_members(), "paginationToken"@) == (if self.pagination_token@.len() > 0 {
                Option::Some(JVal::Str(self.pagination_token@))
            } else {
                Option::<JVal>::None
            }),
    {
        reveal_strlit("blockTime");
        reveal_strlit("limit");
        reveal_strlit("mint");
        reveal_strlit("page");
        reveal_strlit("paginationToken");
        reveal_strlit("poolAddress");
        assert("blockTime"@.len() == 9);
        assert("limit"@.len() == 5);
        assert("mint"@.len() == 4);
        assert("page"@.len() == 4);
        assert("paginationToken"@.len() == 15);
        assert("poolAddress"@.len() == 11);
        assert("mint"@[0] == 'm');
        assert("page"@[0] == 'p');
        let s1 = crate::fields::seg("poolAddress"@, self.pool_address@.len() > 0, JVal::Str(self.pool_address@));
        let s2 = crate::fields::seg("mint"@, self.mint@.len() > 0, JVal::Str(self.mint@));
        let s3 = crate::fields::seg("blockTime"@, self.block_time > 0, JVal::Int(self.block_time as int));
        let s4 = crate::fields::seg("limit"@, self.limit > 0, JVal::Int(self.limit as int));
        let s5 = crate::fields::seg("page"@, self.page > 0, JVal::Int(self.page as int));
        let s6 = crate::fields::seg("paginationToken"@, self.pagination_token@.len() > 0, JVal::Str(self.pagination_token@));
        assert(self.spec_members() =~= s1 + s2 + s3 + s4 + s5 + s6);
        crate::fields::lemma_seg_get_any("poolAddress"@, self.pool_address@.len() > 0, JVal::Str(self.pool_address@));
        crate::fields::lemma_seg_get_any("mint"@, self.mint@.len() > 0, JVal::Str(self.mint@));
        crate::fields::lemma_seg_get_any("blockTime"@, self.block_time > 0, JVal::Int(self.block_time as int));
        crate::fields::lemma_seg_get_any("limit"@, self.limit > 0, JVal::Int(self.limit as int));
        crate::fields::lemma_seg_get_any("page"@, self.page > 0, JVal::Int(self.page as int));
        crate::fields::lemma_seg_get_any("paginationToken"@, self.pagination_token@.len() > 0, JVal::Str(self.pagination_token@));
        crate::fields::lemma_obj_get_concat(s1 + s2 + s3 + s4 + s5, s6, "poolAddress"@);
        crate::fields::lemma_obj_get_concat(s1 + s2 + s3 + s4, s5, "poolAddress"@);
        crate::fields::lemma_obj_get_concat(s1 + s2 + s3, s4, "poolAddress"@);
        crate::fields::lemma_obj_get_concat(s1 + s2, s3, "poolAddress"@);
        crate::fields::lemma_obj_get_concat(s1, s2, "poolAddress"@);
        crate::fields::lemma_obj_get_concat(s1 + s2 + s3 + s4 + s5, s6, "mint"@);
        crate::fields::lemma_obj_get_concat(s1 + s2 + s3 + s4, s5, "mint"@);
        crate::fields::lemma_obj_get_concat(s1 + s2 + s3, s4, "mint"@);
        crate::fields::lemma_obj_get_concat(s1 + s2, s3, "mint"@);
        crate::fields::lemma_obj_get_concat(s1, s2, "mint"@);
        crate::fields::lemma_obj_get_concat(s1 + s2 + s3 + s4 + s5, s6, "blockTime"@);
        crate::fields::lemma_obj_get_concat(s1 + s2 + s3 + s4, s5, "blockTime"@);
        crate::fields::lemma_obj_get_concat(s1 + s2 + s3, s4, "blockTime"@);
        crate::fields::lemma_obj_get_concat(s1 + s2, s3, "blockTime"@);
        crate::fields::lemma_obj_get_concat(s1, s2, "blockTime"@);
        crate::fields::lemma_obj_get_concat(s1 + s2 + s3 + s4 + s5, s6, "limit"@);
        crate::fields::lemma_obj_get_concat(s1 + s2 + s3 + s4, s5, "limit"@);
        crate::fields::lemma_obj_get_concat(s1 + s2 + s3, s4, "limit"@);
        crate::fields::lemma_obj_get_concat(s1 + s2, s3, "limit"@);
        crate::fields::lemma_obj_get_concat(s1, s2, "limit"@);
        crate::fields::lemma_obj_get_concat(s1 + s2 + s3 + s4 + s5, s6, "page"@);
        crate::fields::lemma_obj_get_concat(s1 + s2 + s3 + s4, s5, "page"@);
        crate::fields::lemma_obj_get_concat(s1 + s2 + s3, s4, "page"@);
        crate::fields::lemma_obj_get_concat(s1 + s2, s3, "page"@);
        crate::fields::lemma_obj_get_concat(s1, s2, "page"@);
        crate::fields::lemma_obj_get_concat(s1 + s2 + s3 + s4 + s5, s6, "paginationToken"@);
        crate::fields::lemma_obj_get_concat(s1 + s2 + s3 + s4, s5, "paginationToken"@);
        crate::fields::lemma_obj_get_concat(s1 + s2 + s3, s4, "paginationToken"@);
        crate::fields::lemma_obj_get_concat(s1 + s2, s3, "paginationToken"@);
        crate::fields::lemma_obj_get_concat(s1, s2, "paginationToken"@);
    }
}

impl Default for LpEmissionsRequest {
    fn default() -> (r: Self)
        ensures
            r.pool_address@ == Seq::<char>::empty(),
            r.mint@ == Seq::<char>::empty(),
            r.block_time == 0,
            r.limit == 0,
            r.page == 0,
            r.pagination_token@ == Seq::<char>::empty(),
    {
        LpEmissionsRequest {
            pool_address: String::new(),
            mint: String::new(),
            block_time: 0,
            limit: 0,
            page: 0,
            pagination_token: String::new(),
        }
    }
}

/// One reward-emission record; per-day rates keep their wire text.
#[derive(Debug, PartialEq, Eq)]
pub struct IResponse {
    pub block_time: Option<u64>,
    pub block_id: Option<u64>,
    pub transaction_id: Option<String>,
    pub pool_address: Option<String>,
    pub mint: Option<String>,
    pub emissions_per_day: Option<NumVal>,
    pub emissions_per_day_converted: Option<NumVal>,
    pub mint_name: Option<String>,
    pub reward_vault: Option<String>,
}

impl IResponse {
    /// Whether a document fits this shape.
    pub open spec fn spec_ok(v: JVal) -> bool {
        v matches JVal::Obj(ms) && {
            &&& spec_opt_u64(ms, "blockTime"@) is Ok
            &&& spec_opt_u64(ms, "blockId"@) is Ok
            &&& spec_opt_string(ms, "transactionId"@) is Ok
            &&& spec_opt_string(ms, "poolAddress"@) is Ok
            &&& spec_opt_string(ms, "mint"@) is Ok
            &&& spec_opt_num(ms, "emissionsPerDay"@) is Ok
            &&& spec_opt_num(ms, "emissionsPerDayConverted"@) is Ok
            &&& spec_opt_string(ms, "mintName"@) is Ok
            &&& spec_opt_string(ms, "rewardVault"@) is Ok
        }
    }

    /// Whether this value is what the document decodes to.
    pub open spec fn matches_doc(self, v: JVal) -> bool {
        v matches JVal::Obj(ms) && {
            &&& spec_opt_u64(ms, "blockTime"@) == Result::<Option<int>, ()>::Ok(o_u64(self.block_time))
            &&& spec_opt_u64(ms, "blockId"@) == Result::<Option<int>, ()>::Ok(o_u64(self.block_id))
            &&& spec_opt_string(ms, "transactionId"@) == Result::<Option<Seq<char>>, ()>::Ok(o_str(self.transaction_id))
            &&& spec_opt_string(ms, "poolAddress"@) == Result::<Option<Seq<char>>, ()>::Ok(o_str(self.pool_address))
            &&& spec_opt_string(ms, "mint"@) == Result::<Option<Seq<char>>, ()>::Ok(o_str(self.mint))
            &&& spec_opt_num(ms, "emissionsPerDay"@) == Result::<Option<JVal>, ()>::Ok(o_num(self.emissions_per_day))
            &&& spec_opt_num(ms, "emissionsPerDayConverted"@) == Result::<Option<JVal>, ()>::Ok(o_num(self.emissions_per_day_converted))
            &&& spec_opt_string(ms, "mintName"@) == Result::<Option<Seq<char>>, ()>::Ok(o_str(self.mint_name))
            &&& spec_opt_string(ms, "rewardVault"@) == Result::<Option<Seq<char>>, ()>::Ok(o_str(self.reward_vault))
        }
    }

    /// Well-formedness: number fields hold canonical values.
    pub open spec fn inv(self) -> bool {
        o_num_wf(self.emissions_per_day) && o_num_wf(self.emissions_per_day_converted)
    }

    /// Reads one record out of a document.
    pub fn from_json(doc: &Json) -> (r: Result<Self, DecodeError>)
        requires
            jwf(*doc),
        ensures
            match r {
                Result::Ok(it) => Self::spec_ok(jv(*doc)) && it.matches_doc(jv(*doc)) && it.inv(),
                Result::Err(e) => e == DecodeError::Shape && !Self::spec_ok(jv(*doc)),
            },
    {
        let ms = match doc {
            Json::Obj(ms) => ms,
            _ => {
                return Result::Err(DecodeError::Shape);
            },
        };
        let block_time = match get_opt_u64(ms, "blockTime") {
            Result::Ok(o) => o,
            Result::Err(e) => {
                return Result::Err(e);
            },
        };
        let block_id = match get_opt_u64(ms, "blockId") {
            Result::Ok(o) => o,
            Result::Err(e) => {
                return Result::Err(e);
            },
        };
        let transaction_id = match get_opt_string(ms, "transactionId") {
            Result::Ok(o) => o,
            Result::Err(e) => {
                return Result::Err(e);
            },
        };
        let pool_address = match get_opt_string(ms, "poolAddress") {
            Result::Ok(o) => o,
            Result::Err(e) => {
                return Result::Err(e);
            },
        };
        let mint = match get_opt_string(ms, "mint") {
            Result::Ok(o) => o,
            Result::Err(e) => {
                return Result::Err(e);
            },
        };
        let emissions_per_day = match get_opt_num(ms, "emissionsPerDay") {
            Result::Ok(o) => o,
            Result::Err(e) => {
                return Result::Err(e);
            },
        };
        let emissions_per_day_converted = match get_opt_num(ms, "emissionsPerDayConverted") {
            Result::Ok(o) => o,
            Result::Err(e) => {
                return Result::Err(e);
            },
        };
        let mint_name = match get_opt_string(ms, "mintName") {
            Result::Ok(o) => o,
            Result::Err(e) => {
                return Result::Err(e);
            },
        };
        let reward_vault = match get_opt_string(ms, "rewardVault") {
            Result::Ok(o) => o,
            Result::Err(e) => {
                return Result::Err(e);
            },
        };
        Result::Ok(IResponse { block_time, block_id, transaction_id, pool_address, mint, emissions_per_day, emissions_per_day_converted, mint_name, reward_vault })
    }

    /// The canonical document of this value: every field written, `null`
    /// for absent ones, in declaration order.
    pub open spec fn spec_doc(self) -> JVal {
        JVal::Obj(seq![
            ("blockTime"@, jv_opt_u64(self.block_time)),
            ("blockId"@, jv_opt_u64(self.block_id)),
            ("transactionId"@, jv_opt_str(self.transaction_id)),
            ("poolAddress"@, jv_opt_str(self.pool_address)),
            ("mint"@, jv_opt_str(self.mint)),
            ("emissionsPerDay"@, jv_opt_num(self.emissions_per_day)),
            ("emissionsPerDayConverted"@, jv_opt_num(self.emissions_per_day_converted)),
            ("mintName"@, jv_opt_str(self.mint_name)),
            ("rewardVault"@, jv_opt_str(self.reward_vault)),
        ])
    }

    /// Serializes this value to its canonical document.
    pub fn to_json(&self) -> (r: Json)
    requires
        self.inv(),
        ensures
            jv(r) == self.spec_doc(),
            jwf(r),
    {
        let mut out: Vec<(String, Json)> = Vec::new();
        proof {
            assert(jv_members(out@) =~= Seq::<(Seq<char>, JVal)>::empty());
        }
        put_u64_field(&mut out, "blockTime", &self.block_time);
        put_u64_field(&mut out, "blockId", &self.block_id);
        put_str_field(&mut out, "transactionId", &self.transaction_id);
        put_str_field(&mut out, "poolAddress", &self.pool_address);
        put_str_field(&mut out, "mint", &self.mint);
        put_num_field(&mut out, "emissionsPerDay", &self.emissions_per_day);
        put_num_field(&mut out, "emissionsPerDayConverted", &self.emissions_per_day_converted);
        put_str_field(&mut out, "mintName", &self.mint_name);
        put_str_field(&mut out, "rewardVault", &self.reward_vault);
        proof {
            assert(jv_members(out@) =~= self.spec_doc()->Obj_0);
        }
        Json::Obj(out)
    }

    /// Decoding the canonical document gives the value back.
    pub proof fn lemma_roundtrip(self)
        ensures
            Self::spec_ok(self.spec_doc()),
            self.matches_doc(self.spec_doc()),
    {
        let ms = self.spec_doc()->Obj_0;
    reveal_strlit("blockId");
    reveal_strlit("blockTime");
    reveal_strlit("emissionsPerDay");
    reveal_strlit("emissionsPerDayConverted");
    reveal_strlit("mint");
    reveal_strlit("mintName");
    reveal_strlit("poolAddress");
    reveal_strlit("rewardVault");
    reveal_strlit("transactionId");
    assert("blockId"@.len() == 7);
    assert("blockTime"@.len() == 9);
    assert("emissionsPerDay"@.len() == 15);
    assert("emissionsPerDayConverted"@.len() == 24);
    assert("mint"@.len() == 4);
    assert("mintName"@.len() == 8);
    assert("poolAddress"@.len() == 11);
    assert("rewardVault"@.len() == 11);
    assert("transactionId"@.len() == 13);
    assert("poolAddress"@[0] == 'p');
    assert("rewardVault"@[0] == 'r');
    crate::fields::lemma_obj_get_index(ms, 0);
    crate::fields::lemma_obj_get_index(ms, 1);
    crate::fields::lemma_obj_get_index(ms, 2);
    crate::fields::lemma_obj_get_index(ms, 3);
    crate::fields::lemma_obj_get_index(ms, 4);
    crate::fields::lemma_obj_get_index(ms, 5);
    crate::fields::lemma_obj_get_index(ms, 6);
    crate::fields::lemma_obj_get_index(ms, 7);
    crate::fields::lemma_obj_get_index(ms, 8);
    }

    /// The canonical document is well formed.
    pub proof fn lemma_spec_doc_wf(self)
        requires
            self.inv(),
        ensures
            wf(self.spec_doc()),
    {
        let ms = self.spec_doc()->Obj_0;
        assert forall|k: int| 0 <= k < ms.len() implies wf(#[trigger] ms[k].1) by {}
    }
}

/// The response envelope: an optional run of records and an optional
/// continuation token.
#[derive(Debug, PartialEq, Eq)]
pub struct LpEmissionsResponse {
    pub data: Option<Vec<IResponse>>,
    pub pagination_token: Option<String>,
}

impl LpEmissionsResponse {
    /// Whether a document fits the envelope's shape.
    pub open spec fn spec_ok(v: JVal) -> bool {
        v matches JVal::Obj(ms) && {
            &&& spec_opt_string(ms, "paginationToken"@) is Ok
            &&& match obj_get(ms, "data"@) {
                Option::None => true,
                Option::Some(JVal::Null) => true,
                Option::Some(JVal::Arr(elems)) => forall|k: int| 0 <= k < elems.len()
                    ==> IResponse::spec_ok(#[trigger] elems[k]),
                Option::Some(_) => false,
            }
        }
    }

    /// Whether this value is what the document decodes to.
    pub open spec fn matches_doc(self, v: JVal) -> bool {
        v matches JVal::Obj(ms) && {
            &&& spec_opt_string(ms, "paginationToken"@) == Result::<Option<Seq<char>>, ()>::Ok(o_str(self.pagination_token))
            &&& match obj_get(ms, "data"@) {
                Option::None => self.data is None,
                Option::Some(JVal::Null) => self.data is None,
                Option::Some(JVal::Arr(elems)) => self.data matches Option::Some(items)
                    && items@.len() == elems.len()
                    && (forall|k: int| 0 <= k < elems.len()
                        ==> (#[trigger] items@[k]).matches_doc(elems[k])),
                Option::Some(_) => false,
            }
        }
    }

    /// Well-formedness of the held records.
    pub open spec fn inv(self) -> bool {
        match self.data {
            Option::Some(items) => forall|k: int| 0 <= k < items@.len() ==> (#[trigger] items@[k]).inv(),
            Option::None => true,
        }
    }

    /// Reads the envelope out of a document.
    pub fn from_json(doc: &Json) -> (r: Result<Self, DecodeError>)
        requires
            jwf(*doc),
        ensures
            match r {
                Result::Ok(resp) => Self::spec_ok(jv(*doc)) && resp.matches_doc(jv(*doc)) && resp.inv(),
                Result::Err(e) => e == DecodeError::Shape && !Self::spec_ok(jv(*doc)),
            },
    {
        let ms = match doc {
            Json::Obj(ms) => ms,
            _ => {
                return Result::Err(DecodeError::Shape);
            },
        };
        proof {
            assert(jv(*doc) == JVal::Obj(jv_members(ms@)));
        }
        let pagination_token = match get_opt_string(ms, "paginationToken") {
            Result::Ok(o) => o,
            Result::Err(e) => {
                return Result::Err(e);
            },
        };
        let data = match decode_data(ms) {
            Result::Ok(o) => o,
            Result::Err(e) => {
                return Result::Err(e);
            },
        };
        Result::Ok(LpEmissionsResponse { data, pagination_token })
    }

    /// The canonical document of this envelope.
    pub open spec fn spec_doc(self) -> JVal {
        JVal::Obj(seq![
            ("data"@, match self.data {
                Option::None => JVal::Null,
                Option::Some(items) => JVal::Arr(items@.map_values(|it: IResponse| it.spec_doc())),
            }),
            ("paginationToken"@, jv_opt_str(self.pagination_token)),
        ])
    }

    /// Serializes this envelope to its canonical document.
    pub fn to_json(&self) -> (r: Json)
        requires
            self.inv(),
        ensures
            jv(r) == self.spec_doc(),
            jwf(r),
    {
        let mut out: Vec<(String, Json)> = Vec::new();
        proof {
            assert(jv_members(out@) =~= Seq::<(Seq<char>, JVal)>::empty());
        }
        let data_doc: Json = match &self.data {
            Option::None => Json::Null,
            Option::Some(items) => {
                let ghost docs_s = items@.map_values(|it: IResponse| it.spec_doc());
                let n: usize = items.len();
                let mut docs: Vec<Json> = Vec::new();
                let mut i: usize = 0;
                proof {
                    assert(jv_seq(docs@) =~= docs_s.take(0));
                    assert(forall|k: int| 0 <= k < items@.len() ==> (#[trigger] items@[k]).inv());
                }
                while i < n
                    invariant
                        i <= n,
                        n == items@.len(),
                        docs_s == items@.map_values(|it: IResponse| it.spec_doc()),
                        docs_s.len() == n,
                        forall|k: int| 0 <= k < items@.len() ==> (#[trigger] items@[k]).inv(),
                        docs@.len() == i,
                        jv_seq(docs@) == docs_s.take(i as int),
                        forall|k: int| 0 <= k < docs@.len() ==> jwf(#[trigger] docs@[k]),
                    decreases n - i,
                {
                    let ghost docs0 = docs@;
                    let d = items[i].to_json();
                    docs.push(d);
                    proof {
                        crate::json::lemma_jv_seq_push(docs0, d);
                        assert(docs_s[i as int] == items@[i as int].spec_doc());
                        assert(docs_s.take(i + 1) =~= docs_s.take(i as int).push(docs_s[i as int]));
                        assert(jv_seq(docs@) =~= docs_s.take(i + 1));
                    }
                    i = i + 1;
                }
                proof {
                    assert(docs_s.take(n as int) =~= docs_s);
                }
                Json::Arr(docs)
            },
        };
        put_doc_field(&mut out, "data", data_doc);
        put_str_field(&mut out, "paginationToken", &self.pagination_token);
        proof {
            assert(jv_members(out@) =~= self.spec_doc()->Obj_0);
        }
        Json::Obj(out)
    }

    /// Decoding the canonical document gives the envelope back.
    pub proof fn lemma_roundtrip(self)
        ensures
            Self::spec_ok(self.spec_doc()),
            self.matches_doc(self.spec_doc()),
    {
        let ms = self.spec_doc()->Obj_0;
        reveal_strlit("data");
        reveal_strlit("paginationToken");
        assert("data"@.len() == 4);
        assert("paginationToken"@.len() == 15);
        crate::fields::lemma_obj_get_index(ms, 0);
        crate::fields::lemma_obj_get_index(ms, 1);
        match self.data {
            Option::Some(items) => {
                let docs = items@.map_values(|it: IResponse| it.spec_doc());
                assert forall|k: int| 0 <= k < docs.len() implies IResponse::spec_ok(#[trigger] docs[k]) by {
                    assert(docs[k] == items@[k].spec_doc());
                    items@[k].lemma_roundtrip();
                }
                assert forall|k: int| 0 <= k < items@.len() implies (#[trigger] items@[k]).matches_doc(docs[k]) by {
                    assert(docs[k] == items@[k].spec_doc());
                    items@[k].lemma_roundtrip();
                }
            },
            Option::None => {},
        }
    }

    /// The canonical document is well formed.
    pub proof fn lemma_spec_doc_wf(self)
        requires
            self.inv(),
        ensures
            wf(self.spec_doc()),
    {
        let ms = self.spec_doc()->Obj_0;
        match self.data {
            Option::Some(items) => {
                let docs = items@.map_values(|it: IResponse| it.spec_doc());
                assert forall|k: int| 0 <= k < docs.len() implies wf(#[trigger] docs[k]) by {
                    assert(docs[k] == items@[k].spec_doc());
                    items@[k].lemma_spec_doc_wf();
                }
                assert(wf(ms[0].1));
            },
            Option::None => {},
        }
        assert forall|k: int| 0 <= k < ms.len() implies wf(#[trigger] ms[k].1) by {}
    }

    /// Round trip through the wire: the rendered text of the canonical
    /// document parses back to it, and decoding it yields exactly this
    /// envelope's values.
    pub proof fn lemma_text_roundtrip(self)
        requires
            self.inv(),
        ensures
            spec_parse(ser_val(self.spec_doc())) == Some(self.spec_doc()),
            Self::spec_ok(self.spec_doc()),
            self.matches_doc(self.spec_doc()),
    {
        self.lemma_spec_doc_wf();
        crate::roundtrip::lemma_parse_render(self.spec_doc());
        self.lemma_roundtrip();
    }
}

/// Reads the optional `data` array of records.
fn decode_data(ms: &Vec<(String, Json)>) -> (r: Result<Option<Vec<IResponse>>, DecodeError>)
    requires
        forall|k: int| 0 <= k < ms@.len() ==> jwf((#[trigger] ms@[k]).1),
    ensures
        match r {
            Result::Ok(o) => match obj_get(jv_members(ms@), "data"@) {
                Option::None => o is None,
                Option::Some(JVal::Null) => o is None,
                Option::Some(JVal::Arr(elems)) => o matches Option::Some(items)
                    && items@.len() == elems.len()
                    && (forall|k: int| 0 <= k < elems.len()
                        ==> IResponse::spec_ok(#[trigger] elems[k]))
                    && (forall|k: int| 0 <= k < elems.len()
                        ==> (#[trigger] items@[k]).matches_doc(elems[k]))
                    && (forall|k: int| 0 <= k < items@.len() ==> (#[trigger] items@[k]).inv()),
                Option::Some(_) => false,
            },
            Result::Err(e) => e == DecodeError::Shape && match obj_get(jv_members(ms@), "data"@) {
                Option::None => false,
                Option::Some(JVal::Null) => false,
                Option::Some(JVal::Arr(elems)) => !(forall|k: int| 0 <= k < elems.len()
                    ==> IResponse::spec_ok(#[trigger] elems[k])),
                Option::Some(_) => true,
            },
        },
{
    let arr = match crate::decode::lookup_member(ms, "data") {
        Option::None => {
            return Result::Ok(Option::None);
        },
        Option::Some(j) => match j {
            Json::Null => {
                return Result::Ok(Option::None);
            },
            Json::Arr(elems) => elems,
            _ => {
                return Result::Err(DecodeError::Shape);
            },
        },
    };
    let ghost evs = jv_seq(arr@);
    proof {
        lemma_jv_seq(arr@);
    }
    let n: usize = arr.len();
    let mut items: Vec<IResponse> = Vec::new();
    let mut i: usize = 0;
    while i < n
        invariant
            i <= n,
            n == arr@.len(),
            obj_get(jv_members(ms@), "data"@) == Some(JVal::Arr(evs)),
            evs == jv_seq(arr@),
            evs.len() == n,
            forall|k: int| 0 <= k < n ==> evs[k] == jv(#[trigger] arr@[k]),
            forall|k: int| 0 <= k < n ==> jwf(#[trigger] arr@[k]),
            items@.len() == i,
            forall|k: int| 0 <= k < i ==> IResponse::spec_ok(#[trigger] evs[k]),
            forall|k: int| 0 <= k < i ==> (#[trigger] items@[k]).matches_doc(evs[k]),
            forall|k: int| 0 <= k < items@.len() ==> (#[trigger] items@[k]).inv(),
        decreases n - i,
    {
        match IResponse::from_json(&arr[i]) {
            Result::Ok(it) => {
                items.push(it);
            },
            Result::Err(e) => {
                proof {
                    let g = obj_get(jv_members(ms@), "data"@);
                    let gelems = g->0->Arr_0;
                    assert(gelems == evs);
                    assert(!(forall|k: int| 0 <= k < gelems.len()
                        ==> IResponse::spec_ok(#[trigger] gelems[k]))) by {
                        assert(!IResponse::spec_ok(gelems[i as int]));
                    }
                }
                return Result::Err(e);
            },
        }
        i = i + 1;
    }
    Result::Ok(Option::Some(items))
}

/// The path of this endpoint under the API root.
pub open spec fn lp_emission_url() -> Seq<char> {
    root_url() + "/defi/liquidity-pools/emissions"@
}

/// Prepares one call: the fixed URL, the three fixed headers with the
/// caller's bearer token, and — when a request is given — the canonical
/// serialization of its sentinel-filtered fields.
pub fn lp_emission(request: Option<&LpEmissionsRequest>, api_key: &str) -> (r: PreparedCall)
    ensures
        r.url@ == lp_emission_url(),
        headers_model(r.headers@) == spec_headers(api_key@),
        match request {
            Option::None => r.body is None,
            Option::Some(req) => r.body matches Option::Some(b)
                && b@ == ser_val(JVal::Obj(req.spec_members())),
        },
{
    let url = hellomoon_root_url().to_owned().concat("/defi/liquidity-pools/emissions");
    prepare_call(url, api_key, request)
}

impl crate::decode::ResponseEnvelope for LpEmissionsResponse {
    open spec fn env_ok(v: JVal) -> bool {
        LpEmissionsResponse::spec_ok(v)
    }

    open spec fn env_matches(self, v: JVal) -> bool {
        self.matches_doc(v)
    }

    fn env_from_json(doc: &Json) -> Result<Self, DecodeError> {
        LpEmissionsResponse::from_json(doc)
    }

    proof fn lemma_empty_envelope() {
        let ms = crate::decode::empty_envelope()->Obj_0;
        reveal_strlit("data");
        reveal_strlit("paginationToken");
        assert("data"@.len() == 4);
        assert("paginationToken"@.len() == 15);
        crate::fields::lemma_obj_get_index(ms, 0);
        crate::fields::lemma_obj_get_index(ms, 1);
    }
}

/// Decodes one response body: `Syntax` when the body is not valid JSON,
/// `Shape` when it does not fit the envelope, the typed response
/// otherwise.
pub fn lp_emission_decode(body: &str) -> (r: Result<LpEmissionsResponse, DecodeError>)
    ensures
        match spec_parse(body@) {
            Option::None => r == Result::<LpEmissionsResponse, DecodeError>::Err(DecodeError::Syntax),
            Option::Some(v) => match r {
                Result::Ok(resp) => LpEmissionsResponse::spec_ok(v) && resp.matches_doc(v),
                Result::Err(e) => e == DecodeError::Shape && !LpEmissionsResponse::spec_ok(v),
            },
        },
{
    crate::decode::decode_body::<LpEmissionsResponse>(body)
}

} // verus!
