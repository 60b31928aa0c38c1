//! Liquidity-pool metadata, `POST <root>/defi/liquidity-pools/metadata`.

use vstd::prelude::*;

use crate::call::{PreparedCall, headers_model, hellomoon_root_url, prepare_call, root_url, spec_headers};
use crate::decode::{get_opt_string, spec_opt_string, DecodeError};
use crate::fields::{
    obj_get, opt_count, opt_text, push_count, push_text, put_doc_field, put_str_field,
};
use crate::json::{
    JVal, Json, jv, jv_members, jv_opt_str, jv_seq, jwf, lemma_jv_seq, o_str, ser_val, wf,
};
use crate::parse::spec_parse;

verus! {
broadcast use vstd::seq::group_seq_axioms, vstd::std_specs::vec::group_vec_axioms;

/// What to ask the metadata endpoint for.
pub struct LpMetadataRequest {
    pub pool_address: String,
    pub program_name: String,
    pub pool_name: String,
    pub mint_token_a: String,
    pub mint_token_b: String,
    pub limit: usize,
    pub page: usize,
    pub pagination_token: String,
}

impl LpMetadataRequest {
    /// The members of the serialized request body, in declaration order,
    /// sentinel fields omitted.
    pub open spec fn spec_members(self) -> Seq<(Seq<char>, JVal)> {
        opt_text("poolAddress"@, self.pool_address@)
            + opt_text("programName"@, self.program_name@)
            + opt_text("poolName"@, self.pool_name@)
            + opt_text("mintTokenA"@, self.mint_token_a@)
            + opt_text("mintTokenB"@, self.mint_token_b@)
            + opt_count("limit"@, self.limit as int)
            + opt_count("page"@, self.page as int)
            + opt_text("paginationToken"@, self.pagination_token@)
    }

    /// Serializes the request body.
    pub fn to_json(&self) -> (r: Json)
        ensures
            jv(r) == JVal::Obj(self.spec_members()),
            jwf(r),
    {
        let mut out: Vec<(String, Json)> = Vec::new();
        proof {
            assert(jv_members(out@) =~= Seq::<(Seq<char>, JVal)>::empty());
        }
        push_text(&mut out, "poolAddress", &self.pool_address);
        push_text(&mut out, "programName", &self.program_name);
        push_text(&mut out, "poolName", &self.pool_name);
        push_text(&mut out, "mintTokenA", &self.mint_token_a);
        push_text(&mut out, "mintTokenB", &self.mint_token_b);
        push_count(&mut out, "limit", self.limit);
        push_count(&mut out, "page", self.page);
        push_text(&mut out, "paginationToken", &self.pagination_token);
        proof {
            assert(jv_members(out@) =~= self.spec_members());
        }
        Json::Obj(out)
    }
}

impl crate::call::RequestShape for LpMetadataRequest {
    open spec fn req_members(self) -> Seq<(Seq<char>, JVal)> {
        self.spec_members()
    }

    fn req_to_json(&self) -> (r: Json) {
        self.to_json()
    }
}

impl LpMetadataRequest {
    /// Sentinel omission: each field stands in the serialized object
    /// exactly when its value is not the sentinel, under its wire name,
    /// with its serialized value; a sentinel field's name is absent.
    #[verifier::rlimit(100)]
    pub proof fn lemma_sentinel_omission(self)
        ensures
            obj_get(self.spec_members(), "poolAddress"@) == (if self.pool_address@.len() > 0 {
                Option::Some(JVal::Str(self.pool_address@))
            } else {
                Option::<JVal>::None
            }),
            obj_get(self.spec_members(), "programName"@) == (if self.program_name@.len() > 0 {
                Option::Some(JVal::Str(self.program_name@))
            } else {
                Option::<JVal>::None
            }),
            obj_get(self.spec_members(), "poolName"@) == (if self.pool_name@.len() > 0 {
                Option::Some(JVal::Str(self.pool_name@))
            } else {
                Option::<JVal>::None
            }),
            obj_get(self.spec_members(), "mintTokenA"@) == (if self.mint_token_a@.len() > 0 {
                Option::Some(JVal::Str(self.mint_token_a@))
            } else {
                Option::<JVal>::None
            }),
            obj_get(self.spec_members(), "mintTokenB"@) == (if self.mint_token_b@.len() > 0 {
                Option::Some(JVal::Str(self.mint_token_b@))
            } else {
                Option::<JVal>::None
            }),
            obj_get(self.spec_members(), "limit"@) == (if self.limit > 0 {
                Option::Some(JVal::Int(self.limit as int))
            } else {
                Option::<JVal>::None
            }),
            obj_get(self.spec_members(), "page"@) == (if self.page > 0 {
                Option::Some(JVal::Int(self.page as int))
            } else {
                Option::<JVal>::None
            }),
            obj_get(self.spec_members(), "paginationToken"@) == (if self.pagination_token@.len() > 0 {
                Option::Some(JVal::Str(self.pagination_token@))
            } else {
                Option::<JVal>::None
            }),
    {
        reveal_strlit("limit");
        reveal_strlit("mintTokenA");
        reveal_strlit("mintTokenB");
        reveal_strlit("page");
        reveal_strlit("paginationToken");
        reveal_strlit("poolAddress");
        reveal_strlit("poolName");
        reveal_strlit("programName");
        assert("limit"@.len() == 5);
        assert("mintTokenA"@.len() == 10);
        assert("mintTokenB"@.len() == 10);
        assert("page"@.len() == 4);
        assert("paginationToken"@.len() == 15);
        assert("poolAddress"@.len() == 11);
        assert("poolName"@.len() == 8);
        assert("programName"@.len() == 11);
        assert("mintTokenA"@[9] == 'A');
        assert("mintTokenB"@[9] == 'B');
        assert("poolAddress"@[1] == 'o');
        assert("programName"@[1] == 'r');
        let s1 = crate::fields::seg("poolAddress"@, self.pool_address@.len() > 0, JVal::Str(self.pool_address@));
        let s2 = crate::fields::seg("programName"@, self.program_name@.len() > 0, JVal::Str(self.program_name@));
        let s3 = crate::fields::seg("poolName"@, self.pool_name@.len() > 0, JVal::Str(self.pool_name@));
        let s4 = crate::fields::seg("mintTokenA"@, self.mint_token_a@.len() > 0, JVal::Str(self.mint_token_a@));
        let s5 = crate::fields::seg("mintTokenB"@, self.mint_token_b@.len() > 0, JVal::Str(self.mint_token_b@));
        let s6 = crate::fields::seg("limit"@, self.limit > 0, JVal::Int(self.limit as int));
        let s7 = crate::fields::seg("page"@, self.page > 0, JVal::Int(self.page as int));
        let s8 = crate::fields::seg("paginationToken"@, self.pagination_token@.len() > 0, JVal::Str(self.pagination_token@));
        assert(self.spec_members() =~= s1 + s2 + s3 + s4 + s5 + s6 + s7 + s8);
        crate::fields::lemma_seg_get_any("poolAddress"@, self.pool_address@.len() > 0, JVal::Str(self.pool_address@));
        crate::fields::lemma_seg_get_any("programName"@, self.program_name@.len() > 0, JVal::Str(self.program_name@));
        crate::fields::lemma_seg_get_any("poolName"@, self.pool_name@.len() > 0, JVal::Str(self.pool_name@));
        crate::fields::lemma_seg_get_any("mintTokenA"@, self.mint_token_a@.len() > 0, JVal::Str(self.mint_token_a@));
        crate::fields::lemma_seg_get_any("mintTokenB"@, self.mint_token_b@.len() > 0, JVal::Str(self.mint_token_b@));
        crate::fields::lemma_seg_get_any("limit"@, self.limit > 0, JVal::Int(self.limit as int));
        crate::fields::lemma_seg_get_any("page"@, self.page > 0, JVal::Int(self.page as int));
        crate::fields::lemma_seg_get_any("paginationToken"@, self.pagination_token@.len() > 0, JVal::Str(self.pagination_token@));
        crate::fields::lemma_obj_get_concat(s1 + s2 + s3 + s4 + s5 + s6 + s7, s8, "poolAddress"@);
        crate::fields::lemma_obj_get_concat(s1 + s2 + s3 + s4 + s5 + s6, s7, "poolAddress"@);
        crate::fields::lemma_obj_get_concat(s1 + s2 + s3 + s4 + s5, s6, "poolAddress"@);
        crate::fields::lemma_obj_get_concat(s1 + s2 + s3 + s4, s5, "poolAddress"@);
        crate::fields::lemma_obj_get_concat(s1 + s2 + s3, s4, "poolAddress"@);
        crate::fields::lemma_obj_get_concat(s1 + s2, s3, "poolAddress"@);
        crate::fields::lemma_obj_get_concat(s1, s2, "poolAddress"@);
        crate::fields::lemma_obj_get_concat(s1 + s2 + s3 + s4 + s5 + s6 + s7, s8, "programName"@);
        crate::fields::lemma_obj_get_concat(s1 + s2 + s3 + s4 + s5 + s6, s7, "programName"@);
        crate::fields::lemma_obj_get_concat(s1 + s2 + s3 + s4 + s5, s6, "programName"@);
        crate::fields::lemma_obj_get_concat(s1 + s2 + s3 + s4, s5, "programName"@);
        crate::fields::lemma_obj_get_concat(s1 + s2 + s3, s4, "programName"@);
        crate::fields::lemma_obj_get_concat(s1 + s2, s3, "programName"@);
        crate::fields::lemma_obj_get_concat(s1, s2, "programName"@);
        crate::fields::lemma_obj_get_concat(s1 + s2 + s3 + s4 + s5 + s6 + s7, s8, "poolName"@);
        crate::fields::lemma_obj_get_concat(s1 + s2 + s3 + s4 + s5 + s6, s7, "poolName"@);
        crate::fields::lemma_obj_get_concat(s1 + s2 + s3 + s4 + s5, s6, "poolName"@);
        crate::fields::lemma_obj_get_concat(s1 + s2 + s3 + s4, s5, "poolName"@);
        crate::fields::lemma_obj_get_concat(s1 + s2 + s3, s4, "poolName"@);
        crate::fields::lemma_obj_get_concat(s1 + s2, s3, "poolName"@);
        crate::fields::lemma_obj_get_concat(s1, s2, "poolName"@);
        crate::fields::lemma_obj_get_concat(s1 + s2 + s3 + s4 + s5 + s6 + s7, s8, "mintTokenA"@);
        crate::fields::lemma_obj_get_concat(s1 + s2 + s3 + s4 + s5 + s6, s7, "mintTokenA"@);
        crate::fields::lemma_obj_get_concat(s1 + s2 + s3 + s4 + s5, s6, "mintTokenA"@);
        crate::fields::lemma_obj_get_concat(s1 + s2 + s3 + s4, s5, "mintTokenA"@);
        crate::fields::lemma_obj_get_concat(s1 + s2 + s3, s4, "mintTokenA"@);
        crate::fields::lemma_obj_get_concat(s1 + s2, s3, "mintTokenA"@);
        crate::fields::lemma_obj_get_concat(s1, s2, "mintTokenA"@);
        crate::fields::lemma_obj_get_concat(s1 + s2 + s3 + s4 + s5 + s6 + s7, s8, "mintTokenB"@);
        crate::fields::lemma_obj_get_concat(s1 + s2 + s3 + s4 + s5 + s6, s7, "mintTokenB"@);
        crate::fields::lemma_obj_get_concat(s1 + s2 + s3 + s4 + s5, s6, "mintTokenB"@);
        crate::fields::lemma_obj_get_concat(s1 + s2 + s3 + s4, s5, "mintTokenB"@);
        crate::fields::lemma_obj_get_concat(s1 + s2 + s3, s4, "mintTokenB"@);
        crate::fields::lemma_obj_get_concat(s1 + s2, s3, "mintTokenB"@);
        crate::fields::lemma_obj_get_concat(s1, s2, "mintTokenB"@);
        crate::fields::lemma_obj_get_concat(s1 + s2 + s3 + s4 + s5 + s6 + s7, s8, "limit"@);
        crate::fields::lemma_obj_get_concat(s1 + s2 + s3 + s4 + s5 + s6, s7, "limit"@);
        crate::fields::lemma_obj_get_concat(s1 + s2 + s3 + s4 + s5, s6, "limit"@);
        crate::fields::lemma_obj_get_concat(s1 + s2 + s3 + s4, s5, "limit"@);
        crate::fields::lemma_obj_get_concat(s1 + s2 + s3, s4, "limit"@);
        crate::fields::lemma_obj_get_concat(s1 + s2, s3, "limit"@);
        crate::fields::lemma_obj_get_concat(s1, s2, "limit"@);
        crate::fields::lemma_obj_get_concat(s1 + s2 + s3 + s4 + s5 + s6 + s7, s8, "page"@);
        crate::fields::lemma_obj_get_concat(s1 + s2 + s3 + s4 + s5 + s6, s7, "page"@);
        crate::fields::lemma_obj_get_concat(s1 + s2 + s3 + s4 + s5, s6, "page"@);
        crate::fields::lemma_obj_get_concat(s1 + s2 + s3 + s4, s5, "page"@);
        crate::fields::lemma_obj_get_concat(s1 + s2 + s3, s4, "page"@);
        crate::fields::lemma_obj_get_concat(s1 + s2, s3, "page"@);
        crate::fields::lemma_obj_get_concat(s1, s2, "page"@);
        crate::fields::lemma_obj_get_concat(s1 + s2 + s3 + s4 + s5 + s6 + s7, s8, "paginationToken"@);
        crate::fields::lemma_obj_get_concat(s1 + s2 + s3 + s4 + s5 + s6, s7, "paginationToken"@);
        crate::fields::lemma_obj_get_concat(s1 + s2 + s3 + s4 + s5, s6, "paginationToken"@);
        crate::fields::lemma_obj_get_concat(s1 + s2 + s3 + s4, s5, "paginationToken"@);
        crate::fields::lemma_obj_get_concat(s1 + s2 + s3, s4, "paginationToken"@);
        crate::fields::lemma_obj_get_concat(s1 + s2, s3, "paginationToken"@);
        crate::fields::lemma_obj_get_concat(s1, s2, "paginationToken"@);
    }
}

impl Default for LpMetadataRequest {
    fn default() -> (r: Self)
        ensures
            r.pool_address@ == Seq::<char>::empty(),
            r.program_name@ == Seq::<char>::empty(),
            r.pool_name@ == Seq::<char>::empty(),
            r.mint_token_a@ == Seq::<char>::empty(),
            r.mint_token_b@ == Seq::<char>::empty(),
            r.limit == 0,
            r.page == 0,
            r.pagination_token@ == Seq::<char>::empty(),
    {
        LpMetadataRequest {
            pool_address: String::new(),
            program_name: String::new(),
            pool_name: String::new(),
            mint_token_a: String::new(),
            mint_token_b: String::new(),
            limit: 0,
            page: 0,
            pagination_token: String::new(),
        }
    }
}

/// One pool-metadata record.
#[derive(Debug, PartialEq, Eq)]
pub struct IResponse {
    pub program_name: Option<String>,
    pub pool_address: Option<String>,
    pub pool_name: Option<String>,
    pub mint_token_a: Option<String>,
    pub name_token_a: Option<String>,
    pub mint_token_b: Option<String>,
    pub name_token_b: Option<String>,
    pub token_account_a: Option<String>,
    pub token_account_b: Option<String>,
}

impl IResponse {
    /// Whether a document fits this shape.
    pub open spec fn spec_ok(v: JVal) -> bool {
        v matches JVal::Obj(ms) && {
            &&& spec_opt_string(ms, "programName"@) is Ok
            &&& spec_opt_string(ms, "poolAddress"@) is Ok
            &&& spec_opt_string(ms, "poolName"@) is Ok
            &&& spec_opt_string(ms, "mintTokenA"@) is Ok
            &&& spec_opt_string(ms, "nameTokenA"@) is Ok
            &&& spec_opt_string(ms, "mintTokenB"@) is Ok
            &&& spec_opt_string(ms, "nameTokenB"@) is Ok
            &&& spec_opt_string(ms, "tokenAccountA"@) is Ok
            &&& spec_opt_string(ms, "tokenAccountB"@) is Ok
        }
    }

    /// Whether this value is what the document decodes to.
    pub open spec fn matches_doc(self, v: JVal) -> bool {
        v matches JVal::Obj(ms) && {
            &&& spec_opt_string(ms, "programName"@) == Result::<Option<Seq<char>>, ()>::Ok(o_str(self.program_name))
            &&& spec_opt_string(ms, "poolAddress"@) == Result::<Option<Seq<char>>, ()>::Ok(o_str(self.pool_address))
            &&& spec_opt_string(ms, "poolName"@) == Result::<Option<Seq<char>>, ()>::Ok(o_str(self.pool_name))
            &&& spec_opt_string(ms, "mintTokenA"@) == Result::<Option<Seq<char>>, ()>::Ok(o_str(self.mint_token_a))
            &&& spec_opt_string(ms, "nameTokenA"@) == Result::<Option<Seq<char>>, ()>::Ok(o_str(self.name_token_a))
            &&& spec_opt_string(ms, "mintTokenB"@) == Result::<Option<Seq<char>>, ()>::Ok(o_str(self.mint_token_b))
            &&& spec_opt_string(ms, "nameTokenB"@) == Result::<Option<Seq<char>>, ()>::Ok(o_str(self.name_token_b))
            &&& spec_opt_string(ms, "tokenAccountA"@) == Result::<Option<Seq<char>>, ()>::Ok(o_str(self.token_account_a))
            &&& spec_opt_string(ms, "tokenAccountB"@) == Result::<Option<Seq<char>>, ()>::Ok(o_str(self.token_account_b))
        }
    }

    /// Well-formedness: number fields hold canonical values.
    pub open spec fn inv(self) -> bool {
        true
    }

    /// Reads one record out of a document.
    pub fn from_json(doc: &Json) -> (r: Result<Self, DecodeError>)
        requires
            jwf(*doc),
        ensures
            match r {
                Result::Ok(it) => Self::spec_ok(jv(*doc)) && it.matches_doc(jv(*doc)) && it.inv(),
                Result::Err(e) => e == DecodeError::Shape && !Self::spec_ok(jv(*doc)),
            },
    {
        let ms = match doc {
            Json::Obj(ms) => ms,
            _ => {
                return Result::Err(DecodeError::Shape);
            },
        };
        let program_name = match get_opt_string(ms, "programName") {
            Result::Ok(o) => o,
            Result::Err(e) => {
                return Result::Err(e);
            },
        };
        let pool_address = match get_opt_string(ms, "poolAddress") {
            Result::Ok(o) => o,
            Result::Err(e) => {
                return Result::Err(e);
            },
        };
        let pool_name = match get_opt_string(ms, "poolName") {
            Result::Ok(o) => o,
            Result::Err(e) => {
                return Result::Err(e);
            },
        };
        let mint_token_a = match get_opt_string(ms, "mintTokenA") {
            Result::Ok(o) => o,
            Result::Err(e) => {
                return Result::Err(e);
            },
        };
        let name_token_a = match get_opt_string(ms, "nameTokenA") {
            Result::Ok(o) => o,
            Result::Err(e) => {
                return Result::Err(e);
            },
        };
        let mint_token_b = match get_opt_string(ms, "mintTokenB") {
            Result::Ok(o) => o,
            Result::Err(e) => {
                return Result::Err(e);
            },
        };
        let name_token_b = match get_opt_string(ms, "nameTokenB") {
            Result::Ok(o) => o,
            Result::Err(e) => {
                return Result::Err(e);
            },
        };
        let token_account_a = match get_opt_string(ms, "tokenAccountA") {
            Result::Ok(o) => o,
            Result::Err(e) => {
                return Result::Err(e);
            },
        };
        let token_account_b = match get_opt_string(ms, "tokenAccountB") {
            Result::Ok(o) => o,
            Result::Err(e) => {
                return Result::Err(e);
            },
        };
        Result::Ok(IResponse { program_name, pool_address, pool_name, mint_token_a, name_token_a, mint_token_b, name_token_b, token_account_a, token_account_b })
    }

    /// The canonical document of this value: every field written, `null`
    /// for absent ones, in declaration order.
    pub open spec fn spec_doc(self) -> JVal {
        JVal::Obj(seq![
            ("programName"@, jv_opt_str(self.program_name)),
            ("poolAddress"@, jv_opt_str(self.pool_address)),
            ("poolName"@, jv_opt_str(self.pool_name)),
            ("mintTokenA"@, jv_opt_str(self.mint_token_a)),
            ("nameTokenA"@, jv_opt_str(self.name_token_a)),
            ("mintTokenB"@, jv_opt_str(self.mint_token_b)),
            ("nameTokenB"@, jv_opt_str(self.name_token_b)),
            ("tokenAccountA"@, jv_opt_str(self.token_account_a)),
            ("tokenAccountB"@, jv_opt_str(self.token_account_b)),
        ])
    }

    /// Serializes this value to its canonical document.
    pub fn to_json(&self) -> (r: Json)
        ensures
            jv(r) == self.spec_doc(),
            jwf(r),
    {
        let mut out: Vec<(String, Json)> = Vec::new();
        proof {
            assert(jv_members(out@) =~= Seq::<(Seq<char>, JVal)>::empty());
        }
        put_str_field(&mut out, "programName", &self.program_name);
        put_str_field(&mut out, "poolAddress", &self.pool_address);
        put_str_field(&mut out, "poolName", &self.pool_name);
        put_str_field(&mut out, "mintTokenA", &self.mint_token_a);
        put_str_field(&mut out, "nameTokenA", &self.name_token_a);
        put_str_field(&mut out, "mintTokenB", &self.mint_token_b);
        put_str_field(&mut out, "nameTokenB", &self.name_token_b);
        put_str_field(&mut out, "tokenAccountA", &self.token_account_a);
        put_str_field(&mut out, "tokenAccountB", &self.token_account_b);
        proof {
            assert(jv_members(out@) =~= self.spec_doc()->Obj_0);
        }
        Json::Obj(out)
    }

    /// Decoding the canonical document gives the value back.
    pub proof fn lemma_roundtrip(self)
        ensures
            Self::spec_ok(self.spec_doc()),
            self.matches_doc(self.spec_doc()),
    {
        let ms = self.spec_doc()->Obj_0;
    reveal_strlit("mintTokenA");
    reveal_strlit("mintTokenB");
    reveal_strlit("nameTokenA");
    reveal_strlit("nameTokenB");
    reveal_strlit("poolAddress");
    reveal_strlit("poolName");
    reveal_strlit("programName");
    reveal_strlit("tokenAccountA");
    reveal_strlit("tokenAccountB");
    assert("mintTokenA"@.len() == 10);
    assert("mintTokenB"@.len() == 10);
    assert("nameTokenA"@.len() == 10);
    assert("nameTokenB"@.len() == 10);
    assert("poolAddress"@.len() == 11);
    assert("poolName"@.len() == 8);
    assert("programName"@.len() == 11);
    assert("tokenAccountA"@.len() == 13);
    assert("tokenAccountB"@.len() == 13);
    assert("mintTokenA"@[0] == 'm');
    assert("mintTokenA"@[9] == 'A');
    assert("mintTokenB"@[0] == 'm');
    assert("mintTokenB"@[9] == 'B');
    assert("nameTokenA"@[0] == 'n');
    assert("nameTokenA"@[9] == 'A');
    assert("nameTokenB"@[0] == 'n');
    assert("nameTokenB"@[9] == 'B');
    assert("poolAddress"@[1] == 'o');
    assert("programName"@[1] == 'r');
    assert("tokenAccountA"@[12] == 'A');
    assert("tokenAccountB"@[12] == 'B');
    crate::fields::lemma_obj_get_index(ms, 0);
    crate::fields::lemma_obj_get_index(ms, 1);
    crate::fields::lemma_obj_get_index(ms, 2);
    crate::fields::lemma_obj_get_index(ms, 3);
    crate::fields::lemma_obj_get_index(ms, 4);
    crate::fields::lemma_obj_get_index(ms, 5);
    crate::fields::lemma_obj_get_index(ms, 6);
    crate::fields::lemma_obj_get_index(ms, 7);
    crate::fields::lemma_obj_get_index(ms, 8);
    }

    /// The canonical document is well formed.
    pub proof fn lemma_spec_doc_wf(self)
        ensures
            wf(self.spec_doc()),
    {
        let ms = self.spec_doc()->Obj_0;
        assert forall|k: int| 0 <= k < ms.len() implies wf(#[trigger] ms[k].1) by {}
    }
}

/// The response envelope: an optional run of records and an optional
/// continuation token.
#[derive(Debug, PartialEq, Eq)]
pub struct LpMetadataResponse {
    pub data: Option<Vec<IResponse>>,
    pub pagination_token: Option<String>,
}

impl LpMetadataResponse {
    /// Whether a document fits the envelope's shape.
    pub open spec fn spec_ok(v: JVal) -> bool {
        v matches JVal::Obj(ms) && {
            &&& spec_opt_string(ms, "paginationToken"@) is Ok
            &&& match obj_get(ms, "data"@) {
                Option::None => true,
                Option::Some(JVal::Null) => true,
                Option::Some(JVal::Arr(elems)) => forall|k: int| 0 <= k < elems.len()
                    ==> IResponse::spec_ok(#[trigger] elems[k]),
                Option::Some(_) => false,
            }
        }
    }

    /// Whether this value is what the document decodes to.
    pub open spec fn matches_doc(self, v: JVal) -> bool {
        v matches JVal::Obj(ms) && {
            &&& spec_opt_string(ms, "paginationToken"@) == Result::<Option<Seq<char>>, ()>::Ok(o_str(self.pagination_token))
            &&& match obj_get(ms, "data"@) {
                Option::None => self.data is None,
                Option::Some(JVal::Null) => self.data is None,
                Option::Some(JVal::Arr(elems)) => self.data matches Option::Some(items)
                    && items@.len() == elems.len()
                    && (forall|k: int| 0 <= k < elems.len()
                        ==> (#[trigger] items@[k]).matches_doc(elems[k])),
                Option::Some(_) => false,
            }
        }
    }

    /// Well-formedness of the held records.
    pub open spec fn inv(self) -> bool {
        match self.data {
            Option::Some(items) => forall|k: int| 0 <= k < items@.len() ==> (#[trigger] items@[k]).inv(),
            Option::None => true,
        }
    }

    /// Reads the envelope out of a document.
    pub fn from_json(doc: &Json) -> (r: Result<Self, DecodeError>)
        requires
            jwf(*doc),
        ensures
            match r {
                Result::Ok(resp) => Self::spec_ok(jv(*doc)) && resp.matches_doc(jv(*doc)) && resp.inv(),
                Result::Err(e) => e == DecodeError::Shape && !Self::spec_ok(jv(*doc)),
            },
    {
        let ms = match doc {
            Json::Obj(ms) => ms,
            _ => {
                return Result::Err(DecodeError::Shape);
            },
        };
        proof {
            assert(jv(*doc) == JVal::Obj(jv_members(ms@)));
        }
        let pagination_token = match get_opt_string(ms, "paginationToken") {
            Result::Ok(o) => o,
            Result::Err(e) => {
                return Result::Err(e);
            },
        };
        let data = match decode_data(ms) {
            Result::Ok(o) => o,
            Result::Err(e) => {
                return Result::Err(e);
            },
        };
        Result::Ok(LpMetadataResponse { data, pagination_token })
    }

    /// The canonical document of this envelope.
    pub open spec fn spec_doc(self) -> JVal {
        JVal::Obj(seq![
            ("data"@, match self.data {
                Option::None => JVal::Null,
                Option::Some(items) => JVal::Arr(items@.map_values(|it: IResponse| it.spec_doc())),
            }),
            ("paginationToken"@, jv_opt_str(self.pagination_token)),
        ])
    }

    /// Serializes this envelope to its canonical document.
    pub fn to_json(&self) -> (r: Json)
        requires
            self.inv(),
        ensures
            jv(r) == self.spec_doc(),
            jwf(r),
    {
        let mut out: Vec<(String, Json)> = Vec::new();
        proof {
            assert(jv_members(out@) =~= Seq::<(Seq<char>, JVal)>::empty());
        }
        let data_doc: Json = match &self.data {
            Option::None => Json::Null,
            Option::Some(items) => {
                let ghost docs_s = items@.map_values(|it: IResponse| it.spec_doc());
                let n: usize = items.len();
                let mut docs: Vec<Json> = Vec::new();
                let mut i: usize = 0;
                proof {
                    assert(jv_seq(docs@) =~= docs_s.take(0));
                    assert(forall|k: int| 0 <= k < items@.len() ==> (#[trigger] items@[k]).inv());
                }
                while i < n
                    invariant
                        i <= n,
                        n == items@.len(),
                        docs_s == items@.map_values(|it: IResponse| it.spec_doc()),
                        docs_s.len() == n,
                        forall|k: int| 0 <= k < items@.len() ==> (#[trigger] items@[k]).inv(),
                        docs@.len() == i,
                        jv_seq(docs@) == docs_s.take(i as int),
                        forall|k: int| 0 <= k < docs@.len() ==> jwf(#[trigger] docs@[k]),
                    decreases n - i,
                {
                    let ghost docs0 = docs@;
                    let d = items[i].to_json();
                    docs.push(d);
                    proof {
                        crate::json::lemma_jv_seq_push(docs0, d);
                        assert(docs_s[i as int] == items@[i as int].spec_doc());
                        assert(docs_s.take(i + 1) =~= docs_s.take(i as int).push(docs_s[i as int]));
                        assert(jv_seq(docs@) =~= docs_s.take(i + 1));
                    }
                    i = i + 1;
                }
                proof {
                    assert(docs_s.take(n as int) =~= docs_s);
                }
                Json::Arr(docs)
            },
        };
        put_doc_field(&mut out, "data", data_doc);
        put_str_field(&mut out, "paginationToken", &self.pagination_token);
        proof {
            assert(jv_members(out@) =~= self.spec_doc()->Obj_0);
        }
        Json::Obj(out)
    }

    /// Decoding the canonical document gives the envelope back.
    pub proof fn lemma_roundtrip(self)
        ensures
            Self::spec_ok(self.spec_doc()),
            self.matches_doc(self.spec_doc()),
    {
        let ms = self.spec_doc()->Obj_0;
        reveal_strlit("data");
        reveal_strlit("paginationToken");
        assert("data"@.len() == 4);
        assert("paginationToken"@.len() == 15);
        crate::fields::lemma_obj_get_index(ms, 0);
        crate::fields::lemma_obj_get_index(ms, 1);
        match self.data {
            Option::Some(items) => {
                let docs = items@.map_values(|it: IResponse| it.spec_doc());
                assert forall|k: int| 0 <= k < docs.len() implies IResponse::spec_ok(#[trigger] docs[k]) by {
                    assert(docs[k] == items@[k].spec_doc());
                    items@[k].lemma_roundtrip();
                }
                assert forall|k: int| 0 <= k < items@.len() implies (#[trigger] items@[k]).matches_doc(docs[k]) by {
                    assert(docs[k] == items@[k].spec_doc());
                    items@[k].lemma_roundtrip();
                }
            },
            Option::None => {},
        }
    }

    /// The canonical document is well formed.
    pub proof fn lemma_spec_doc_wf(self)
        ensures
            wf(self.spec_doc()),
    {
        let ms = self.spec_doc()->Obj_0;
        match self.data {
            Option::Some(items) => {
                let docs = items@.map_values(|it: IResponse| it.spec_doc());
                assert forall|k: int| 0 <= k < docs.len() implies wf(#[trigger] docs[k]) by {
                    assert(docs[k] == items@[k].spec_doc());
                    items@[k].lemma_spec_doc_wf();
                }
                assert(wf(ms[0].1));
            },
            Option::None => {},
        }
        assert forall|k: int| 0 <= k < ms.len() implies wf(#[trigger] ms[k].1) by {}
    }

    /// Round trip through the wire: the rendered text of the canonical
    /// document parses back to it, and decoding it yields exactly this
    /// envelope's values.
    pub proof fn lemma_text_roundtrip(self)
        ensures
            spec_parse(ser_val(self.spec_doc())) == Some(self.spec_doc()),
            Self::spec_ok(self.spec_doc()),
            self.matches_doc(self.spec_doc()),
    {
        self.lemma_spec_doc_wf();
        crate::roundtrip::lemma_parse_render(self.spec_doc());
        self.lemma_roundtrip();
    }
}

/// Reads the optional `data` array of records.
fn decode_data(ms: &Vec<(String, Json)>) -> (r: Result<Option<Vec<IResponse>>, DecodeError>)
    requires
        forall|k: int| 0 <= k < ms@.len() ==> jwf((#[trigger] ms@[k]).1),
    ensures
        match r {
            Result::Ok(o) => match obj_get(jv_members(ms@), "data"@) {
                Option::None => o is None,
                Option::Some(JVal::Null) => o is None,
                Option::Some(JVal::Arr(elems)) => o matches Option::Some(items)
                    && items@.len() == elems.len()
                    && (forall|k: int| 0 <= k < elems.len()
                        ==> IResponse::spec_ok(#[trigger] elems[k]))
                    && (forall|k: int| 0 <= k < elems.len()
                        ==> (#[trigger] items@[k]).matches_doc(elems[k]))
                    && (forall|k: int| 0 <= k < items@.len() ==> (#[trigger] items@[k]).inv()),
                Option::Some(_) => false,
            },
            Result::Err(e) => e == DecodeError::Shape && match obj_get(jv_members(ms@), "data"@) {
                Option::None => false,
                Option::Some(JVal::Null) => false,
                Option::Some(JVal::Arr(elems)) => !(forall|k: int| 0 <= k < elems.len()
                    ==> IResponse::spec_ok(#[trigger] elems[k])),
                Option::Some(_) => true,
            },
        },
{
    let arr = match crate::decode::lookup_member(ms, "data") {
        Option::None => {
            return Result::Ok(Option::None);
        },
        Option::Some(j) => match j {
            Json::Null => {
                return Result::Ok(Option::None);
            },
            Json::Arr(elems) => elems,
            _ => {
                return Result::Err(DecodeError::Shape);
            },
        },
    };
    let ghost evs = jv_seq(arr@);
    proof {
        lemma_jv_seq(arr@);
    }
    let n: usize = arr.len();
    let mut items: Vec<IResponse> = Vec::new();
    let mut i: usize = 0;
    while i < n
        invariant
            i <= n,
            n == arr@.len(),
            obj_get(jv_members(ms@), "data"@) == Some(JVal::Arr(evs)),
            evs == jv_seq(arr@),
            evs.len() == n,
            forall|k: int| 0 <= k < n ==> evs[k] == jv(#[trigger] arr@[k]),
            forall|k: int| 0 <= k < n ==> jwf(#[trigger] arr@[k]),
            items@.len() == i,
            forall|k: int| 0 <= k < i ==> IResponse::spec_ok(#[trigger] evs[k]),
            forall|k: int| 0 <= k < i ==> (#[trigger] items@[k]).matches_doc(evs[k]),
            forall|k: int| 0 <= k < items@.len() ==> (#[trigger] items@[k]).inv(),
        decreases n - i,
    {
        match IResponse::from_json(&arr[i]) {
            Result::Ok(it) => {
                items.push(it);
            },
            Result::Err(e) => {
                proof {
                    let g = obj_get(jv_members(ms@), "data"@);
                    let gelems = g->0->Arr_0;
                    assert(gelems == evs);
                    assert(!(forall|k: int| 0 <= k < gelems.len()
                        ==> IResponse::spec_ok(#[trigger] gelems[k]))) by {
                        assert(!IResponse::spec_ok(gelems[i as int]));
                    }
                }
                return Result::Err(e);
            },
        }
        i = i + 1;
    }
    Result::Ok(Option::Some(items))
}

/// The path of this endpoint under the API root.
pub open spec fn lp_metadata_url() -> Seq<char> {
    root_url() + "/defi/liquidity-pools/metadata"@
}

/// Prepares one call: the fixed URL, the three fixed headers with the
/// caller's bearer token, and — when a request is given — the canonical
/// serialization of its sentinel-filtered fields.
pub fn lp_metadata(request: Option<&LpMetadataRequest>, api_key: &str) -> (r: PreparedCall)
    ensures
        r.url@ == lp_metadata_url(),
        headers_model(r.headers@) == spec_headers(api_key@),
        match request {
            Option::None => r.body is None,
            Option::Some(req) => r.body matches Option::Some(b)
                && b@ == ser_val(JVal::Obj(req.spec_members())),
        },
{
    let url = hellomoon_root_url().to_owned().concat("/defi/liquidity-pools/metadata");
    prepare_call(url, api_key, request)
}

impl crate::decode::ResponseEnvelope for LpMetadataResponse {
    open spec fn env_ok(v: JVal) -> bool {
        LpMetadataResponse::spec_ok(v)
    }

    open spec fn env_matches(self, v: JVal) -> bool {
        self.matches_doc(v)
    }

    fn env_from_json(doc: &Json) -> Result<Self, DecodeError> {
        LpMetadataResponse::from_json(doc)
    }

    proof fn lemma_empty_envelope() {
        let ms = crate::decode::empty_envelope()->Obj_0;
        reveal_strlit("data");
        reveal_strlit("paginationToken");
        assert("data"@.len() == 4);
        assert("paginationToken"@.len() == 15);
        crate::fields::lemma_obj_get_index(ms, 0);
        crate::fields::lemma_obj_get_index(ms, 1);
    }
}

/// Decodes one response body: `Syntax` when the body is not valid JSON,
/// `Shape` when it does not fit the envelope, the typed response
/// otherwise.
pub fn lp_metadata_decode(body: &str) -> (r: Result<LpMetadataResponse, DecodeError>)
    ensures
        match spec_parse(body@) {
            Option::None => r == Result::<LpMetadataResponse, DecodeError>::Err(DecodeError::Syntax),
            Option::Some(v) => match r {
                Result::Ok(resp) => LpMetadataResponse::spec_ok(v) && resp.matches_doc(v),
                Result::Err(e) => e == DecodeError::Shape && !LpMetadataResponse::spec_ok(v),
            },
        },
{
    crate::decode::decode_body::<LpMetadataResponse>(body)
}

} // verus!
