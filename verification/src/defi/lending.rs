//! DeFi lending, second binding of `POST <root>/defi/lending`.

use vstd::prelude::*;

use crate::call::{PreparedCall, headers_model, hellomoon_root_url, prepare_call, root_url, spec_headers};
use crate::decode::{
    get_opt_i64, get_opt_string, get_opt_u64, spec_opt_i64, spec_opt_string, spec_opt_u64,
    DecodeError,
};
use crate::fields::{
    obj_get, opt_count, opt_doc, opt_text, push_count, push_doc, push_text, put_doc_field,
    put_i64_field, put_str_field, put_u64_field,
};
use crate::json::{
    JVal, Json, jv, jv_members, jv_opt_i64, jv_opt_str, jv_opt_u64, jv_seq, jwf, lemma_jv_seq,
    o_i64, o_str, o_u64, ser_val, wf,
};
use crate::parse::spec_parse;

verus! {
broadcast use vstd::seq::group_seq_axioms, vstd::std_specs::vec::group_vec_axioms;

/// The lending action asked about: borrowing or repaying.
#[derive(Debug, PartialEq, Eq, Clone, Copy)]
pub enum ActionType {
    Borrow,
    Repay,
}

impl ActionType {
    /// The variant's wire form.
    pub open spec fn spec_doc(self) -> JVal {
        match self {
            ActionType::Borrow => JVal::Str("borrow"@),
            ActionType::Repay => JVal::Str("repay"@),
        }
    }

    pub fn to_json(&self) -> (r: Json)
        ensures
            jv(r) == self.spec_doc(),
            jwf(r),
    {
        match self {
            ActionType::Borrow => Json::Str("borrow".to_owned()),
            ActionType::Repay => Json::Str("repay".to_owned()),
        }
    }
}

impl Default for ActionType {
    fn default() -> (r: Self)
        ensures
            r == ActionType::Borrow,
    {
        ActionType::Borrow
    }
}

/// What to ask the lending endpoint for.
pub struct Request {
    pub program_id: String,
    pub program_name: String,
    pub transaction_id: String,
    pub action_type: Option<ActionType>,
    pub user_account: String,
    pub mint: String,
    pub limit: usize,
    pub page: usize,
    pub pagination_token: String,
}

impl Request {
    /// The members of the serialized request body, in declaration order,
    /// sentinel fields omitted.
    pub open spec fn spec_members(self) -> Seq<(Seq<char>, JVal)> {
        opt_text("programId"@, self.program_id@)
            + opt_text("programName"@, self.program_name@)
            + opt_text("transactionId"@, self.transaction_id@)
            + opt_doc("actionType"@, match self.action_type {
                Option::Some(e) => Option::Some(e.spec_doc()),
                Option::None => Option::None,
            })
            + opt_text("userAccount"@, self.user_account@)
            + opt_text("mint"@, self.mint@)
            + opt_count("limit"@, self.limit as int)
            + opt_count("page"@, self.page as int)
            + opt_text("paginationToken"@, self.pagination_token@)
    }

    /// Serializes the request body.
    pub fn to_json(&self) -> (r: Json)
        ensures
            jv(r) == JVal::Obj(self.spec_members()),
            jwf(r),
    {
        let mut out: Vec<(String, Json)> = Vec::new();
        proof {
            assert(jv_members(out@) =~= Seq::<(Seq<char>, JVal)>::empty());
        }
        push_text(&mut out, "programId", &self.program_id);
        push_text(&mut out, "programName", &self.program_name);
        push_text(&mut out, "transactionId", &self.transaction_id);
        let action_type_doc: Option<Json> = match &self.action_type {
            Option::Some(e) => Option::Some(e.to_json()),
            Option::None => Option::None,
        };
        push_doc(&mut out, "actionType", action_type_doc);
        push_text(&mut out, "userAccount", &self.user_account);
        push_text(&mut out, "mint", &self.mint);
        push_count(&mut out, "limit", self.limit);
        push_count(&mut out, "page", self.page);
        push_text(&mut out, "paginationToken", &self.pagination_token);
        proof {
            assert(jv_members(out@) =~= self.spec_members());
        }
        Json::Obj(out)
    }
}

impl crate::call::RequestShape for Request {
    open spec fn req_members(self) -> Seq<(Seq<char>, JVal)> {
        self.spec_members()
    }

    fn req_to_json(&self) -> (r: Json) {
        self.to_json()
    }
}

impl Request {
    /// Sentinel omission: each field stands in the serialized object
    /// exactly when its value is not the sentinel, under its wire name,
    /// with its serialized value; a sentinel field's name is absent.
    #[verifier::rlimit(100)]
    pub proof fn lemma_sentinel_omission(self)
        ensures
            obj_get(self.spec_members(), "programId"@) == (if self.program_id@.len() > 0 {
                Option::Some(JVal::Str(self.program_id@))
            } else {
                Option::<JVal>::None
            }),
            obj_get(self.spec_members(), "programName"@) == (if self.program_name@.len() > 0 {
                Option::Some(JVal::Str(self.program_name@))
            } else {
                Option::<JVal>::None
            }),
            obj_get(self.spec_members(), "transactionId"@) == (if self.transaction_id@.len() > 0 {
                Option::Some(JVal::Str(self.transaction_id@))
            } else {
                Option::<JVal>::None
            }),
            obj_get(self.spec_members(), "actionType"@) == (match self.action_type {
                Option::Some(e) => Option::Some(e.spec_doc()),
                Option::None => Option::<JVal>::None,
            }),
            obj_get(self.spec_members(), "userAccount"@) == (if self.user_account@.len() > 0 {
                Option::Some(JVal::Str(self.user_account@))
            } else {
                Option::<JVal>::None
            }),
            obj_get(self.spec_members(), "mint"@) == (if self.mint@.len() > 0 {
                Option::Some(JVal::Str(self.mint@))
            } else {
                Option::<JVal>::None
            }),
            obj_get(self.spec_members(), "limit"@) == (if self.limit > 0 {
                Option::Some(JVal::Int(self.limit as int))
            } else {
                Option::<JVal>::None
            }),
            obj_get(self.spec_members(), "page"@) == (if self.page > 0 {
                Option::Some(JVal::Int(self.page as int))
            } else {
                Option::<JVal>::None
            }),
            obj_get(self.spec_members(), "paginationToken"@) == (if self.pagination_token@.len() > 0 {
                Option::Some(JVal::Str(self.pagination_token@))
            } else {
                Option::<JVal>::None
            }),
    {
        reveal_strlit("actionType");
        reveal_strlit("limit");
        reveal_strlit("mint");
        reveal_strlit("page");
        reveal_strlit("paginationToken");
        reveal_strlit("programId");
        reveal_strlit("programName");
        reveal_strlit("transactionId");
        reveal_strlit("userAccount");
        assert("actionType"@.len() == 10);
        assert("limit"@.len() == 5);
        assert("mint"@.len() == 4);
        assert("page"@.len() == 4);
        assert("paginationToken"@.len() == 15);
        assert("programId"@.len() == 9);
        assert("programName"@.len() == 11);
        assert("transactionId"@.len() == 13);
        assert("userAccount"@.len() == 11);
        assert("programName"@[0] == 'p');
        assert("userAccount"@[0] == 'u');
        assert("mint"@[0] == 'm');
        assert("page"@[0] == 'p');
        let s1 = crate::fields::seg("programId"@, self.program_id@.len() > 0, JVal::Str(self.program_id@));
        let s2 = crate::fields::seg("programName"@, self.program_name@.len() > 0, JVal::Str(self.program_name@));
        let s3 = crate::fields::seg("transactionId"@, self.transaction_id@.len() > 0, JVal::Str(self.transaction_id@));
        let s4 = crate::fields::seg("actionType"@, self.action_type is Some, if self.action_type is Some { self.action_type->0.spec_doc() } else { JVal::Null });
        let s5 = crate::fields::seg("userAccount"@, self.user_account@.len() > 0, JVal::Str(self.user_account@));
        let s6 = crate::fields::seg("mint"@, self.mint@.len() > 0, JVal::Str(self.mint@));
        let s7 = crate::fields::seg("limit"@, self.limit > 0, JVal::Int(self.limit as int));
        let s8 = crate::fields::seg("page"@, self.page > 0, JVal::Int(self.page as int));
        let s9 = crate::fields::seg("paginationToken"@, self.pagination_token@.len() > 0, JVal::Str(self.pagination_token@));
        assert(self.spec_members() =~= s1 + s2 + s3 + s4 + s5 + s6 + s7 + s8 + s9);
        crate::fields::lemma_seg_get_any("programId"@, self.program_id@.len() > 0, JVal::Str(self.program_id@));
        crate::fields::lemma_seg_get_any("programName"@, self.program_name@.len() > 0, JVal::Str(self.program_name@));
        crate::fields::lemma_seg_get_any("transactionId"@, self.transaction_id@.len() > 0, JVal::Str(self.transaction_id@));
        crate::fields::lemma_seg_get_any("actionType"@, self.action_type is Some, if self.action_type is Some { self.action_type->0.spec_doc() } else { JVal::Null });
        crate::fields::lemma_seg_get_any("userAccount"@, self.user_account@.len() > 0, JVal::Str(self.user_account@));
        crate::fields::lemma_seg_get_any("mint"@, self.mint@.len() > 0, JVal::Str(self.mint@));
        crate::fields::lemma_seg_get_any("limit"@, self.limit > 0, JVal::Int(self.limit as int));
        crate::fields::lemma_seg_get_any("page"@, self.page > 0, JVal::Int(self.page as int));
        crate::fields::lemma_seg_get_any("paginationToken"@, self.pagination_token@.len() > 0, JVal::Str(self.pagination_token@));
        crate::fields::lemma_obj_get_concat(s1 + s2 + s3 + s4 + s5 + s6 + s7 + s8, s9, "programId"@);
        crate::fields::lemma_obj_get_concat(s1 + s2 + s3 + s4 + s5 + s6 + s7, s8, "programId"@);
        crate::fields::lemma_obj_get_concat(s1 + s2 + s3 + s4 + s5 + s6, s7, "programId"@);
        crate::fields::lemma_obj_get_concat(s1 + s2 + s3 + s4 + s5, s6, "programId"@);
        crate::fields::lemma_obj_get_concat(s1 + s2 + s3 + s4, s5, "programId"@);
        crate::fields::lemma_obj_get_concat(s1 + s2 + s3, s4, "programId"@);
        crate::fields::lemma_obj_get_concat(s1 + s2, s3, "programId"@);
        crate::fields::lemma_obj_get_concat(s1, s2, "programId"@);
        crate::fields::lemma_obj_get_concat(s1 + s2 + s3 + s4 + s5 + s6 + s7 + s8, s9, "programName"@);
        crate::fields::lemma_obj_get_concat(s1 + s2 + s3 + s4 + s5 + s6 + s7, s8, "programName"@);
        crate::fields::lemma_obj_get_concat(s1 + s2 + s3 + s4 + s5 + s6, s7, "programName"@);
        crate::fields::lemma_obj_get_concat(s1 + s2 + s3 + s4 + s5, s6, "programName"@);
        crate::fields::lemma_obj_get_concat(s1 + s2 + s3 + s4, s5, "programName"@);
        crate::fields::lemma_obj_get_concat(s1 + s2 + s3, s4, "programName"@);
        crate::fields::lemma_obj_get_concat(s1 + s2, s3, "programName"@);
        crate::fields::lemma_obj_get_concat(s1, s2, "programName"@);
        crate::fields::lemma_obj_get_concat(s1 + s2 + s3 + s4 + s5 + s6 + s7 + s8, s9, "transactionId"@);
        crate::fields::lemma_obj_get_concat(s1 + s2 + s3 + s4 + s5 + s6 + s7, s8, "transactionId"@);
        crate::fields::lemma_obj_get_concat(s1 + s2 + s3 + s4 + s5 + s6, s7, "transactionId"@);
        crate::fields::lemma_obj_get_concat(s1 + s2 + s3 + s4 + s5, s6, "transactionId"@);
        crate::fields::lemma_obj_get_concat(s1 + s2 + s3 + s4, s5, "transactionId"@);
        crate::fields::lemma_obj_get_concat(s1 + s2 + s3, s4, "transactionId"@);
        crate::fields::lemma_obj_get_concat(s1 + s2, s3, "transactionId"@);
        crate::fields::lemma_obj_get_concat(s1, s2, "transactionId"@);
        crate::fields::lemma_obj_get_concat(s1 + s2 + s3 + s4 + s5 + s6 + s7 + s8, s9, "actionType"@);
        crate::fields::lemma_obj_get_concat(s1 + s2 + s3 + s4 + s5 + s6 + s7, s8, "actionType"@);
        crate::fields::lemma_obj_get_concat(s1 + s2 + s3 + s4 + s5 + s6, s7, "actionType"@);
        crate::fields::lemma_obj_get_concat(s1 + s2 + s3 + s4 + s5, s6, "actionType"@);
        crate::fields::lemma_obj_get_concat(s1 + s2 + s3 + s4, s5, "actionType"@);
        crate::fields::lemma_obj_get_concat(s1 + s2 + s3, s4, "actionType"@);
        crate::fields::lemma_obj_get_concat(s1 + s2, s3, "actionType"@);
        crate::fields::lemma_obj_get_concat(s1, s2, "actionType"@);
        crate::fields::lemma_obj_get_concat(s1 + s2 + s3 + s4 + s5 + s6 + s7 + s8, s9, "userAccount"@);
        crate::fields::lemma_obj_get_concat(s1 + s2 + s3 + s4 + s5 + s6 + s7, s8, "userAccount"@);
        crate::fields::lemma_obj_get_concat(s1 + s2 + s3 + s4 + s5 + s6, s7, "userAccount"@);
        crate::fields::lemma_obj_get_concat(s1 + s2 + s3 + s4 + s5, s6, "userAccount"@);
        crate::fields::lemma_obj_get_concat(s1 + s2 + s3 + s4, s5, "userAccount"@);
        crate::fields::lemma_obj_get_concat(s1 + s2 + s3, s4, "userAccount"@);
        crate::fields::lemma_obj_get_concat(s1 + s2, s3, "userAccount"@);
        crate::fields::lemma_obj_get_concat(s1, s2, "userAccount"@);
        crate::fields::lemma_obj_get_concat(s1 + s2 + s3 + s4 + s5 + s6 + s7 + s8, s9, "mint"@);
        crate::fields::lemma_obj_get_concat(s1 + s2 + s3 + s4 + s5 + s6 + s7, s8, "mint"@);
        crate::fields::lemma_obj_get_concat(s1 + s2 + s3 + s4 + s5 + s6, s7, "mint"@);
        crate::fields::lemma_obj_get_concat(s1 + s2 + s3 + s4 + s5, s6, "mint"@);
        crate::fields::lemma_obj_get_concat(s1 + s2 + s3 + s4, s5, "mint"@);
        crate::fields::lemma_obj_get_concat(s1 + s2 + s3, s4, "mint"@);
        crate::fields::lemma_obj_get_concat(s1 + s2, s3, "mint"@);
        crate::fields::lemma_obj_get_concat(s1, s2, "mint"@);
        crate::fields::lemma_obj_get_concat(s1 + s2 + s3 + s4 + s5 + s6 + s7 + s8, s9, "limit"@);
        crate::fields::lemma_obj_get_concat(s1 + s2 + s3 + s4 + s5 + s6 + s7, s8, "limit"@);
        crate::fields::lemma_obj_get_concat(s1 + s2 + s3 + s4 + s5 + s6, s7, "limit"@);
        crate::fields::lemma_obj_get_concat(s1 + s2 + s3 + s4 + s5, s6, "limit"@);
        crate::fields::lemma_obj_get_concat(s1 + s2 + s3 + s4, s5, "limit"@);
        crate::fields::lemma_obj_get_concat(s1 + s2 + s3, s4, "limit"@);
        crate::fields::lemma_obj_get_concat(s1 + s2, s3, "limit"@);
        crate::fields::lemma_obj_get_concat(s1, s2, "limit"@);
        crate::fields::lemma_obj_get_concat(s1 + s2 + s3 + s4 + s5 + s6 + s7 + s8, s9, "page"@);
        crate::fields::lemma_obj_get_concat(s1 + s2 + s3 + s4 + s5 + s6 + s7, s8, "page"@);
        crate::fields::lemma_obj_get_concat(s1 + s2 + s3 + s4 + s5 + s6, s7, "page"@);
        crate::fields::lemma_obj_get_concat(s1 + s2 + s3 + s4 + s5, s6, "page"@);
        crate::fields::lemma_obj_get_concat(s1 + s2 + s3 + s4, s5, "page"@);
        crate::fields::lemma_obj_get_concat(s1 + s2 + s3, s4, "page"@);
        crate::fields::lemma_obj_get_concat(s1 + s2, s3, "page"@);
        crate::fields::lemma_obj_get_concat(s1, s2, "page"@);
        crate::fields::lemma_obj_get_concat(s1 + s2 + s3 + s4 + s5 + s6 + s7 + s8, s9, "paginationToken"@);
        crate::fields::lemma_obj_get_concat(s1 + s2 + s3 + s4 + s5 + s6 + s7, s8, "paginationToken"@);
        crate::fields::lemma_obj_get_concat(s1 + s2 + s3 + s4 + s5 + s6, s7, "paginationToken"@);
        crate::fields::lemma_obj_get_concat(s1 + s2 + s3 + s4 + s5, s6, "paginationToken"@);
        crate::fields::lemma_obj_get_concat(s1 + s2 + s3 + s4, s5, "paginationToken"@);
        crate::fields::lemma_obj_get_concat(s1 + s2 + s3, s4, "paginationToken"@);
        crate::fields::lemma_obj_get_concat(s1 + s2, s3, "paginationToken"@);
        crate::fields::lemma_obj_get_concat(s1, s2, "paginationToken"@);
    }
}

impl Default for Request {
    fn default() -> (r: Self)
        ensures
            r.program_id@ == Seq::<char>::empty(),
            r.program_name@ == Seq::<char>::empty(),
            r.transaction_id@ == Seq::<char>::empty(),
            r.action_type is None,
            r.user_account@ == Seq::<char>::empty(),
            r.mint@ == Seq::<char>::empty(),
            r.limit == 0,
            r.page == 0,
            r.pagination_token@ == Seq::<char>::empty(),
    {
        Request {
            program_id: String::new(),
            program_name: String::new(),
            transaction_id: String::new(),
            action_type: Option::None,
            user_account: String::new(),
            mint: String::new(),
            limit: 0,
            page: 0,
            pagination_token: String::new(),
        }
    }
}

/// One lending record.
#[derive(Debug, PartialEq, Eq)]
pub struct IResponse {
    pub program_name: Option<String>,
    pub program_id: Option<String>,
    pub action_type: Option<String>,
    pub user_account: Option<String>,
    pub mint: Option<String>,
    pub amount: Option<String>,
    pub transaction_id: Option<String>,
    pub block_time: Option<String>,
    pub instruction_name: Option<String>,
    pub instruction_id: Option<String>,
    pub instruction_position: Option<u64>,
    pub sub_instruction_position: Option<i64>,
    pub instruction_ordinal: Option<u64>,
}

impl IResponse {
    /// Whether a document fits this shape.
    pub open spec fn spec_ok(v: JVal) -> bool {
        v matches JVal::Obj(ms) && {
            &&& spec_opt_string(ms, "programName"@) is Ok
            &&& spec_opt_string(ms, "programId"@) is Ok
            &&& spec_opt_string(ms, "actionType"@) is Ok
            &&& spec_opt_string(ms, "userAccount"@) is Ok
            &&& spec_opt_string(ms, "mint"@) is Ok
            &&& spec_opt_string(ms, "amount"@) is Ok
            &&& spec_opt_string(ms, "transactionId"@) is Ok
            &&& spec_opt_string(ms, "blockTime"@) is Ok
            &&& spec_opt_string(ms, "instructionName"@) is Ok
            &&& spec_opt_string(ms, "instructionId"@) is Ok
            &&& spec_opt_u64(ms, "instructionPosition"@) is Ok
            &&& spec_opt_i64(ms, "subInstructionPosition"@) is Ok
            &&& spec_opt_u64(ms, "instructionOrdinal"@) is Ok
        }
    }

    /// Whether this value is what the document decodes to.
    pub open spec fn matches_doc(self, v: JVal) -> bool {
        v matches JVal::Obj(ms) && {
            &&& spec_opt_string(ms, "programName"@) == Result::<Option<Seq<char>>, ()>::Ok(o_str(self.program_name))
            &&& spec_opt_string(ms, "programId"@) == Result::<Option<Seq<char>>, ()>::Ok(o_str(self.program_id))
            &&& spec_opt_string(ms, "actionType"@) == Result::<Option<Seq<char>>, ()>::Ok(o_str(self.action_type))
            &&& spec_opt_string(ms, "userAccount"@) == Result::<Option<Seq<char>>, ()>::Ok(o_str(self.user_account))
            &&& spec_opt_string(ms, "mint"@) == Result::<Option<Seq<char>>, ()>::Ok(o_str(self.mint))
            &&& spec_opt_string(ms, "amount"@) == Result::<Option<Seq<char>>, ()>::Ok(o_str(self.amount))
            &&& spec_opt_string(ms, "transactionId"@) == Result::<Option<Seq<char>>, ()>::Ok(o_str(self.transaction_id))
            &&& spec_opt_string(ms, "blockTime"@) == Result::<Option<Seq<char>>, ()>::Ok(o_str(self.block_time))
            &&& spec_opt_string(ms, "instructionName"@) == Result::<Option<Seq<char>>, ()>::Ok(o_str(self.instruction_name))
            &&& spec_opt_string(ms, "instructionId"@) == Result::<Option<Seq<char>>, ()>::Ok(o_str(self.instruction_id))
            &&& spec_opt_u64(ms, "instructionPosition"@) == Result::<Option<int>, ()>::Ok(o_u64(self.instruction_position))
            &&& spec_opt_i64(ms, "subInstructionPosition"@) == Result::<Option<int>, ()>::Ok(o_i64(self.sub_instruction_position))
            &&& spec_opt_u64(ms, "instructionOrdinal"@) == Result::<Option<int>, ()>::Ok(o_u64(self.instruction_ordinal))
        }
    }

    /// Well-formedness: number fields hold canonical values.
    pub open spec fn inv(self) -> bool {
        true
    }

    /// Reads one record out of a document.
    pub fn from_json(doc: &Json) -> (r: Result<Self, DecodeError>)
        requires
            jwf(*doc),
        ensures
            match r {
                Result::Ok(it) => Self::spec_ok(jv(*doc)) && it.matches_doc(jv(*doc)) && it.inv(),
                Result::Err(e) => e == DecodeError::Shape && !Self::spec_ok(jv(*doc)),
            },
    {
        let ms = match doc {
            Json::Obj(ms) => ms,
            _ => {
                return Result::Err(DecodeError::Shape);
            },
        };
        let program_name = match get_opt_string(ms, "programName") {
            Result::Ok(o) => o,
            Result::Err(e) => {
                return Result::Err(e);
            },
        };
        let program_id = match get_opt_string(ms, "programId") {
            Result::Ok(o) => o,
            Result::Err(e) => {
                return Result::Err(e);
            },
        };
        let action_type = match get_opt_string(ms, "actionType") {
            Result::Ok(o) => o,
            Result::Err(e) => {
                return Result::Err(e);
            },
        };
        let user_account = match get_opt_string(ms, "userAccount") {
            Result::Ok(o) => o,
            Result::Err(e) => {
                return Result::Err(e);
            },
        };
        let mint = match get_opt_string(ms, "mint") {
            Result::Ok(o) => o,
            Result::Err(e) => {
                return Result::Err(e);
            },
        };
        let amount = match get_opt_string(ms, "amount") {
            Result::Ok(o) => o,
            Result::Err(e) => {
                return Result::Err(e);
            },
        };
        let transaction_id = match get_opt_string(ms, "transactionId") {
            Result::Ok(o) => o,
            Result::Err(e) => {
                return Result::Err(e);
            },
        };
        let block_time = match get_opt_string(ms, "blockTime") {
            Result::Ok(o) => o,
            Result::Err(e) => {
                return Result::Err(e);
            },
        };
        let instruction_name = match get_opt_string(ms, "instructionName") {
            Result::Ok(o) => o,
            Result::Err(e) => {
                return Result::Err(e);
            },
        };
        let instruction_id = match get_opt_string(ms, "instructionId") {
            Result::Ok(o) => o,
            Result::Err(e) => {
                return Result::Err(e);
            },
        };
        let instruction_position = match get_opt_u64(ms, "instructionPosition") {
            Result::Ok(o) => o,
            Result::Err(e) => {
                return Result::Err(e);
            },
        };
        let sub_instruction_position = match get_opt_i64(ms, "subInstructionPosition") {
            Result::Ok(o) => o,
            Result::Err(e) => {
                return Result::Err(e);
            },
        };
        let instruction_ordinal = match get_opt_u64(ms, "instructionOrdinal") {
            Result::Ok(o) => o,
            Result::Err(e) => {
                return Result::Err(e);
            },
        };
        Result::Ok(IResponse { program_name, program_id, action_type, user_account, mint, amount, transaction_id, block_time, instruction_name, instruction_id, instruction_position, sub_instruction_position, instruction_ordinal })
    }

    /// The canonical document of this value: every field written, `null`
    /// for absent ones, in declaration order.
    pub open spec fn spec_doc(self) -> JVal {
        JVal::Obj(seq![
            ("programName"@, jv_opt_str(self.program_name)),
            ("programId"@, jv_opt_str(self.program_id)),
            ("actionType"@, jv_opt_str(self.action_type)),
            ("userAccount"@, jv_opt_str(self.user_account)),
            ("mint"@, jv_opt_str(self.mint)),
            ("amount"@, jv_opt_str(self.amount)),
            ("transactionId"@, jv_opt_str(self.transaction_id)),
            ("blockTime"@, jv_opt_str(self.block_time)),
            ("instructionName"@, jv_opt_str(self.instruction_name)),
            ("instructionId"@, jv_opt_str(self.instruction_id)),
            ("instructionPosition"@, jv_opt_u64(self.instruction_position)),
            ("subInstructionPosition"@, jv_opt_i64(self.sub_instruction_position)),
            ("instructionOrdinal"@, jv_opt_u64(self.instruction_ordinal)),
        ])
    }

    /// Serializes this value to its canonical document.
    pub fn to_json(&self) -> (r: Json)
        ensures
            jv(r) == self.spec_doc(),
            jwf(r),
    {
        let mut out: Vec<(String, Json)> = Vec::new();
        proof {
            assert(jv_members(out@) =~= Seq::<(Seq<char>, JVal)>::empty());
        }
        put_str_field(&mut out, "programName", &self.program_name);
        put_str_field(&mut out, "programId", &self.program_id);
        put_str_field(&mut out, "actionType", &self.action_type);
        put_str_field(&mut out, "userAccount", &self.user_account);
        put_str_field(&mut out, "mint", &self.mint);
        put_str_field(&mut out, "amount", &self.amount);
        put_str_field(&mut out, "transactionId", &self.transaction_id);
        put_str_field(&mut out, "blockTime", &self.block_time);
        put_str_field(&mut out, "instructionName", &self.instruction_name);
        put_str_field(&mut out, "instructionId", &self.instruction_id);
        put_u64_field(&mut out, "instructionPosition", &self.instruction_position);
        put_i64_field(&mut out, "subInstructionPosition", &self.sub_instruction_position);
        put_u64_field(&mut out, "instructionOrdinal", &self.instruction_ordinal);
        proof {
            assert(jv_members(out@) =~= self.spec_doc()->Obj_0);
        }
        Json::Obj(out)
    }

    /// Decoding the canonical document gives the value back.
    pub proof fn lemma_roundtrip(self)
        ensures
            Self::spec_ok(self.spec_doc()),
            self.matches_doc(self.spec_doc()),
    {
        let ms = self.spec_doc()->Obj_0;
    reveal_strlit("actionType");
    reveal_strlit("amount");
    reveal_strlit("blockTime");
    reveal_strlit("instructionId");
    reveal_strlit("instructionName");
    reveal_strlit("instructionOrdinal");
    reveal_strlit("instructionPosition");
    reveal_strlit("mint");
    reveal_strlit("programId");
    reveal_strlit("programName");
    reveal_strlit("subInstructionPosition");
    reveal_strlit("transactionId");
    reveal_strlit("userAccount");
    assert("actionType"@.len() == 10);
    assert("amount"@.len() == 6);
    assert("blockTime"@.len() == 9);
    assert("instructionId"@.len() == 13);
    assert("instructionName"@.len() == 15);
    assert("instructionOrdinal"@.len() == 18);
    assert("instructionPosition"@.len() == 19);
    assert("mint"@.len() == 4);
    assert("programId"@.len() == 9);
    assert("programName"@.len() == 11);
    assert("subInstructionPosition"@.len() == 22);
    assert("transactionId"@.len() == 13);
    assert("userAccount"@.len() == 11);
    assert("blockTime"@[0] == 'b');
    assert("instructionId"@[0] == 'i');
    assert("programId"@[0] == 'p');
    assert("programName"@[0] == 'p');
    assert("transactionId"@[0] == 't');
    assert("userAccount"@[0] == 'u');
    crate::fields::lemma_obj_get_index(ms, 0);
    crate::fields::lemma_obj_get_index(ms, 1);
    crate::fields::lemma_obj_get_index(ms, 2);
    crate::fields::lemma_obj_get_index(ms, 3);
    crate::fields::lemma_obj_get_index(ms, 4);
    crate::fields::lemma_obj_get_index(ms, 5);
    crate::fields::lemma_obj_get_index(ms, 6);
    crate::fields::lemma_obj_get_index(ms, 7);
    crate::fields::lemma_obj_get_index(ms, 8);
    crate::fields::lemma_obj_get_index(ms, 9);
    crate::fields::lemma_obj_get_index(ms, 10);
    crate::fields::lemma_obj_get_index(ms, 11);
    crate::fields::lemma_obj_get_index(ms, 12);
    }

    /// The canonical document is well formed.
    pub proof fn lemma_spec_doc_wf(self)
        ensures
            wf(self.spec_doc()),
    {
        let ms = self.spec_doc()->Obj_0;
        assert forall|k: int| 0 <= k < ms.len() implies wf(#[trigger] ms[k].1) by {}
    }
}

/// The response envelope: an optional run of records and an optional
/// continuation token.
#[derive(Debug, PartialEq, Eq)]
pub struct Response {
    pub data: Option<Vec<IResponse>>,
    pub pagination_token: Option<String>,
}

impl Response {
    /// Whether a document fits the envelope's shape.
    pub open spec fn spec_ok(v: JVal) -> bool {
        v matches JVal::Obj(ms) && {
            &&& spec_opt_string(ms, "paginationToken"@) is Ok
            &&& match obj_get(ms, "data"@) {
                Option::None => true,
                Option::Some(JVal::Null) => true,
                Option::Some(JVal::Arr(elems)) => forall|k: int| 0 <= k < elems.len()
                    ==> IResponse::spec_ok(#[trigger] elems[k]),
                Option::Some(_) => false,
            }
        }
    }

    /// Whether this value is what the document decodes to.
    pub open spec fn matches_doc(self, v: JVal) -> bool {
        v matches JVal::Obj(ms) && {
            &&& spec_opt_string(ms, "paginationToken"@) == Result::<Option<Seq<char>>, ()>::Ok(o_str(self.pagination_token))
            &&& match obj_get(ms, "data"@) {
                Option::None => self.data is None,
                Option::Some(JVal::Null) => self.data is None,
                Option::Some(JVal::Arr(elems)) => self.data matches Option::Some(items)
                    && items@.len() == elems.len()
                    && (forall|k: int| 0 <= k < elems.len()
                        ==> (#[trigger] items@[k]).matches_doc(elems[k])),
                Option::Some(_) => false,
            }
        }
    }

    /// Well-formedness of the held records.
    pub open spec fn inv(self) -> bool {
        match self.data {
            Option::Some(items) => forall|k: int| 0 <= k < items@.len() ==> (#[trigger] items@[k]).inv(),
            Option::None => true,
        }
    }

    /// Reads the envelope out of a document.
    pub fn from_json(doc: &Json) -> (r: Result<Self, DecodeError>)
        requires
            jwf(*doc),
        ensures
            match r {
                Result::Ok(resp) => Self::spec_ok(jv(*doc)) && resp.matches_doc(jv(*doc)) && resp.inv(),
                Result::Err(e) => e == DecodeError::Shape && !Self::spec_ok(jv(*doc)),
            },
    {
        let ms = match doc {
            Json::Obj(ms) => ms,
            _ => {
                return Result::Err(DecodeError::Shape);
            },
        };
        proof {
            assert(jv(*doc) == JVal::Obj(jv_members(ms@)));
        }
        let pagination_token = match get_opt_string(ms, "paginationToken") {
            Result::Ok(o) => o,
            Result::Err(e) => {
                return Result::Err(e);
            },
        };
        let data = match decode_data(ms) {
            Result::Ok(o) => o,
            Result::Err(e) => {
                return Result::Err(e);
            },
        };
        Result::Ok(Response { data, pagination_token })
    }

    /// The canonical document of this envelope.
    pub open spec fn spec_doc(self) -> JVal {
        JVal::Obj(seq![
            ("data"@, match self.data {
                Option::None => JVal::Null,
                Option::Some(items) => JVal::Arr(items@.map_values(|it: IResponse| it.spec_doc())),
            }),
            ("paginationToken"@, jv_opt_str(self.pagination_token)),
        ])
    }

    /// Serializes this envelope to its canonical document.
    pub fn to_json(&self) -> (r: Json)
        requires
            self.inv(),
        ensures
            jv(r) == self.spec_doc(),
            jwf(r),
    {
        let mut out: Vec<(String, Json)> = Vec::new();
        proof {
            assert(jv_members(out@) =~= Seq::<(Seq<char>, JVal)>::empty());
        }
        let data_doc: Json = match &self.data {
            Option::None => Json::Null,
            Option::Some(items) => {
                let ghost docs_s = items@.map_values(|it: IResponse| it.spec_doc());
                let n: usize = items.len();
                let mut docs: Vec<Json> = Vec::new();
                let mut i: usize = 0;
                proof {
                    assert(jv_seq(docs@) =~= docs_s.take(0));
                    assert(forall|k: int| 0 <= k < items@.len() ==> (#[trigger] items@[k]).inv());
                }
                while i < n
                    invariant
                        i <= n,
                        n == items@.len(),
                        docs_s == items@.map_values(|it: IResponse| it.spec_doc()),
                        docs_s.len() == n,
                        forall|k: int| 0 <= k < items@.len() ==> (#[trigger] items@[k]).inv(),
                        docs@.len() == i,
                        jv_seq(docs@) == docs_s.take(i as int),
                        forall|k: int| 0 <= k < docs@.len() ==> jwf(#[trigger] docs@[k]),
                    decreases n - i,
                {
                    let ghost docs0 = docs@;
                    let d = items[i].to_json();
                    docs.push(d);
                    proof {
                        crate::json::lemma_jv_seq_push(docs0, d);
                        assert(docs_s[i as int] == items@[i as int].spec_doc());
                        assert(docs_s.take(i + 1) =~= docs_s.take(i as int).push(docs_s[i as int]));
                        assert(jv_seq(docs@) =~= docs_s.take(i + 1));
                    }
                    i = i + 1;
                }
                proof {
                    assert(docs_s.take(n as int) =~= docs_s);
                }
                Json::Arr(docs)
            },
        };
        put_doc_field(&mut out, "data", data_doc);
        put_str_field(&mut out, "paginationToken", &self.pagination_token);
        proof {
            assert(jv_members(out@) =~= self.spec_doc()->Obj_0);
        }
        Json::Obj(out)
    }

    /// Decoding the canonical document gives the envelope back.
    pub proof fn lemma_roundtrip(self)
        ensures
            Self::spec_ok(self.spec_doc()),
            self.matches_doc(self.spec_doc()),
    {
        let ms = self.spec_doc()->Obj_0;
        reveal_strlit("data");
        reveal_strlit("paginationToken");
        assert("data"@.len() == 4);
        assert("paginationToken"@.len() == 15);
        crate::fields::lemma_obj_get_index(ms, 0);
        crate::fields::lemma_obj_get_index(ms, 1);
        match self.data {
            Option::Some(items) => {
                let docs = items@.map_values(|it: IResponse| it.spec_doc());
                assert forall|k: int| 0 <= k < docs.len() implies IResponse::spec_ok(#[trigger] docs[k]) by {
                    assert(docs[k] == items@[k].spec_doc());
                    items@[k].lemma_roundtrip();
                }
                assert forall|k: int| 0 <= k < items@.len() implies (#[trigger] items@[k]).matches_doc(docs[k]) by {
                    assert(docs[k] == items@[k].spec_doc());
                    items@[k].lemma_roundtrip();
                }
            },
            Option::None => {},
        }
    }

    /// The canonical document is well formed.
    pub proof fn lemma_spec_doc_wf(self)
        ensures
            wf(self.spec_doc()),
    {
        let ms = self.spec_doc()->Obj_0;
        match self.data {
            Option::Some(items) => {
                let docs = items@.map_values(|it: IResponse| it.spec_doc());
                assert forall|k: int| 0 <= k < docs.len() implies wf(#[trigger] docs[k]) by {
                    assert(docs[k] == items@[k].spec_doc());
                    items@[k].lemma_spec_doc_wf();
                }
                assert(wf(ms[0].1));
            },
            Option::None => {},
        }
        assert forall|k: int| 0 <= k < ms.len() implies wf(#[trigger] ms[k].1) by {}
    }

    /// Round trip through the wire: the rendered text of the canonical
    /// document parses back to it, and decoding it yields exactly this
    /// envelope's values.
    pub proof fn lemma_text_roundtrip(self)
        ensures
            spec_parse(ser_val(self.spec_doc())) == Some(self.spec_doc()),
            Self::spec_ok(self.spec_doc()),
            self.matches_doc(self.spec_doc()),
    {
        self.lemma_spec_doc_wf();
        crate::roundtrip::lemma_parse_render(self.spec_doc());
        self.lemma_roundtrip();
    }
}

/// Reads the optional `data` array of records.
fn decode_data(ms: &Vec<(String, Json)>) -> (r: Result<Option<Vec<IResponse>>, DecodeError>)
    requires
        forall|k: int| 0 <= k < ms@.len() ==> jwf((#[trigger] ms@[k]).1),
    ensures
        match r {
            Result::Ok(o) => match obj_get(jv_members(ms@), "data"@) {
                Option::None => o is None,
                Option::Some(JVal::Null) => o is None,
                Option::Some(JVal::Arr(elems)) => o matches Option::Some(items)
                    && items@.len() == elems.len()
                    && (forall|k: int| 0 <= k < elems.len()
                        ==> IResponse::spec_ok(#[trigger] elems[k]))
                    && (forall|k: int| 0 <= k < elems.len()
                        ==> (#[trigger] items@[k]).matches_doc(elems[k]))
                    && (forall|k: int| 0 <= k < items@.len() ==> (#[trigger] items@[k]).inv()),
                Option::Some(_) => false,
            },
            Result::Err(e) => e == DecodeError::Shape && match obj_get(jv_members(ms@), "data"@) {
                Option::None => false,
                Option::Some(JVal::Null) => false,
                Option::Some(JVal::Arr(elems)) => !(forall|k: int| 0 <= k < elems.len()
                    ==> IResponse::spec_ok(#[trigger] elems[k])),
                Option::Some(_) => true,
            },
        },
{
    let arr = match crate::decode::lookup_member(ms, "data") {
        Option::None => {
            return Result::Ok(Option::None);
        },
        Option::Some(j) => match j {
            Json::Null => {
                return Result::Ok(Option::None);
            },
            Json::Arr(elems) => elems,
            _ => {
                return Result::Err(DecodeError::Shape);
            },
        },
    };
    let ghost evs = jv_seq(arr@);
    proof {
        lemma_jv_seq(arr@);
    }
    let n: usize = arr.len();
    let mut items: Vec<IResponse> = Vec::new();
    let mut i: usize = 0;
    while i < n
        invariant
            i <= n,
            n == arr@.len(),
            obj_get(jv_members(ms@), "data"@) == Some(JVal::Arr(evs)),
            evs == jv_seq(arr@),
            evs.len() == n,
            forall|k: int| 0 <= k < n ==> evs[k] == jv(#[trigger] arr@[k]),
            forall|k: int| 0 <= k < n ==> jwf(#[trigger] arr@[k]),
            items@.len() == i,
            forall|k: int| 0 <= k < i ==> IResponse::spec_ok(#[trigger] evs[k]),
            forall|k: int| 0 <= k < i ==> (#[trigger] items@[k]).matches_doc(evs[k]),
            forall|k: int| 0 <= k < items@.len() ==> (#[trigger] items@[k]).inv(),
        decreases n - i,
    {
        match IResponse::from_json(&arr[i]) {
            Result::Ok(it) => {
                items.push(it);
            },
            Result::Err(e) => {
                proof {
                    let g = obj_get(jv_members(ms@), "data"@);
                    let gelems = g->0->Arr_0;
                    assert(gelems == evs);
                    assert(!(forall|k: int| 0 <= k < gelems.len()
                        ==> IResponse::spec_ok(#[trigger] gelems[k]))) by {
                        assert(!IResponse::spec_ok(gelems[i as int]));
                    }
                }
                return Result::Err(e);
            },
        }
        i = i + 1;
    }
    Result::Ok(Option::Some(items))
}

/// The path of this endpoint under the API root.
pub open spec fn lending_url() -> Seq<char> {
    root_url() + "/defi/lending"@
}

/// Prepares one call: the fixed URL, the three fixed headers with the
/// caller's bearer token, and — when a request is given — the canonical
/// serialization of its sentinel-filtered fields.
pub fn example(request: Option<&Request>, api_key: &str) -> (r: PreparedCall)
    ensures
        r.url@ == lending_url(),
        headers_model(r.headers@) == spec_headers(api_key@),
        match request {
            Option::None => r.body is None,
            Option::Some(req) => r.body matches Option::Some(b)
                && b@ == ser_val(JVal::Obj(req.spec_members())),
        },
{
    let url = hellomoon_root_url().to_owned().concat("/defi/lending");
    prepare_call(url, api_key, request)
}

impl crate::decode::ResponseEnvelope for Response {
    open spec fn env_ok(v: JVal) -> bool {
        Response::spec_ok(v)
    }

    open spec fn env_matches(self, v: JVal) -> bool {
        self.matches_doc(v)
    }

    fn env_from_json(doc: &Json) -> Result<Self, DecodeError> {
        Response::from_json(doc)
    }

    proof fn lemma_empty_envelope() {
        let ms = crate::decode::empty_envelope()->Obj_0;
        reveal_strlit("data");
        reveal_strlit("paginationToken");
        assert("data"@.len() == 4);
        assert("paginationToken"@.len() == 15);
        crate::fields::lemma_obj_get_index(ms, 0);
        crate::fields::lemma_obj_get_index(ms, 1);
    }
}

/// Decodes one response body: `Syntax` when the body is not valid JSON,
/// `Shape` when it does not fit the envelope, the typed response
/// otherwise.
pub fn example_decode(body: &str) -> (r: Result<Response, DecodeError>)
    ensures
        match spec_parse(body@) {
            Option::None => r == Result::<Response, DecodeError>::Err(DecodeError::Syntax),
            Option::Some(v) => match r {
                Result::Ok(resp) => Response::spec_ok(v) && resp.matches_doc(v),
                Result::Err(e) => e == DecodeError::Shape && !Response::spec_ok(v),
            },
        },
{
    crate::decode::decode_body::<Response>(body)
}

} // verus!
