//! Liquidity-pool withdrawals and deposits, `POST <root>/defi/liquidity-pools/withdrawals-deposits`.

use vstd::prelude::*;

use crate::call::{PreparedCall, headers_model, hellomoon_root_url, prepare_call, root_url, spec_headers};
use crate::decode::{
    get_opt_string, get_req_i64, get_req_string, get_req_u64, spec_opt_string, spec_req_i64,
    spec_req_string, spec_req_u64, DecodeError,
};
use crate::fields::{
    obj_get, opt_count, opt_doc, opt_text, push_count, push_doc, push_text, put_doc_field,
    put_i64_field, put_str_field, put_u64_field,
};
use crate::json::{
    JVal, Json, jv, jv_members, jv_opt_str, jv_seq, jwf, lemma_jv_seq, o_str, ser_val, wf,
};
use crate::parse::spec_parse;

verus! {
broadcast use vstd::seq::group_seq_axioms, vstd::std_specs::vec::group_vec_axioms;

/// Whether liquidity was added to or removed from the pool.
#[derive(Debug, PartialEq, Eq, Clone, Copy)]
pub enum ActionType {
    AddLiquidity,
    RemoveLiquidity,
}

impl ActionType {
    /// The variant's wire form.
    pub open spec fn spec_doc(self) -> JVal {
        match self {
            ActionType::AddLiquidity => JVal::Str("addLiquidity"@),
            ActionType::RemoveLiquidity => JVal::Str("removeLiquidity"@),
        }
    }

    pub fn to_json(&self) -> (r: Json)
        ensures
            jv(r) == self.spec_doc(),
            jwf(r),
    {
        match self {
            ActionType::AddLiquidity => Json::Str("addLiquidity".to_owned()),
            ActionType::RemoveLiquidity => Json::Str("removeLiquidity".to_owned()),
        }
    }
}

/// What to ask the withdrawals/deposits endpoint for.
pub struct LpWithdrawalDepositRequest {
    pub program_id: String,
    pub user_account: String,
    pub transaction_id: String,
    pub instruction_name: String,
    pub action_type: Option<ActionType>,
    pub token_mint_a: String,
    pub token_mint_b: String,
    pub limit: usize,
    pub page: usize,
    pub pagination_token: String,
}

impl LpWithdrawalDepositRequest {
    /// The members of the serialized request body, in declaration order,
    /// sentinel fields omitted.
    pub open spec fn spec_members(self) -> Seq<(Seq<char>, JVal)> {
        opt_text("programId"@, self.program_id@)
            + opt_text("userAccount"@, self.user_account@)
            + opt_text("transactionId"@, self.transaction_id@)
            + opt_text("instructionName"@, self.instruction_name@)
            + opt_doc("actionType"@, match self.action_type {
                Option::Some(e) => Option::Some(e.spec_doc()),
                Option::None => Option::None,
            })
            + opt_text("tokenMintA"@, self.token_mint_a@)
            + opt_text("tokenMintB"@, self.token_mint_b@)
            + opt_count("limit"@, self.limit as int)
            + opt_count("page"@, self.page as int)
            + opt_text("paginationToken"@, self.pagination_token@)
    }

    /// Serializes the request body.
    pub fn to_json(&self) -> (r: Json)
        ensures
            jv(r) == JVal::Obj(self.spec_members()),
            jwf(r),
    {
        let mut out: Vec<(String, Json)> = Vec::new();
        proof {
            assert(jv_members(out@) =~= Seq::<(Seq<char>, JVal)>::empty());
        }
        push_text(&mut out, "programId", &self.program_id);
        push_text(&mut out, "userAccount", &self.user_account);
        push_text(&mut out, "transactionId", &self.transaction_id);
        push_text(&mut out, "instructionName", &self.instruction_name);
        let action_type_doc: Option<Json> = match &self.action_type {
            Option::Some(e) => Option::Some(e.to_json()),
            Option::None => Option::None,
        };
        push_doc(&mut out, "actionType", action_type_doc);
        push_text(&mut out, "tokenMintA", &self.token_mint_a);
        push_text(&mut out, "tokenMintB", &self.token_mint_b);
        push_count(&mut out, "limit", self.limit);
        push_count(&mut out, "page", self.page);
        push_text(&mut out, "paginationToken", &self.pagination_token);
        proof {
            assert(jv_members(out@) =~= self.spec_members());
        }
        Json::Obj(out)
    }
}

impl crate::call::RequestShape for LpWithdrawalDepositRequest {
    open spec fn req_members(self) -> Seq<(Seq<char>, JVal)> {
        self.spec_members()
    }

    fn req_to_json(&self) -> (r: Json) {
        self.to_json()
    }
}

impl LpWithdrawalDepositRequest {
    /// Sentinel omission: each field stands in the serialized object
    /// exactly when its value is not the sentinel, under its wire name,
    /// with its serialized value; a sentinel field's name is absent.
    #[verifier::rlimit(100)]
    pub proof fn lemma_sentinel_omission(self)
        ensures
            obj_get(self.spec_members(), "programId"@) == (if self.program_id@.len() > 0 {
                Option::Some(JVal::Str(self.program_id@))
            } else {
                Option::<JVal>::None
            }),
            obj_get(self.spec_members(), "userAccount"@) == (if self.user_account@.len() > 0 {
                Option::Some(JVal::Str(self.user_account@))
            } else {
                Option::<JVal>::None
            }),
            obj_get(self.spec_members(), "transactionId"@) == (if self.transaction_id@.len() > 0 {
                Option::Some(JVal::Str(self.transaction_id@))
            } else {
                Option::<JVal>::None
            }),
            obj_get(self.spec_members(), "instructionName"@) == (if self.instruction_name@.len() > 0 {
                Option::Some(JVal::Str(self.instruction_name@))
            } else {
                Option::<JVal>::None
            }),
            obj_get(self.spec_members(), "actionType"@) == (match self.action_type {
                Option::Some(e) => Option::Some(e.spec_doc()),
                Option::None => Option::<JVal>::None,
            }),
            obj_get(self.spec_members(), "tokenMintA"@) == (if self.token_mint_a@.len() > 0 {
                Option::Some(JVal::Str(self.token_mint_a@))
            } else {
                Option::<JVal>::None
            }),
            obj_get(self.spec_members(), "tokenMintB"@) == (if self.token_mint_b@.len() > 0 {
                Option::Some(JVal::Str(self.token_mint_b@))
            } else {
                Option::<JVal>::None
            }),
            obj_get(self.spec_members(), "limit"@) == (if self.limit > 0 {
                Option::Some(JVal::Int(self.limit as int))
            } else {
                Option::<JVal>::None
            }),
            obj_get(self.spec_members(), "page"@) == (if self.page > 0 {
                Option::Some(JVal::Int(self.page as int))
            } else {
                Option::<JVal>::None
            }),
            obj_get(self.spec_members(), "paginationToken"@) == (if self.pagination_token@.len() > 0 {
                Option::Some(JVal::Str(self.pagination_token@))
            } else {
                Option::<JVal>::None
            }),
    {
        reveal_strlit("actionType");
        reveal_strlit("instructionName");
        reveal_strlit("limit");
        reveal_strlit("page");
        reveal_strlit("paginationToken");
        reveal_strlit("programId");
        reveal_strlit("tokenMintA");
        reveal_strlit("tokenMintB");
        reveal_strlit("transactionId");
        reveal_strlit("userAccount");
        assert("actionType"@.len() == 10);
        assert("instructionName"@.len() == 15);
        assert("limit"@.len() == 5);
        assert("page"@.len() == 4);
        assert("paginationToken"@.len() == 15);
        assert("programId"@.len() == 9);
        assert("tokenMintA"@.len() == 10);
        assert("tokenMintB"@.len() == 10);
        assert("transactionId"@.len() == 13);
        assert("userAccount"@.len() == 11);
        assert("actionType"@[0] == 'a');
        assert("instructionName"@[0] == 'i');
        assert("paginationToken"@[0] == 'p');
        assert("tokenMintA"@[0] == 't');
        assert("tokenMintA"@[9] == 'A');
        assert("tokenMintB"@[0] == 't');
        assert("tokenMintB"@[9] == 'B');
        let s1 = crate::fields::seg("programId"@, self.program_id@.len() > 0, JVal::Str(self.program_id@));
        let s2 = crate::fields::seg("userAccount"@, self.user_account@.len() > 0, JVal::Str(self.user_account@));
        let s3 = crate::fields::seg("transactionId"@, self.transaction_id@.len() > 0, JVal::Str(self.transaction_id@));
        let s4 = crate::fields::seg("instructionName"@, self.instruction_name@.len() > 0, JVal::Str(self.instruction_name@));
        let s5 = crate::fields::seg("actionType"@, self.action_type is Some, if self.action_type is Some { self.action_type->0.spec_doc() } else { JVal::Null });
        let s6 = crate::fields::seg("tokenMintA"@, self.token_mint_a@.len() > 0, JVal::Str(self.token_mint_a@));
        let s7 = crate::fields::seg("tokenMintB"@, self.token_mint_b@.len() > 0, JVal::Str(self.token_mint_b@));
        let s8 = crate::fields::seg("limit"@, self.limit > 0, JVal::Int(self.limit as int));
        let s9 = crate::fields::seg("page"@, self.page > 0, JVal::Int(self.page as int));
        let s10 = crate::fields::seg("paginationToken"@, self.pagination_token@.len() > 0, JVal::Str(self.pagination_token@));
        assert(self.spec_members() =~= s1 + s2 + s3 + s4 + s5 + s6 + s7 + s8 + s9 + s10);
        crate::fields::lemma_seg_get_any("programId"@, self.program_id@.len() > 0, JVal::Str(self.program_id@));
        crate::fields::lemma_seg_get_any("userAccount"@, self.user_account@.len() > 0, JVal::Str(self.user_account@));
        crate::fields::lemma_seg_get_any("transactionId"@, self.transaction_id@.len() > 0, JVal::Str(self.transaction_id@));
        crate::fields::lemma_seg_get_any("instructionName"@, self.instruction_name@.len() > 0, JVal::Str(self.instruction_name@));
        crate::fields::lemma_seg_get_any("actionType"@, self.action_type is Some, if self.action_type is Some { self.action_type->0.spec_doc() } else { JVal::Null });
        crate::fields::lemma_seg_get_any("tokenMintA"@, self.token_mint_a@.len() > 0, JVal::Str(self.token_mint_a@));
        crate::fields::lemma_seg_get_any("tokenMintB"@, self.token_mint_b@.len() > 0, JVal::Str(self.token_mint_b@));
        crate::fields::lemma_seg_get_any("limit"@, self.limit > 0, JVal::Int(self.limit as int));
        crate::fields::lemma_seg_get_any("page"@, self.page > 0, JVal::Int(self.page as int));
        crate::fields::lemma_seg_get_any("paginationToken"@, self.pagination_token@.len() > 0, JVal::Str(self.pagination_token@));
        crate::fields::lemma_obj_get_concat(s1 + s2 + s3 + s4 + s5 + s6 + s7 + s8 + s9, s10, "programId"@);
        crate::fields::lemma_obj_get_concat(s1 + s2 + s3 + s4 + s5 + s6 + s7 + s8, s9, "programId"@);
        crate::fields::lemma_obj_get_concat(s1 + s2 + s3 + s4 + s5 + s6 + s7, s8, "programId"@);
        crate::fields::lemma_obj_get_concat(s1 + s2 + s3 + s4 + s5 + s6, s7, "programId"@);
        crate::fields::lemma_obj_get_concat(s1 + s2 + s3 + s4 + s5, s6, "programId"@);
        crate::fields::lemma_obj_get_concat(s1 + s2 + s3 + s4, s5, "programId"@);
        crate::fields::lemma_obj_get_concat(s1 + s2 + s3, s4, "programId"@);
        crate::fields::lemma_obj_get_concat(s1 + s2, s3, "programId"@);
        crate::fields::lemma_obj_get_concat(s1, s2, "programId"@);
        crate::fields::lemma_obj_get_concat(s1 + s2 + s3 + s4 + s5 + s6 + s7 + s8 + s9, s10, "userAccount"@);
        crate::fields::lemma_obj_get_concat(s1 + s2 + s3 + s4 + s5 + s6 + s7 + s8, s9, "userAccount"@);
        crate::fields::lemma_obj_get_concat(s1 + s2 + s3 + s4 + s5 + s6 + s7, s8, "userAccount"@);
        crate::fields::lemma_obj_get_concat(s1 + s2 + s3 + s4 + s5 + s6, s7, "userAccount"@);
        crate::fields::lemma_obj_get_concat(s1 + s2 + s3 + s4 + s5, s6, "userAccount"@);
        crate::fields::lemma_obj_get_concat(s1 + s2 + s3 + s4, s5, "userAccount"@);
        crate::fields::lemma_obj_get_concat(s1 + s2 + s3, s4, "userAccount"@);
        crate::fields::lemma_obj_get_concat(s1 + s2, s3, "userAccount"@);
        crate::fields::lemma_obj_get_concat(s1, s2, "userAccount"@);
        crate::fields::lemma_obj_get_concat(s1 + s2 + s3 + s4 + s5 + s6 + s7 + s8 + s9, s10, "transactionId"@);
        crate::fields::lemma_obj_get_concat(s1 + s2 + s3 + s4 + s5 + s6 + s7 + s8, s9, "transactionId"@);
        crate::fields::lemma_obj_get_concat(s1 + s2 + s3 + s4 + s5 + s6 + s7, s8, "transactionId"@);
        crate::fields::lemma_obj_get_concat(s1 + s2 + s3 + s4 + s5 + s6, s7, "transactionId"@);
        crate::fields::lemma_obj_get_concat(s1 + s2 + s3 + s4 + s5, s6, "transactionId"@);
        crate::fields::lemma_obj_get_concat(s1 + s2 + s3 + s4, s5, "transactionId"@);
        crate::fields::lemma_obj_get_concat(s1 + s2 + s3, s4, "transactionId"@);
        crate::fields::lemma_obj_get_concat(s1 + s2, s3, "transactionId"@);
        crate::fields::lemma_obj_get_concat(s1, s2, "transactionId"@);
        crate::fields::lemma_obj_get_concat(s1 + s2 + s3 + s4 + s5 + s6 + s7 + s8 + s9, s10, "instructionName"@);
        crate::fields::lemma_obj_get_concat(s1 + s2 + s3 + s4 + s5 + s6 + s7 + s8, s9, "instructionName"@);
        crate::fields::lemma_obj_get_concat(s1 + s2 + s3 + s4 + s5 + s6 + s7, s8, "instructionName"@);
        crate::fields::lemma_obj_get_concat(s1 + s2 + s3 + s4 + s5 + s6, s7, "instructionName"@);
        crate::fields::lemma_obj_get_concat(s1 + s2 + s3 + s4 + s5, s6, "instructionName"@);
        crate::fields::lemma_obj_get_concat(s1 + s2 + s3 + s4, s5, "instructionName"@);
        crate::fields::lemma_obj_get_concat(s1 + s2 + s3, s4, "instructionName"@);
        crate::fields::lemma_obj_get_concat(s1 + s2, s3, "instructionName"@);
        crate::fields::lemma_obj_get_concat(s1, s2, "instructionName"@);
        crate::fields::lemma_obj_get_concat(s1 + s2 + s3 + s4 + s5 + s6 + s7 + s8 + s9, s10, "actionType"@);
        crate::fields::lemma_obj_get_concat(s1 + s2 + s3 + s4 + s5 + s6 + s7 + s8, s9, "actionType"@);
        crate::fields::lemma_obj_get_concat(s1 + s2 + s3 + s4 + s5 + s6 + s7, s8, "actionType"@);
        crate::fields::lemma_obj_get_concat(s1 + s2 + s3 + s4 + s5 + s6, s7, "actionType"@);
        crate::fields::lemma_obj_get_concat(s1 + s2 + s3 + s4 + s5, s6, "actionType"@);
        crate::fields::lemma_obj_get_concat(s1 + s2 + s3 + s4, s5, "actionType"@);
        crate::fields::lemma_obj_get_concat(s1 + s2 + s3, s4, "actionType"@);
        crate::fields::lemma_obj_get_concat(s1 + s2, s3, "actionType"@);
        crate::fields::lemma_obj_get_concat(s1, s2, "actionType"@);
        crate::fields::lemma_obj_get_concat(s1 + s2 + s3 + s4 + s5 + s6 + s7 + s8 + s9, s10, "tokenMintA"@);
        crate::fields::lemma_obj_get_concat(s1 + s2 + s3 + s4 + s5 + s6 + s7 + s8, s9, "tokenMintA"@);
        crate::fields::lemma_obj_get_concat(s1 + s2 + s3 + s4 + s5 + s6 + s7, s8, "tokenMintA"@);
        crate::fields::lemma_obj_get_concat(s1 + s2 + s3 + s4 + s5 + s6, s7, "tokenMintA"@);
        crate::fields::lemma_obj_get_concat(s1 + s2 + s3 + s4 + s5, s6, "tokenMintA"@);
        crate::fields::lemma_obj_get_concat(s1 + s2 + s3 + s4, s5, "tokenMintA"@);
        crate::fields::lemma_obj_get_concat(s1 + s2 + s3, s4, "tokenMintA"@);
        crate::fields::lemma_obj_get_concat(s1 + s2, s3, "tokenMintA"@);
        crate::fields::lemma_obj_get_concat(s1, s2, "tokenMintA"@);
        crate::fields::lemma_obj_get_concat(s1 + s2 + s3 + s4 + s5 + s6 + s7 + s8 + s9, s10, "tokenMintB"@);
        crate::fields::lemma_obj_get_concat(s1 + s2 + s3 + s4 + s5 + s6 + s7 + s8, s9, "tokenMintB"@);
        crate::fields::lemma_obj_get_concat(s1 + s2 + s3 + s4 + s5 + s6 + s7, s8, "tokenMintB"@);
        crate::fields::lemma_obj_get_concat(s1 + s2 + s3 + s4 + s5 + s6, s7, "tokenMintB"@);
        crate::fields::lemma_obj_get_concat(s1 + s2 + s3 + s4 + s5, s6, "tokenMintB"@);
        crate::fields::lemma_obj_get_concat(s1 + s2 + s3 + s4, s5, "tokenMintB"@);
        crate::fields::lemma_obj_get_concat(s1 + s2 + s3, s4, "tokenMintB"@);
        crate::fields::lemma_obj_get_concat(s1 + s2, s3, "tokenMintB"@);
        crate::fields::lemma_obj_get_concat(s1, s2, "tokenMintB"@);
        crate::fields::lemma_obj_get_concat(s1 + s2 + s3 + s4 + s5 + s6 + s7 + s8 + s9, s10, "limit"@);
        crate::fields::lemma_obj_get_concat(s1 + s2 + s3 + s4 + s5 + s6 + s7 + s8, s9, "limit"@);
        crate::fields::lemma_obj_get_concat(s1 + s2 + s3 + s4 + s5 + s6 + s7, s8, "limit"@);
        crate::fields::lemma_obj_get_concat(s1 + s2 + s3 + s4 + s5 + s6, s7, "limit"@);
        crate::fields::lemma_obj_get_concat(s1 + s2 + s3 + s4 + s5, s6, "limit"@);
        crate::fields::lemma_obj_get_concat(s1 + s2 + s3 + s4, s5, "limit"@);
        crate::fields::lemma_obj_get_concat(s1 + s2 + s3, s4, "limit"@);
        crate::fields::lemma_obj_get_concat(s1 + s2, s3, "limit"@);
        crate::fields::lemma_obj_get_concat(s1, s2, "limit"@);
        crate::fields::lemma_obj_get_concat(s1 + s2 + s3 + s4 + s5 + s6 + s7 + s8 + s9, s10, "page"@);
        crate::fields::lemma_obj_get_concat(s1 + s2 + s3 + s4 + s5 + s6 + s7 + s8, s9, "page"@);
        crate::fields::lemma_obj_get_concat(s1 + s2 + s3 + s4 + s5 + s6 + s7, s8, "page"@);
        crate::fields::lemma_obj_get_concat(s1 + s2 + s3 + s4 + s5 + s6, s7, "page"@);
        crate::fields::lemma_obj_get_concat(s1 + s2 + s3 + s4 + s5, s6, "page"@);
        crate::fields::lemma_obj_get_concat(s1 + s2 + s3 + s4, s5, "page"@);
        crate::fields::lemma_obj_get_concat(s1 + s2 + s3, s4, "page"@);
        crate::fields::lemma_obj_get_concat(s1 + s2, s3, "page"@);
        crate::fields::lemma_obj_get_concat(s1, s2, "page"@);
        crate::fields::lemma_obj_get_concat(s1 + s2 + s3 + s4 + s5 + s6 + s7 + s8 + s9, s10, "paginationToken"@);
        crate::fields::lemma_obj_get_concat(s1 + s2 + s3 + s4 + s5 + s6 + s7 + s8, s9, "paginationToken"@);
        crate::fields::lemma_obj_get_concat(s1 + s2 + s3 + s4 + s5 + s6 + s7, s8, "paginationToken"@);
        crate::fields::lemma_obj_get_concat(s1 + s2 + s3 + s4 + s5 + s6, s7, "paginationToken"@);
        crate::fields::lemma_obj_get_concat(s1 + s2 + s3 + s4 + s5, s6, "paginationToken"@);
        crate::fields::lemma_obj_get_concat(s1 + s2 + s3 + s4, s5, "paginationToken"@);
        crate::fields::lemma_obj_get_concat(s1 + s2 + s3, s4, "paginationToken"@);
        crate::fields::lemma_obj_get_concat(s1 + s2, s3, "paginationToken"@);
        crate::fields::lemma_obj_get_concat(s1, s2, "paginationToken"@);
    }
}

impl Default for LpWithdrawalDepositRequest {
    fn default() -> (r: Self)
        ensures
            r.program_id@ == Seq::<char>::empty(),
            r.user_account@ == Seq::<char>::empty(),
            r.transaction_id@ == Seq::<char>::empty(),
            r.instruction_name@ == Seq::<char>::empty(),
            r.action_type is None,
            r.token_mint_a@ == Seq::<char>::empty(),
            r.token_mint_b@ == Seq::<char>::empty(),
            r.limit == 0,
            r.page == 0,
            r.pagination_token@ == Seq::<char>::empty(),
    {
        LpWithdrawalDepositRequest {
            program_id: String::new(),
            user_account: String::new(),
            transaction_id: String::new(),
            instruction_name: String::new(),
            action_type: Option::None,
            token_mint_a: String::new(),
            token_mint_b: String::new(),
            limit: 0,
            page: 0,
            pagination_token: String::new(),
        }
    }
}

/// One withdrawal or deposit record; every field is required.
#[derive(Debug, PartialEq, Eq)]
pub struct IResponse {
    pub action_type: String,
    pub amount_token_a: u64,
    pub amount_token_b: u64,
    pub instruction_id: String,
    pub instruction_name: String,
    pub instruction_ordinal: u64,
    pub instruction_position: u64,
    pub program_id: String,
    pub sub_instruction_position: i64,
    pub token_mint_a: String,
    pub token_mint_b: String,
    pub transaction_id: String,
    pub use_account: String,
}

impl IResponse {
    /// Whether a document fits this shape.
    pub open spec fn spec_ok(v: JVal) -> bool {
        v matches JVal::Obj(ms) && {
            &&& spec_req_string(ms, "actionType"@) is Ok
            &&& spec_req_u64(ms, "amountTokenA"@) is Ok
            &&& spec_req_u64(ms, "amountTokenB"@) is Ok
            &&& spec_req_string(ms, "instructionId"@) is Ok
            &&& spec_req_string(ms, "instructionName"@) is Ok
            &&& spec_req_u64(ms, "instructionOrdinal"@) is Ok
            &&& spec_req_u64(ms, "instructionposition"@) is Ok
            &&& spec_req_string(ms, "programId"@) is Ok
            &&& spec_req_i64(ms, "subinstructionposition"@) is Ok
            &&& spec_req_string(ms, "tokenMintA"@) is Ok
            &&& spec_req_string(ms, "tokenMintB"@) is Ok
            &&& spec_req_string(ms, "transactionId"@) is Ok
            &&& spec_req_string(ms, "userAccount"@) is Ok
        }
    }

    /// Whether this value is what the document decodes to.
    pub open spec fn matches_doc(self, v: JVal) -> bool {
        v matches JVal::Obj(ms) && {
            &&& spec_req_string(ms, "actionType"@) == Result::<Seq<char>, ()>::Ok(self.action_type@)
            &&& spec_req_u64(ms, "amountTokenA"@) == Result::<int, ()>::Ok(self.amount_token_a as int)
            &&& spec_req_u64(ms, "amountTokenB"@) == Result::<int, ()>::Ok(self.amount_token_b as int)
            &&& spec_req_string(ms, "instructionId"@) == Result::<Seq<char>, ()>::Ok(self.instruction_id@)
            &&& spec_req_string(ms, "instructionName"@) == Result::<Seq<char>, ()>::Ok(self.instruction_name@)
            &&& spec_req_u64(ms, "instructionOrdinal"@) == Result::<int, ()>::Ok(self.instruction_ordinal as int)
            &&& spec_req_u64(ms, "instructionposition"@) == Result::<int, ()>::Ok(self.instruction_position as int)
            &&& spec_req_string(ms, "programId"@) == Result::<Seq<char>, ()>::Ok(self.program_id@)
            &&& spec_req_i64(ms, "subinstructionposition"@) == Result::<int, ()>::Ok(self.sub_instruction_position as int)
            &&& spec_req_string(ms, "tokenMintA"@) == Result::<Seq<char>, ()>::Ok(self.token_mint_a@)
            &&& spec_req_string(ms, "tokenMintB"@) == Result::<Seq<char>, ()>::Ok(self.token_mint_b@)
            &&& spec_req_string(ms, "transactionId"@) == Result::<Seq<char>, ()>::Ok(self.transaction_id@)
            &&& spec_req_string(ms, "userAccount"@) == Result::<Seq<char>, ()>::Ok(self.use_account@)
        }
    }

    /// Well-formedness: number fields hold canonical values.
    pub open spec fn inv(self) -> bool {
        true
    }

    /// Reads one record out of a document.
    pub fn from_json(doc: &Json) -> (r: Result<Self, DecodeError>)
        requires
            jwf(*doc),
        ensures
            match r {
                Result::Ok(it) => Self::spec_ok(jv(*doc)) && it.matches_doc(jv(*doc)) && it.inv(),
                Result::Err(e) => e == DecodeError::Shape && !Self::spec_ok(jv(*doc)),
            },
    {
        let ms = match doc {
            Json::Obj(ms) => ms,
            _ => {
                return Result::Err(DecodeError::Shape);
            },
        };
        let action_type = match get_req_string(ms, "actionType") {
            Result::Ok(o) => o,
            Result::Err(e) => {
                return Result::Err(e);
            },
        };
        let amount_token_a = match get_req_u64(ms, "amountTokenA") {
            Result::Ok(o) => o,
            Result::Err(e) => {
                return Result::Err(e);
            },
        };
        let amount_token_b = match get_req_u64(ms, "amountTokenB") {
            Result::Ok(o) => o,
            Result::Err(e) => {
                return Result::Err(e);
            },
        };
        let instruction_id = match get_req_string(ms, "instructionId") {
            Result::Ok(o) => o,
            Result::Err(e) => {
                return Result::Err(e);
            },
        };
        let instruction_name = match get_req_string(ms, "instructionName") {
            Result::Ok(o) => o,
            Result::Err(e) => {
                return Result::Err(e);
            },
        };
        let instruction_ordinal = match get_req_u64(ms, "instructionOrdinal") {
            Result::Ok(o) => o,
            Result::Err(e) => {
                return Result::Err(e);
            },
        };
        let instruction_position = match get_req_u64(ms, "instructionposition") {
            Result::Ok(o) => o,
            Result::Err(e) => {
                return Result::Err(e);
            },
        };
        let program_id = match get_req_string(ms, "programId") {
            Result::Ok(o) => o,
            Result::Err(e) => {
                return Result::Err(e);
            },
        };
        let sub_instruction_position = match get_req_i64(ms, "subinstructionposition") {
            Result::Ok(o) => o,
            Result::Err(e) => {
                return Result::Err(e);
            },
        };
        let token_mint_a = match get_req_string(ms, "tokenMintA") {
            Result::Ok(o) => o,
            Result::Err(e) => {
                return Result::Err(e);
            },
        };
        let token_mint_b = match get_req_string(ms, "tokenMintB") {
            Result::Ok(o) => o,
            Result::Err(e) => {
                return Result::Err(e);
            },
        };
        let transaction_id = match get_req_string(ms, "transactionId") {
            Result::Ok(o) => o,
            Result::Err(e) => {
                return Result::Err(e);
            },
        };
        let use_account = match get_req_string(ms, "userAccount") {
            Result::Ok(o) => o,
            Result::Err(e) => {
                return Result::Err(e);
            },
        };
        Result::Ok(IResponse { action_type, amount_token_a, amount_token_b, instruction_id, instruction_name, instruction_ordinal, instruction_position, program_id, sub_instruction_position, token_mint_a, token_mint_b, transaction_id, use_account })
    }

    /// The canonical document of this value: every field written, `null`
    /// for absent ones, in declaration order.
    pub open spec fn spec_doc(self) -> JVal {
        JVal::Obj(seq![
            ("actionType"@, JVal::Str(self.action_type@)),
            ("amountTokenA"@, JVal::Int(self.amount_token_a as int)),
            ("amountTokenB"@, JVal::Int(self.amount_token_b as int)),
            ("instructionId"@, JVal::Str(self.instruction_id@)),
            ("instructionName"@, JVal::Str(self.instruction_name@)),
            ("instructionOrdinal"@, JVal::Int(self.instruction_ordinal as int)),
            ("instructionposition"@, JVal::Int(self.instruction_position as int)),
            ("programId"@, JVal::Str(self.program_id@)),
            ("subinstructionposition"@, JVal::Int(self.sub_instruction_position as int)),
            ("tokenMintA"@, JVal::Str(self.token_mint_a@)),
            ("tokenMintB"@, JVal::Str(self.token_mint_b@)),
            ("transactionId"@, JVal::Str(self.transaction_id@)),
            ("userAccount"@, JVal::Str(self.use_account@)),
        ])
    }

    /// Serializes this value to its canonical document.
    pub fn to_json(&self) -> (r: Json)
        ensures
            jv(r) == self.spec_doc(),
            jwf(r),
    {
        let mut out: Vec<(String, Json)> = Vec::new();
        proof {
            assert(jv_members(out@) =~= Seq::<(Seq<char>, JVal)>::empty());
        }
        put_str_field(&mut out, "actionType", &Option::Some(self.action_type.clone()));
        put_u64_field(&mut out, "amountTokenA", &Option::Some(self.amount_token_a));
        put_u64_field(&mut out, "amountTokenB", &Option::Some(self.amount_token_b));
        put_str_field(&mut out, "instructionId", &Option::Some(self.instruction_id.clone()));
        put_str_field(&mut out, "instructionName", &Option::Some(self.instruction_name.clone()));
        put_u64_field(&mut out, "instructionOrdinal", &Option::Some(self.instruction_ordinal));
        put_u64_field(&mut out, "instructionposition", &Option::Some(self.instruction_position));
        put_str_field(&mut out, "programId", &Option::Some(self.program_id.clone()));
        put_i64_field(&mut out, "subinstructionposition", &Option::Some(self.sub_instruction_position));
        put_str_field(&mut out, "tokenMintA", &Option::Some(self.token_mint_a.clone()));
        put_str_field(&mut out, "tokenMintB", &Option::Some(self.token_mint_b.clone()));
        put_str_field(&mut out, "transactionId", &Option::Some(self.transaction_id.clone()));
        put_str_field(&mut out, "userAccount", &Option::Some(self.use_account.clone()));
        proof {
            assert(jv_members(out@) =~= self.spec_doc()->Obj_0);
        }
        Json::Obj(out)
    }

    /// Decoding the canonical document gives the value back.
    pub proof fn lemma_roundtrip(self)
        ensures
            Self::spec_ok(self.spec_doc()),
            self.matches_doc(self.spec_doc()),
    {
        let ms = self.spec_doc()->Obj_0;
    reveal_strlit("actionType");
    reveal_strlit("amountTokenA");
    reveal_strlit("amountTokenB");
    reveal_strlit("instructionId");
    reveal_strlit("instructionName");
    reveal_strlit("instructionOrdinal");
    reveal_strlit("instructionposition");
    reveal_strlit("programId");
    reveal_strlit("subinstructionposition");
    reveal_strlit("tokenMintA");
    reveal_strlit("tokenMintB");
    reveal_strlit("transactionId");
    reveal_strlit("userAccount");
    assert("actionType"@.len() == 10);
    assert("amountTokenA"@.len() == 12);
    assert("amountTokenB"@.len() == 12);
    assert("instructionId"@.len() == 13);
    assert("instructionName"@.len() == 15);
    assert("instructionOrdinal"@.len() == 18);
    assert("instructionposition"@.len() == 19);
    assert("programId"@.len() == 9);
    assert("subinstructionposition"@.len() == 22);
    assert("tokenMintA"@.len() == 10);
    assert("tokenMintB"@.len() == 10);
    assert("transactionId"@.len() == 13);
    assert("userAccount"@.len() == 11);
    assert("actionType"@[0] == 'a');
    assert("amountTokenA"@[11] == 'A');
    assert("amountTokenB"@[11] == 'B');
    assert("instructionId"@[0] == 'i');
    assert("tokenMintA"@[0] == 't');
    assert("tokenMintA"@[9] == 'A');
    assert("tokenMintB"@[0] == 't');
    assert("tokenMintB"@[9] == 'B');
    assert("transactionId"@[0] == 't');
    crate::fields::lemma_obj_get_index(ms, 0);
    crate::fields::lemma_obj_get_index(ms, 1);
    crate::fields::lemma_obj_get_index(ms, 2);
    crate::fields::lemma_obj_get_index(ms, 3);
    crate::fields::lemma_obj_get_index(ms, 4);
    crate::fields::lemma_obj_get_index(ms, 5);
    crate::fields::lemma_obj_get_index(ms, 6);
    crate::fields::lemma_obj_get_index(ms, 7);
    crate::fields::lemma_obj_get_index(ms, 8);
    crate::fields::lemma_obj_get_index(ms, 9);
    crate::fields::lemma_obj_get_index(ms, 10);
    crate::fields::lemma_obj_get_index(ms, 11);
    crate::fields::lemma_obj_get_index(ms, 12);
    }

    /// The canonical document is well formed.
    pub proof fn lemma_spec_doc_wf(self)
        ensures
            wf(self.spec_doc()),
    {
        let ms = self.spec_doc()->Obj_0;
        assert forall|k: int| 0 <= k < ms.len() implies wf(#[trigger] ms[k].1) by {}
    }
}

/// The response envelope: an optional run of records and an optional
/// continuation token.
#[derive(Debug, PartialEq, Eq)]
pub struct LpWithdrawalDepositResponse {
    pub data: Option<Vec<IResponse>>,
    pub pagination_token: Option<String>,
}

impl LpWithdrawalDepositResponse {
    /// Whether a document fits the envelope's shape.
    pub open spec fn spec_ok(v: JVal) -> bool {
        v matches JVal::Obj(ms) && {
            &&& spec_opt_string(ms, "paginationToken"@) is Ok
            &&& match obj_get(ms, "data"@) {
                Option::None => true,
                Option::Some(JVal::Null) => true,
                Option::Some(JVal::Arr(elems)) => forall|k: int| 0 <= k < elems.len()
                    ==> IResponse::spec_ok(#[trigger] elems[k]),
                Option::Some(_) => false,
            }
        }
    }

    /// Whether this value is what the document decodes to.
    pub open spec fn matches_doc(self, v: JVal) -> bool {
        v matches JVal::Obj(ms) && {
            &&& spec_opt_string(ms, "paginationToken"@) == Result::<Option<Seq<char>>, ()>::Ok(o_str(self.pagination_token))
            &&& match obj_get(ms, "data"@) {
                Option::None => self.data is None,
                Option::Some(JVal::Null) => self.data is None,
                Option::Some(JVal::Arr(elems)) => self.data matches Option::Some(items)
                    && items@.len() == elems.len()
                    && (forall|k: int| 0 <= k < elems.len()
                        ==> (#[trigger] items@[k]).matches_doc(elems[k])),
                Option::Some(_) => false,
            }
        }
    }

    /// Well-formedness of the held records.
    pub open spec fn inv(self) -> bool {
        match self.data {
            Option::Some(items) => forall|k: int| 0 <= k < items@.len() ==> (#[trigger] items@[k]).inv(),
            Option::None => true,
        }
    }

    /// Reads the envelope out of a document.
    pub fn from_json(doc: &Json) -> (r: Result<Self, DecodeError>)
        requires
            jwf(*doc),
        ensures
            match r {
                Result::Ok(resp) => Self::spec_ok(jv(*doc)) && resp.matches_doc(jv(*doc)) && resp.inv(),
                Result::Err(e) => e == DecodeError::Shape && !Self::spec_ok(jv(*doc)),
            },
    {
        let ms = match doc {
            Json::Obj(ms) => ms,
            _ => {
                return Result::Err(DecodeError::Shape);
            },
        };
        proof {
            assert(jv(*doc) == JVal::Obj(jv_members(ms@)));
        }
        let pagination_token = match get_opt_string(ms, "paginationToken") {
            Result::Ok(o) => o,
            Result::Err(e) => {
                return Result::Err(e);
            },
        };
        let data = match decode_data(ms) {
            Result::Ok(o) => o,
            Result::Err(e) => {
                return Result::Err(e);
            },
        };
        Result::Ok(LpWithdrawalDepositResponse { data, pagination_token })
    }

    /// The canonical document of this envelope.
    pub open spec fn spec_doc(self) -> JVal {
        JVal::Obj(seq![
            ("data"@, match self.data {
                Option::None => JVal::Null,
                Option::Some(items) => JVal::Arr(items@.map_values(|it: IResponse| it.spec_doc())),
            }),
            ("paginationToken"@, jv_opt_str(self.pagination_token)),
        ])
    }

    /// Serializes this envelope to its canonical document.
    pub fn to_json(&self) -> (r: Json)
        requires
            self.inv(),
        ensures
            jv(r) == self.spec_doc(),
            jwf(r),
    {
        let mut out: Vec<(String, Json)> = Vec::new();
        proof {
            assert(jv_members(out@) =~= Seq::<(Seq<char>, JVal)>::empty());
        }
        let data_doc: Json = match &self.data {
            Option::None => Json::Null,
            Option::Some(items) => {
                let ghost docs_s = items@.map_values(|it: IResponse| it.spec_doc());
                let n: usize = items.len();
                let mut docs: Vec<Json> = Vec::new();
                let mut i: usize = 0;
                proof {
                    assert(jv_seq(docs@) =~= docs_s.take(0));
                    assert(forall|k: int| 0 <= k < items@.len() ==> (#[trigger] items@[k]).inv());
                }
                while i < n
                    invariant
                        i <= n,
                        n == items@.len(),
                        docs_s == items@.map_values(|it: IResponse| it.spec_doc()),
                        docs_s.len() == n,
                        forall|k: int| 0 <= k < items@.len() ==> (#[trigger] items@[k]).inv(),
                        docs@.len() == i,
                        jv_seq(docs@) == docs_s.take(i as int),
                        forall|k: int| 0 <= k < docs@.len() ==> jwf(#[trigger] docs@[k]),
                    decreases n - i,
                {
                    let ghost docs0 = docs@;
                    let d = items[i].to_json();
                    docs.push(d);
                    proof {
                        crate::json::lemma_jv_seq_push(docs0, d);
                        assert(docs_s[i as int] == items@[i as int].spec_doc());
                        assert(docs_s.take(i + 1) =~= docs_s.take(i as int).push(docs_s[i as int]));
                        assert(jv_seq(docs@) =~= docs_s.take(i + 1));
                    }
                    i = i + 1;
                }
                proof {
                    assert(docs_s.take(n as int) =~= docs_s);
                }
                Json::Arr(docs)
            },
        };
        put_doc_field(&mut out, "data", data_doc);
        put_str_field(&mut out, "paginationToken", &self.pagination_token);
        proof {
            assert(jv_members(out@) =~= self.spec_doc()->Obj_0);
        }
        Json::Obj(out)
    }

    /// Decoding the canonical document gives the envelope back.
    pub proof fn lemma_roundtrip(self)
        ensures
            Self::spec_ok(self.spec_doc()),
            self.matches_doc(self.spec_doc()),
    {
        let ms = self.spec_doc()->Obj_0;
        reveal_strlit("data");
        reveal_strlit("paginationToken");
        assert("data"@.len() == 4);
        assert("paginationToken"@.len() == 15);
        crate::fields::lemma_obj_get_index(ms, 0);
        crate::fields::lemma_obj_get_index(ms, 1);
        match self.data {
            Option::Some(items) => {
                let docs = items@.map_values(|it: IResponse| it.spec_doc());
                assert forall|k: int| 0 <= k < docs.len() implies IResponse::spec_ok(#[trigger] docs[k]) by {
                    assert(docs[k] == items@[k].spec_doc());
                    items@[k].lemma_roundtrip();
                }
                assert forall|k: int| 0 <= k < items@.len() implies (#[trigger] items@[k]).matches_doc(docs[k]) by {
                    assert(docs[k] == items@[k].spec_doc());
                    items@[k].lemma_roundtrip();
                }
            },
            Option::None => {},
        }
    }

    /// The canonical document is well formed.
    pub proof fn lemma_spec_doc_wf(self)
        ensures
            wf(self.spec_doc()),
    {
        let ms = self.spec_doc()->Obj_0;
        match self.data {
            Option::Some(items) => {
                let docs = items@.map_values(|it: IResponse| it.spec_doc());
                assert forall|k: int| 0 <= k < docs.len() implies wf(#[trigger] docs[k]) by {
                    assert(docs[k] == items@[k].spec_doc());
                    items@[k].lemma_spec_doc_wf();
                }
                assert(wf(ms[0].1));
            },
            Option::None => {},
        }
        assert forall|k: int| 0 <= k < ms.len() implies wf(#[trigger] ms[k].1) by {}
    }

    /// Round trip through the wire: the rendered text of the canonical
    /// document parses back to it, and decoding it yields exactly this
    /// envelope's values.
    pub proof fn lemma_text_roundtrip(self)
        ensures
            spec_parse(ser_val(self.spec_doc())) == Some(self.spec_doc()),
            Self::spec_ok(self.spec_doc()),
            self.matches_doc(self.spec_doc()),
    {
        self.lemma_spec_doc_wf();
        crate::roundtrip::lemma_parse_render(self.spec_doc());
        self.lemma_roundtrip();
    }
}

/// Reads the optional `data` array of records.
fn decode_data(ms: &Vec<(String, Json)>) -> (r: Result<Option<Vec<IResponse>>, DecodeError>)
    requires
        forall|k: int| 0 <= k < ms@.len() ==> jwf((#[trigger] ms@[k]).1),
    ensures
        match r {
            Result::Ok(o) => match obj_get(jv_members(ms@), "data"@) {
                Option::None => o is None,
                Option::Some(JVal::Null) => o is None,
                Option::Some(JVal::Arr(elems)) => o matches Option::Some(items)
                    && items@.len() == elems.len()
                    && (forall|k: int| 0 <= k < elems.len()
                        ==> IResponse::spec_ok(#[trigger] elems[k]))
                    && (forall|k: int| 0 <= k < elems.len()
                        ==> (#[trigger] items@[k]).matches_doc(elems[k]))
                    && (forall|k: int| 0 <= k < items@.len() ==> (#[trigger] items@[k]).inv()),
                Option::Some(_) => false,
            },
            Result::Err(e) => e == DecodeError::Shape && match obj_get(jv_members(ms@), "data"@) {
                Option::None => false,
                Option::Some(JVal::Null) => false,
                Option::Some(JVal::Arr(elems)) => !(forall|k: int| 0 <= k < elems.len()
                    ==> IResponse::spec_ok(#[trigger] elems[k])),
                Option::Some(_) => true,
            },
        },
{
    let arr = match crate::decode::lookup_member(ms, "data") {
        Option::None => {
            return Result::Ok(Option::None);
        },
        Option::Some(j) => match j {
            Json::Null => {
                return Result::Ok(Option::None);
            },
            Json::Arr(elems) => elems,
            _ => {
                return Result::Err(DecodeError::Shape);
            },
        },
    };
    let ghost evs = jv_seq(arr@);
    proof {
        lemma_jv_seq(arr@);
    }
    let n: usize = arr.len();
    let mut items: Vec<IResponse> = Vec::new();
    let mut i: usize = 0;
    while i < n
        invariant
            i <= n,
            n == arr@.len(),
            obj_get(jv_members(ms@), "data"@) == Some(JVal::Arr(evs)),
            evs == jv_seq(arr@),
            evs.len() == n,
            forall|k: int| 0 <= k < n ==> evs[k] == jv(#[trigger] arr@[k]),
            forall|k: int| 0 <= k < n ==> jwf(#[trigger] arr@[k]),
            items@.len() == i,
            forall|k: int| 0 <= k < i ==> IResponse::spec_ok(#[trigger] evs[k]),
            forall|k: int| 0 <= k < i ==> (#[trigger] items@[k]).matches_doc(evs[k]),
            forall|k: int| 0 <= k < items@.len() ==> (#[trigger] items@[k]).inv(),
        decreases n - i,
    {
        match IResponse::from_json(&arr[i]) {
            Result::Ok(it) => {
                items.push(it);
            },
            Result::Err(e) => {
                proof {
                    let g = obj_get(jv_members(ms@), "data"@);
                    let gelems = g->0->Arr_0;
                    assert(gelems == evs);
                    assert(!(forall|k: int| 0 <= k < gelems.len()
                        ==> IResponse::spec_ok(#[trigger] gelems[k]))) by {
                        assert(!IResponse::spec_ok(gelems[i as int]));
                    }
                }
                return Result::Err(e);
            },
        }
        i = i + 1;
    }
    Result::Ok(Option::Some(items))
}

/// The path of this endpoint under the API root.
pub open spec fn lp_withdrawal_deposit_url() -> Seq<char> {
    root_url() + "/defi/liquidity-pools/withdrawals-deposits"@
}

/// Prepares one call: the fixed URL, the three fixed headers with the
/// caller's bearer token, and — when a request is given — the canonical
/// serialization of its sentinel-filtered fields.
pub fn lp_withdrawal_deposit(request: Option<&LpWithdrawalDepositRequest>, api_key: &str) -> (r: PreparedCall)
    ensures
        r.url@ == lp_withdrawal_deposit_url(),
        headers_model(r.headers@) == spec_headers(api_key@),
        match request {
            Option::None => r.body is None,
            Option::Some(req) => r.body matches Option::Some(b)
                && b@ == ser_val(JVal::Obj(req.spec_members())),
        },
{
    let url = hellomoon_root_url().to_owned().concat("/defi/liquidity-pools/withdrawals-deposits");
    prepare_call(url, api_key, request)
}

impl crate::decode::ResponseEnvelope for LpWithdrawalDepositResponse {
    open spec fn env_ok(v: JVal) -> bool {
        LpWithdrawalDepositResponse::spec_ok(v)
    }

    open spec fn env_matches(self, v: JVal) -> bool {
        self.matches_doc(v)
    }

    fn env_from_json(doc: &Json) -> Result<Self, DecodeError> {
        LpWithdrawalDepositResponse::from_json(doc)
    }

    proof fn lemma_empty_envelope() {
        let ms = crate::decode::empty_envelope()->Obj_0;
        reveal_strlit("data");
        reveal_strlit("paginationToken");
        assert("data"@.len() == 4);
        assert("paginationToken"@.len() == 15);
        crate::fields::lemma_obj_get_index(ms, 0);
        crate::fields::lemma_obj_get_index(ms, 1);
    }
}

/// Decodes one response body: `Syntax` when the body is not valid JSON,
/// `Shape` when it does not fit the envelope, the typed response
/// otherwise.
pub fn lp_withdrawal_deposit_decode(body: &str) -> (r: Result<LpWithdrawalDepositResponse, DecodeError>)
    ensures
        match spec_parse(body@) {
            Option::None => r == Result::<LpWithdrawalDepositResponse, DecodeError>::Err(DecodeError::Syntax),
            Option::Some(v) => match r {
                Result::Ok(resp) => LpWithdrawalDepositResponse::spec_ok(v) && resp.matches_doc(v),
                Result::Err(e) => e == DecodeError::Shape && !LpWithdrawalDepositResponse::spec_ok(v),
            },
        },
{
    crate::decode::decode_body::<LpWithdrawalDepositResponse>(body)
}

} // verus!
