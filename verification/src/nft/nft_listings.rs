//! NFT listings, `POST <root>/nft/listings`.

use vstd::prelude::*;

use crate::call::{PreparedCall, headers_model, hellomoon_root_url, prepare_call, root_url, spec_headers};
use crate::decode::{get_opt_string, get_opt_u64, spec_opt_string, spec_opt_u64, DecodeError};
use crate::fields::{
    obj_get, opt_count, opt_doc, opt_text, push_count, push_doc, push_text, put_doc_field,
    put_str_field, put_u64_field,
};
use crate::json::{
    JVal, Json, jv, jv_members, jv_opt_str, jv_opt_u64, jv_seq, jwf, lemma_jv_seq, o_str, o_u64,
    ser_val, wf,
};
use crate::parse::spec_parse;

verus! {
broadcast use vstd::seq::group_seq_axioms, vstd::std_specs::vec::group_vec_axioms;

/// The listing action asked about.
#[derive(Debug, PartialEq, Eq, Clone, Copy)]
pub enum InstructionName {
    Ask,
    CancleAsk,
    PutForSale,
    SaleCancel,
}

impl InstructionName {
    /// The variant's wire form.
    pub open spec fn spec_doc(self) -> JVal {
        match self {
            InstructionName::Ask => JVal::Str("ask"@),
            InstructionName::CancleAsk => JVal::Str("cancel_ask"@),
            InstructionName::PutForSale => JVal::Str("put_for_sale"@),
            InstructionName::SaleCancel => JVal::Str("sale_cancel"@),
        }
    }

    pub fn to_json(&self) -> (r: Json)
        ensures
            jv(r) == self.spec_doc(),
            jwf(r),
    {
        match self {
            InstructionName::Ask => Json::Str("ask".to_owned()),
            InstructionName::CancleAsk => Json::Str("cancel_ask".to_owned()),
            InstructionName::PutForSale => Json::Str("put_for_sale".to_owned()),
            InstructionName::SaleCancel => Json::Str("sale_cancel".to_owned()),
        }
    }
}

/// A marketplace the service supports.
#[derive(Debug, PartialEq, Eq, Clone, Copy)]
pub enum Market {
    Mev1,
    Mev2,
    Solanart,
    Smb,
    Yawww,
}

impl Market {
    /// The variant's wire form.
    pub open spec fn spec_doc(self) -> JVal {
        match self {
            Market::Mev1 => JVal::Str("MEv1"@),
            Market::Mev2 => JVal::Str("MEv2"@),
            Market::Solanart => JVal::Str("Solanart"@),
            Market::Smb => JVal::Str("SMB"@),
            Market::Yawww => JVal::Str("Yawww"@),
        }
    }

    pub fn to_json(&self) -> (r: Json)
        ensures
            jv(r) == self.spec_doc(),
            jwf(r),
    {
        match self {
            Market::Mev1 => Json::Str("MEv1".to_owned()),
            Market::Mev2 => Json::Str("MEv2".to_owned()),
            Market::Solanart => Json::Str("Solanart".to_owned()),
            Market::Smb => Json::Str("SMB".to_owned()),
            Market::Yawww => Json::Str("Yawww".to_owned()),
        }
    }
}

/// What to ask the listings endpoint for.
pub struct NftListingsRequest {
    pub hello_moon_collection_id: String,
    pub instruction_name: Option<InstructionName>,
    pub transaction_id: String,
    pub block_id: Option<usize>,
    pub nft_mint: String,
    pub market: Option<Market>,
    pub block_time: Option<usize>,
    pub limit: usize,
    pub page: usize,
    pub pagination_token: String,
}

impl NftListingsRequest {
    /// The members of the serialized request body, in declaration order,
    /// sentinel fields omitted.
    pub open spec fn spec_members(self) -> Seq<(Seq<char>, JVal)> {
        opt_text("helloMoonCollectionId"@, self.hello_moon_collection_id@)
            + opt_doc("instructionName"@, match self.instruction_name {
                Option::Some(e) => Option::Some(e.spec_doc()),
                Option::None => Option::None,
            })
            + opt_text("transactionId"@, self.transaction_id@)
            + opt_doc("blockId"@, match self.block_id {
                Option::Some(u) => Option::Some(JVal::Int(u as int)),
                Option::None => Option::None,
            })
            + opt_text("nftMint"@, self.nft_mint@)
            + opt_doc("market"@, match self.market {
                Option::Some(e) => Option::Some(e.spec_doc()),
                Option::None => Option::None,
            })
            + opt_doc("blockTime"@, match self.block_time {
                Option::Some(u) => Option::Some(JVal::Int(u as int)),
                Option::None => Option::None,
            })
            + opt_count("limit"@, self.limit as int)
            + opt_count("page"@, self.page as int)
            + opt_text("paginationToken"@, self.pagination_token@)
    }

    /// Serializes the request body.
    pub fn to_json(&self) -> (r: Json)
        ensures
            jv(r) == JVal::Obj(self.spec_members()),
            jwf(r),
    {
        let mut out: Vec<(String, Json)> = Vec::new();
        proof {
            assert(jv_members(out@) =~= Seq::<(Seq<char>, JVal)>::empty());
        }
        push_text(&mut out, "helloMoonCollectionId", &self.hello_moon_collection_id);
        let instruction_name_doc: Option<Json> = match &self.instruction_name {
            Option::Some(e) => Option::Some(e.to_json()),
            Option::None => Option::None,
        };
        push_doc(&mut out, "instructionName", instruction_name_doc);
        push_text(&mut out, "transactionId", &self.transaction_id);
        let block_id_doc: Option<Json> = match self.block_id {
            Option::Some(u) => Option::Some(Json::UInt(u as u64)),
            Option::None => Option::None,
        };
        push_doc(&mut out, "blockId", block_id_doc);
        push_text(&mut out, "nftMint", &self.nft_mint);
        let market_doc: Option<Json> = match &self.market {
            Option::Some(e) => Option::Some(e.to_json()),
            Option::None => Option::None,
        };
        push_doc(&mut out, "market", market_doc);
        let block_time_doc: Option<Json> = match self.block_time {
            Option::Some(u) => Option::Some(Json::UInt(u as u64)),
            Option::None => Option::None,
        };
        push_doc(&mut out, "blockTime", block_time_doc);
        push_count(&mut out, "limit", self.limit);
        push_count(&mut out, "page", self.page);
        push_text(&mut out, "paginationToken", &self.pagination_token);
        proof {
            assert(jv_members(out@) =~= self.spec_members());
        }
        Json::Obj(out)
    }
}

impl crate::call::RequestShape for NftListingsRequest {
    open spec fn req_members(self) -> Seq<(Seq<char>, JVal)> {
        self.spec_members()
    }

    fn req_to_json(&self) -> (r: Json) {
        self.to_json()
    }
}

impl NftListingsRequest {
    /// Sentinel omission: each field stands in the serialized object
    /// exactly when its value is not the sentinel, under its wire name,
    /// with its serialized value; a sentinel field's name is absent.
    #[verifier::rlimit(100)]
    pub proof fn lemma_sentinel_omission(self)
        ensures
            obj_get(self.spec_members(), "helloMoonCollectionId"@) == (if self.hello_moon_collection_id@.len() > 0 {
                Option::Some(JVal::Str(self.hello_moon_collection_id@))
            } else {
                Option::<JVal>::None
            }),
            obj_get(self.spec_members(), "instructionName"@) == (match self.instruction_name {
                Option::Some(e) => Option::Some(e.spec_doc()),
                Option::None => Option::<JVal>::None,
            }),
            obj_get(self.spec_members(), "transactionId"@) == (if self.transaction_id@.len() > 0 {
                Option::Some(JVal::Str(self.transaction_id@))
            } else {
                Option::<JVal>::None
            }),
            obj_get(self.spec_members(), "blockId"@) == (match self.block_id {
                Option::Some(u) => Option::Some(JVal::Int(u as int)),
                Option::None => Option::<JVal>::None,
            }),
            obj_get(self.spec_members(), "nftMint"@) == (if self.nft_mint@.len() > 0 {
                Option::Some(JVal::Str(self.nft_mint@))
            } else {
                Option::<JVal>::None
            }),
            obj_get(self.spec_members(), "market"@) == (match self.market {
                Option::Some(e) => Option::Some(e.spec_doc()),
                Option::None => Option::<JVal>::None,
            }),
            obj_get(self.spec_members(), "blockTime"@) == (match self.block_time {
                Option::Some(u) => Option::Some(JVal::Int(u as int)),
                Option::None => Option::<JVal>::None,
            }),
            obj_get(self.spec_members(), "limit"@) == (if self.limit > 0 {
                Option::Some(JVal::Int(self.limit as int))
            } else {
                Option::<JVal>::None
            }),
            obj_get(self.spec_members(), "page"@) == (if self.page > 0 {
                Option::Some(JVal::Int(self.page as int))
            } else {
                Option::<JVal>::None
            }),
            obj_get(self.spec_members(), "paginationToken"@) == (if self.pagination_token@.len() > 0 {
                Option::Some(JVal::Str(self.pagination_token@))
            } else {
                Option::<JVal>::None
            }),
    {
        reveal_strlit("blockId");
        reveal_strlit("blockTime");
        reveal_strlit("helloMoonCollectionId");
        reveal_strlit("instructionName");
        reveal_strlit("limit");
        reveal_strlit("market");
        reveal_strlit("nftMint");
        reveal_strlit("page");
        reveal_strlit("paginationToken");
        reveal_strlit("transactionId");
        assert("blockId"@.len() == 7);
        assert("blockTime"@.len() == 9);
        assert("helloMoonCollectionId"@.len() == 21);
        assert("instructionName"@.len() == 15);
        assert("limit"@.len() == 5);
        assert("market"@.len() == 6);
        assert("nftMint"@.len() == 7);
        assert("page"@.len() == 4);
        assert("paginationToken"@.len() == 15);
        assert("transactionId"@.len() == 13);
        assert("blockId"@[0] == 'b');
        assert("instructionName"@[0] == 'i');
        assert("nftMint"@[0] == 'n');
        assert("paginationToken"@[0] == 'p');
        let s1 = crate::fields::seg("helloMoonCollectionId"@, self.hello_moon_collection_id@.len() > 0, JVal::Str(self.hello_moon_collection_id@));
        let s2 = crate::fields::seg("instructionName"@, self.instruction_name is Some, if self.instruction_name is Some { self.instruction_name->0.spec_doc() } else { JVal::Null });
        let s3 = crate::fields::seg("transactionId"@, self.transaction_id@.len() > 0, JVal::Str(self.transaction_id@));
        let s4 = crate::fields::seg("blockId"@, self.block_id is Some, if self.block_id is Some { JVal::Int(self.block_id->0 as int) } else { JVal::Null });
        let s5 = crate::fields::seg("nftMint"@, self.nft_mint@.len() > 0, JVal::Str(self.nft_mint@));
        let s6 = crate::fields::seg("market"@, self.market is Some, if self.market is Some { self.market->0.spec_doc() } else { JVal::Null });
        let s7 = crate::fields::seg("blockTime"@, self.block_time is Some, if self.block_time is Some { JVal::Int(self.block_time->0 as int) } else { JVal::Null });
        let s8 = crate::fields::seg("limit"@, self.limit > 0, JVal::Int(self.limit as int));
        let s9 = crate::fields::seg("page"@, self.page > 0, JVal::Int(self.page as int));
        let s10 = crate::fields::seg("paginationToken"@, self.pagination_token@.len() > 0, JVal::Str(self.pagination_token@));
        assert(self.spec_members() =~= s1 + s2 + s3 + s4 + s5 + s6 + s7 + s8 + s9 + s10);
        crate::fields::lemma_seg_get_any("helloMoonCollectionId"@, self.hello_moon_collection_id@.len() > 0, JVal::Str(self.hello_moon_collection_id@));
        crate::fields::lemma_seg_get_any("instructionName"@, self.instruction_name is Some, if self.instruction_name is Some { self.instruction_name->0.spec_doc() } else { JVal::Null });
        crate::fields::lemma_seg_get_any("transactionId"@, self.transaction_id@.len() > 0, JVal::Str(self.transaction_id@));
        crate::fields::lemma_seg_get_any("blockId"@, self.block_id is Some, if self.block_id is Some { JVal::Int(self.block_id->0 as int) } else { JVal::Null });
        crate::fields::lemma_seg_get_any("nftMint"@, self.nft_mint@.len() > 0, JVal::Str(self.nft_mint@));
        crate::fields::lemma_seg_get_any("market"@, self.market is Some, if self.market is Some { self.market->0.spec_doc() } else { JVal::Null });
        crate::fields::lemma_seg_get_any("blockTime"@, self.block_time is Some, if self.block_time is Some { JVal::Int(self.block_time->0 as int) } else { JVal::Null });
        crate::fields::lemma_seg_get_any("limit"@, self.limit > 0, JVal::Int(self.limit as int));
        crate::fields::lemma_seg_get_any("page"@, self.page > 0, JVal::Int(self.page as int));
        crate::fields::lemma_seg_get_any("paginationToken"@, self.pagination_token@.len() > 0, JVal::Str(self.pagination_token@));
        crate::fields::lemma_obj_get_concat(s1 + s2 + s3 + s4 + s5 + s6 + s7 + s8 + s9, s10, "helloMoonCollectionId"@);
        crate::fields::lemma_obj_get_concat(s1 + s2 + s3 + s4 + s5 + s6 + s7 + s8, s9, "helloMoonCollectionId"@);
        crate::fields::lemma_obj_get_concat(s1 + s2 + s3 + s4 + s5 + s6 + s7, s8, "helloMoonCollectionId"@);
        crate::fields::lemma_obj_get_concat(s1 + s2 + s3 + s4 + s5 + s6, s7, "helloMoonCollectionId"@);
        crate::fields::lemma_obj_get_concat(s1 + s2 + s3 + s4 + s5, s6, "helloMoonCollectionId"@);
        crate::fields::lemma_obj_get_concat(s1 + s2 + s3 + s4, s5, "helloMoonCollectionId"@);
        crate::fields::lemma_obj_get_concat(s1 + s2 + s3, s4, "helloMoonCollectionId"@);
        crate::fields::lemma_obj_get_concat(s1 + s2, s3, "helloMoonCollectionId"@);
        crate::fields::lemma_obj_get_concat(s1, s2, "helloMoonCollectionId"@);
        crate::fields::lemma_obj_get_concat(s1 + s2 + s3 + s4 + s5 + s6 + s7 + s8 + s9, s10, "instructionName"@);
        crate::fields::lemma_obj_get_concat(s1 + s2 + s3 + s4 + s5 + s6 + s7 + s8, s9, "instructionName"@);
        crate::fields::lemma_obj_get_concat(s1 + s2 + s3 + s4 + s5 + s6 + s7, s8, "instructionName"@);
        crate::fields::lemma_obj_get_concat(s1 + s2 + s3 + s4 + s5 + s6, s7, "instructionName"@);
        crate::fields::lemma_obj_get_concat(s1 + s2 + s3 + s4 + s5, s6, "instructionName"@);
        crate::fields::lemma_obj_get_concat(s1 + s2 + s3 + s4, s5, "instructionName"@);
        crate::fields::lemma_obj_get_concat(s1 + s2 + s3, s4, "instructionName"@);
        crate::fields::lemma_obj_get_concat(s1 + s2, s3, "instructionName"@);
        crate::fields::lemma_obj_get_concat(s1, s2, "instructionName"@);
        crate::fields::lemma_obj_get_concat(s1 + s2 + s3 + s4 + s5 + s6 + s7 + s8 + s9, s10, "transactionId"@);
        crate::fields::lemma_obj_get_concat(s1 + s2 + s3 + s4 + s5 + s6 + s7 + s8, s9, "transactionId"@);
        crate::fields::lemma_obj_get_concat(s1 + s2 + s3 + s4 + s5 + s6 + s7, s8, "transactionId"@);
        crate::fields::lemma_obj_get_concat(s1 + s2 + s3 + s4 + s5 + s6, s7, "transactionId"@);
        crate::fields::lemma_obj_get_concat(s1 + s2 + s3 + s4 + s5, s6, "transactionId"@);
        crate::fields::lemma_obj_get_concat(s1 + s2 + s3 + s4, s5, "transactionId"@);
        crate::fields::lemma_obj_get_concat(s1 + s2 + s3, s4, "transactionId"@);
        crate::fields::lemma_obj_get_concat(s1 + s2, s3, "transactionId"@);
        crate::fields::lemma_obj_get_concat(s1, s2, "transactionId"@);
        crate::fields::lemma_obj_get_concat(s1 + s2 + s3 + s4 + s5 + s6 + s7 + s8 + s9, s10, "blockId"@);
        crate::fields::lemma_obj_get_concat(s1 + s2 + s3 + s4 + s5 + s6 + s7 + s8, s9, "blockId"@);
        crate::fields::lemma_obj_get_concat(s1 + s2 + s3 + s4 + s5 + s6 + s7, s8, "blockId"@);
        crate::fields::lemma_obj_get_concat(s1 + s2 + s3 + s4 + s5 + s6, s7, "blockId"@);
        crate::fields::lemma_obj_get_concat(s1 + s2 + s3 + s4 + s5, s6, "blockId"@);
        crate::fields::lemma_obj_get_concat(s1 + s2 + s3 + s4, s5, "blockId"@);
        crate::fields::lemma_obj_get_concat(s1 + s2 + s3, s4, "blockId"@);
        crate::fields::lemma_obj_get_concat(s1 + s2, s3, "blockId"@);
        crate::fields::lemma_obj_get_concat(s1, s2, "blockId"@);
        crate::fields::lemma_obj_get_concat(s1 + s2 + s3 + s4 + s5 + s6 + s7 + s8 + s9, s10, "nftMint"@);
        crate::fields::lemma_obj_get_concat(s1 + s2 + s3 + s4 + s5 + s6 + s7 + s8, s9, "nftMint"@);
        crate::fields::lemma_obj_get_concat(s1 + s2 + s3 + s4 + s5 + s6 + s7, s8, "nftMint"@);
        crate::fields::lemma_obj_get_concat(s1 + s2 + s3 + s4 + s5 + s6, s7, "nftMint"@);
        crate::fields::lemma_obj_get_concat(s1 + s2 + s3 + s4 + s5, s6, "nftMint"@);
        crate::fields::lemma_obj_get_concat(s1 + s2 + s3 + s4, s5, "nftMint"@);
        crate::fields::lemma_obj_get_concat(s1 + s2 + s3, s4, "nftMint"@);
        crate::fields::lemma_obj_get_concat(s1 + s2, s3, "nftMint"@);
        crate::fields::lemma_obj_get_concat(s1, s2, "nftMint"@);
        crate::fields::lemma_obj_get_concat(s1 + s2 + s3 + s4 + s5 + s6 + s7 + s8 + s9, s10, "market"@);
        crate::fields::lemma_obj_get_concat(s1 + s2 + s3 + s4 + s5 + s6 + s7 + s8, s9, "market"@);
        crate::fields::lemma_obj_get_concat(s1 + s2 + s3 + s4 + s5 + s6 + s7, s8, "market"@);
        crate::fields::lemma_obj_get_concat(s1 + s2 + s3 + s4 + s5 + s6, s7, "market"@);
        crate::fields::lemma_obj_get_concat(s1 + s2 + s3 + s4 + s5, s6, "market"@);
        crate::fields::lemma_obj_get_concat(s1 + s2 + s3 + s4, s5, "market"@);
        crate::fields::lemma_obj_get_concat(s1 + s2 + s3, s4, "market"@);
        crate::fields::lemma_obj_get_concat(s1 + s2, s3, "market"@);
        crate::fields::lemma_obj_get_concat(s1, s2, "market"@);
        crate::fields::lemma_obj_get_concat(s1 + s2 + s3 + s4 + s5 + s6 + s7 + s8 + s9, s10, "blockTime"@);
        crate::fields::lemma_obj_get_concat(s1 + s2 + s3 + s4 + s5 + s6 + s7 + s8, s9, "blockTime"@);
        crate::fields::lemma_obj_get_concat(s1 + s2 + s3 + s4 + s5 + s6 + s7, s8, "blockTime"@);
        crate::fields::lemma_obj_get_concat(s1 + s2 + s3 + s4 + s5 + s6, s7, "blockTime"@);
        crate::fields::lemma_obj_get_concat(s1 + s2 + s3 + s4 + s5, s6, "blockTime"@);
        crate::fields::lemma_obj_get_concat(s1 + s2 + s3 + s4, s5, "blockTime"@);
        crate::fields::lemma_obj_get_concat(s1 + s2 + s3, s4, "blockTime"@);
        crate::fields::lemma_obj_get_concat(s1 + s2, s3, "blockTime"@);
        crate::fields::lemma_obj_get_concat(s1, s2, "blockTime"@);
        crate::fields::lemma_obj_get_concat(s1 + s2 + s3 + s4 + s5 + s6 + s7 + s8 + s9, s10, "limit"@);
        crate::fields::lemma_obj_get_concat(s1 + s2 + s3 + s4 + s5 + s6 + s7 + s8, s9, "limit"@);
        crate::fields::lemma_obj_get_concat(s1 + s2 + s3 + s4 + s5 + s6 + s7, s8, "limit"@);
        crate::fields::lemma_obj_get_concat(s1 + s2 + s3 + s4 + s5 + s6, s7, "limit"@);
        crate::fields::lemma_obj_get_concat(s1 + s2 + s3 + s4 + s5, s6, "limit"@);
        crate::fields::lemma_obj_get_concat(s1 + s2 + s3 + s4, s5, "limit"@);
        crate::fields::lemma_obj_get_concat(s1 + s2 + s3, s4, "limit"@);
        crate::fields::lemma_obj_get_concat(s1 + s2, s3, "limit"@);
        crate::fields::lemma_obj_get_concat(s1, s2, "limit"@);
        crate::fields::lemma_obj_get_concat(s1 + s2 + s3 + s4 + s5 + s6 + s7 + s8 + s9, s10, "page"@);
        crate::fields::lemma_obj_get_concat(s1 + s2 + s3 + s4 + s5 + s6 + s7 + s8, s9, "page"@);
        crate::fields::lemma_obj_get_concat(s1 + s2 + s3 + s4 + s5 + s6 + s7, s8, "page"@);
        crate::fields::lemma_obj_get_concat(s1 + s2 + s3 + s4 + s5 + s6, s7, "page"@);
        crate::fields::lemma_obj_get_concat(s1 + s2 + s3 + s4 + s5, s6, "page"@);
        crate::fields::lemma_obj_get_concat(s1 + s2 + s3 + s4, s5, "page"@);
        crate::fields::lemma_obj_get_concat(s1 + s2 + s3, s4, "page"@);
        crate::fields::lemma_obj_get_concat(s1 + s2, s3, "page"@);
        crate::fields::lemma_obj_get_concat(s1, s2, "page"@);
        crate::fields::lemma_obj_get_concat(s1 + s2 + s3 + s4 + s5 + s6 + s7 + s8 + s9, s10, "paginationToken"@);
        crate::fields::lemma_obj_get_concat(s1 + s2 + s3 + s4 + s5 + s6 + s7 + s8, s9, "paginationToken"@);
        crate::fields::lemma_obj_get_concat(s1 + s2 + s3 + s4 + s5 + s6 + s7, s8, "paginationToken"@);
        crate::fields::lemma_obj_get_concat(s1 + s2 + s3 + s4 + s5 + s6, s7, "paginationToken"@);
        crate::fields::lemma_obj_get_concat(s1 + s2 + s3 + s4 + s5, s6, "paginationToken"@);
        crate::fields::lemma_obj_get_concat(s1 + s2 + s3 + s4, s5, "paginationToken"@);
        crate::fields::lemma_obj_get_concat(s1 + s2 + s3, s4, "paginationToken"@);
        crate::fields::lemma_obj_get_concat(s1 + s2, s3, "paginationToken"@);
        crate::fields::lemma_obj_get_concat(s1, s2, "paginationToken"@);
    }
}

impl Default for NftListingsRequest {
    fn default() -> (r: Self)
        ensures
            r.hello_moon_collection_id@ == Seq::<char>::empty(),
            r.instruction_name is None,
            r.transaction_id@ == Seq::<char>::empty(),
            r.block_id is None,
            r.nft_mint@ == Seq::<char>::empty(),
            r.market is None,
            r.block_time is None,
            r.limit == 0,
            r.page == 0,
            r.pagination_token@ == Seq::<char>::empty(),
    {
        NftListingsRequest {
            hello_moon_collection_id: String::new(),
            instruction_name: Option::None,
            transaction_id: String::new(),
            block_id: Option::None,
            nft_mint: String::new(),
            market: Option::None,
            block_time: Option::None,
            limit: 0,
            page: 0,
            pagination_token: String::new(),
        }
    }
}

/// One listing record.
#[derive(Debug, PartialEq, Eq)]
pub struct NftListings {
    pub hello_moon_collection_id: Option<String>,
    pub instruction_name: Option<String>,
    pub nft_mint: Option<String>,
    pub market: Option<String>,
    pub price: Option<String>,
    pub block_time: Option<String>,
    pub block_id: Option<String>,
    pub transaction_position: Option<u64>,
    pub instruction_ordinal: Option<u64>,
    pub transaction_id: Option<String>,
}

impl NftListings {
    /// Whether a document fits this shape.
    pub open spec fn spec_ok(v: JVal) -> bool {
        v matches JVal::Obj(ms) && {
            &&& spec_opt_string(ms, "helloMoonCollectionId"@) is Ok
            &&& spec_opt_string(ms, "instructionName"@) is Ok
            &&& spec_opt_string(ms, "nftMint"@) is Ok
            &&& spec_opt_string(ms, "market"@) is Ok
            &&& spec_opt_string(ms, "price"@) is Ok
            &&& spec_opt_string(ms, "blockTime"@) is Ok
            &&& spec_opt_string(ms, "blockId"@) is Ok
            &&& spec_opt_u64(ms, "transactionPosition"@) is Ok
            &&& spec_opt_u64(ms, "instructionOrdinal"@) is Ok
            &&& spec_opt_string(ms, "transactionId"@) is Ok
        }
    }

    /// Whether this value is what the document decodes to.
    pub open spec fn matches_doc(self, v: JVal) -> bool {
        v matches JVal::Obj(ms) && {
            &&& spec_opt_string(ms, "helloMoonCollectionId"@) == Result::<Option<Seq<char>>, ()>::Ok(o_str(self.hello_moon_collection_id))
            &&& spec_opt_string(ms, "instructionName"@) == Result::<Option<Seq<char>>, ()>::Ok(o_str(self.instruction_name))
            &&& spec_opt_string(ms, "nftMint"@) == Result::<Option<Seq<char>>, ()>::Ok(o_str(self.nft_mint))
            &&& spec_opt_string(ms, "market"@) == Result::<Option<Seq<char>>, ()>::Ok(o_str(self.market))
            &&& spec_opt_string(ms, "price"@) == Result::<Option<Seq<char>>, ()>::Ok(o_str(self.price))
            &&& spec_opt_string(ms, "blockTime"@) == Result::<Option<Seq<char>>, ()>::Ok(o_str(self.block_time))
            &&& spec_opt_string(ms, "blockId"@) == Result::<Option<Seq<char>>, ()>::Ok(o_str(self.block_id))
            &&& spec_opt_u64(ms, "transactionPosition"@) == Result::<Option<int>, ()>::Ok(o_u64(self.transaction_position))
            &&& spec_opt_u64(ms, "instructionOrdinal"@) == Result::<Option<int>, ()>::Ok(o_u64(self.instruction_ordinal))
            &&& spec_opt_string(ms, "transactionId"@) == Result::<Option<Seq<char>>, ()>::Ok(o_str(self.transaction_id))
        }
    }

    /// Well-formedness: number fields hold canonical values.
    pub open spec fn inv(self) -> bool {
        true
    }

    /// Reads one record out of a document.
    pub fn from_json(doc: &Json) -> (r: Result<Self, DecodeError>)
        requires
            jwf(*doc),
        ensures
            match r {
                Result::Ok(it) => Self::spec_ok(jv(*doc)) && it.matches_doc(jv(*doc)) && it.inv(),
                Result::Err(e) => e == DecodeError::Shape && !Self::spec_ok(jv(*doc)),
            },
    {
        let ms = match doc {
            Json::Obj(ms) => ms,
            _ => {
                return Result::Err(DecodeError::Shape);
            },
        };
        let hello_moon_collection_id = match get_opt_string(ms, "helloMoonCollectionId") {
            Result::Ok(o) => o,
            Result::Err(e) => {
                return Result::Err(e);
            },
        };
        let instruction_name = match get_opt_string(ms, "instructionName") {
            Result::Ok(o) => o,
            Result::Err(e) => {
                return Result::Err(e);
            },
        };
        let nft_mint = match get_opt_string(ms, "nftMint") {
            Result::Ok(o) => o,
            Result::Err(e) => {
                return Result::Err(e);
            },
        };
        let market = match get_opt_string(ms, "market") {
            Result::Ok(o) => o,
            Result::Err(e) => {
                return Result::Err(e);
            },
        };
        let price = match get_opt_string(ms, "price") {
            Result::Ok(o) => o,
            Result::Err(e) => {
                return Result::Err(e);
            },
        };
        let block_time = match get_opt_string(ms, "blockTime") {
            Result::Ok(o) => o,
            Result::Err(e) => {
                return Result::Err(e);
            },
        };
        let block_id = match get_opt_string(ms, "blockId") {
            Result::Ok(o) => o,
            Result::Err(e) => {
                return Result::Err(e);
            },
        };
        let transaction_position = match get_opt_u64(ms, "transactionPosition") {
            Result::Ok(o) => o,
            Result::Err(e) => {
                return Result::Err(e);
            },
        };
        let instruction_ordinal = match get_opt_u64(ms, "instructionOrdinal") {
            Result::Ok(o) => o,
            Result::Err(e) => {
                return Result::Err(e);
            },
        };
        let transaction_id = match get_opt_string(ms, "transactionId") {
            Result::Ok(o) => o,
            Result::Err(e) => {
                return Result::Err(e);
            },
        };
        Result::Ok(NftListings { hello_moon_collection_id, instruction_name, nft_mint, market, price, block_time, block_id, transaction_position, instruction_ordinal, transaction_id })
    }

    /// The canonical document of this value: every field written, `null`
    /// for absent ones, in declaration order.
    pub open spec fn spec_doc(self) -> JVal {
        JVal::Obj(seq![
            ("helloMoonCollectionId"@, jv_opt_str(self.hello_moon_collection_id)),
            ("instructionName"@, jv_opt_str(self.instruction_name)),
            ("nftMint"@, jv_opt_str(self.nft_mint)),
            ("market"@, jv_opt_str(self.market)),
            ("price"@, jv_opt_str(self.price)),
            ("blockTime"@, jv_opt_str(self.block_time)),
            ("blockId"@, jv_opt_str(self.block_id)),
            ("transactionPosition"@, jv_opt_u64(self.transaction_position)),
            ("instructionOrdinal"@, jv_opt_u64(self.instruction_ordinal)),
            ("transactionId"@, jv_opt_str(self.transaction_id)),
        ])
    }

    /// Serializes this value to its canonical document.
    pub fn to_json(&self) -> (r: Json)
        ensures
            jv(r) == self.spec_doc(),
            jwf(r),
    {
        let mut out: Vec<(String, Json)> = Vec::new();
        proof {
            assert(jv_members(out@) =~= Seq::<(Seq<char>, JVal)>::empty());
        }
        put_str_field(&mut out, "helloMoonCollectionId", &self.hello_moon_collection_id);
        put_str_field(&mut out, "instructionName", &self.instruction_name);
        put_str_field(&mut out, "nftMint", &self.nft_mint);
        put_str_field(&mut out, "market", &self.market);
        put_str_field(&mut out, "price", &self.price);
        put_str_field(&mut out, "blockTime", &self.block_time);
        put_str_field(&mut out, "blockId", &self.block_id);
        put_u64_field(&mut out, "transactionPosition", &self.transaction_position);
        put_u64_field(&mut out, "instructionOrdinal", &self.instruction_ordinal);
        put_str_field(&mut out, "transactionId", &self.transaction_id);
        proof {
            assert(jv_members(out@) =~= self.spec_doc()->Obj_0);
        }
        Json::Obj(out)
    }

    /// Decoding the canonical document gives the value back.
    pub proof fn lemma_roundtrip(self)
        ensures
            Self::spec_ok(self.spec_doc()),
            self.matches_doc(self.spec_doc()),
    {
        let ms = self.spec_doc()->Obj_0;
    reveal_strlit("blockId");
    reveal_strlit("blockTime");
    reveal_strlit("helloMoonCollectionId");
    reveal_strlit("instructionName");
    reveal_strlit("instructionOrdinal");
    reveal_strlit("market");
    reveal_strlit("nftMint");
    reveal_strlit("price");
    reveal_strlit("transactionId");
    reveal_strlit("transactionPosition");
    assert("blockId"@.len() == 7);
    assert("blockTime"@.len() == 9);
    assert("helloMoonCollectionId"@.len() == 21);
    assert("instructionName"@.len() == 15);
    assert("instructionOrdinal"@.len() == 18);
    assert("market"@.len() == 6);
    assert("nftMint"@.len() == 7);
    assert("price"@.len() == 5);
    assert("transactionId"@.len() == 13);
    assert("transactionPosition"@.len() == 19);
    assert("blockId"@[0] == 'b');
    assert("nftMint"@[0] == 'n');
    crate::fields::lemma_obj_get_index(ms, 0);
    crate::fields::lemma_obj_get_index(ms, 1);
    crate::fields::lemma_obj_get_index(ms, 2);
    crate::fields::lemma_obj_get_index(ms, 3);
    crate::fields::lemma_obj_get_index(ms, 4);
    crate::fields::lemma_obj_get_index(ms, 5);
    crate::fields::lemma_obj_get_index(ms, 6);
    crate::fields::lemma_obj_get_index(ms, 7);
    crate::fields::lemma_obj_get_index(ms, 8);
    crate::fields::lemma_obj_get_index(ms, 9);
    }

    /// The canonical document is well formed.
    pub proof fn lemma_spec_doc_wf(self)
        ensures
            wf(self.spec_doc()),
    {
        let ms = self.spec_doc()->Obj_0;
        assert forall|k: int| 0 <= k < ms.len() implies wf(#[trigger] ms[k].1) by {}
    }
}

/// The response envelope: an optional run of records and an optional
/// continuation token.
#[derive(Debug, PartialEq, Eq)]
pub struct NftListingsResponse {
    pub data: Option<Vec<NftListings>>,
    pub pagination_token: Option<String>,
}

impl NftListingsResponse {
    /// Whether a document fits the envelope's shape.
    pub open spec fn spec_ok(v: JVal) -> bool {
        v matches JVal::Obj(ms) && {
            &&& spec_opt_string(ms, "paginationToken"@) is Ok
            &&& match obj_get(ms, "data"@) {
                Option::None => true,
                Option::Some(JVal::Null) => true,
                Option::Some(JVal::Arr(elems)) => forall|k: int| 0 <= k < elems.len()
                    ==> NftListings::spec_ok(#[trigger] elems[k]),
                Option::Some(_) => false,
            }
        }
    }

    /// Whether this value is what the document decodes to.
    pub open spec fn matches_doc(self, v: JVal) -> bool {
        v matches JVal::Obj(ms) && {
            &&& spec_opt_string(ms, "paginationToken"@) == Result::<Option<Seq<char>>, ()>::Ok(o_str(self.pagination_token))
            &&& match obj_get(ms, "data"@) {
                Option::None => self.data is None,
                Option::Some(JVal::Null) => self.data is None,
                Option::Some(JVal::Arr(elems)) => self.data matches Option::Some(items)
                    && items@.len() == elems.len()
                    && (forall|k: int| 0 <= k < elems.len()
                        ==> (#[trigger] items@[k]).matches_doc(elems[k])),
                Option::Some(_) => false,
            }
        }
    }

    /// Well-formedness of the held records.
    pub open spec fn inv(self) -> bool {
        match self.data {
            Option::Some(items) => forall|k: int| 0 <= k < items@.len() ==> (#[trigger] items@[k]).inv(),
            Option::None => true,
        }
    }

    /// Reads the envelope out of a document.
    pub fn from_json(doc: &Json) -> (r: Result<Self, DecodeError>)
        requires
            jwf(*doc),
        ensures
            match r {
                Result::Ok(resp) => Self::spec_ok(jv(*doc)) && resp.matches_doc(jv(*doc)) && resp.inv(),
                Result::Err(e) => e == DecodeError::Shape && !Self::spec_ok(jv(*doc)),
            },
    {
        let ms = match doc {
            Json::Obj(ms) => ms,
            _ => {
                return Result::Err(DecodeError::Shape);
            },
        };
        proof {
            assert(jv(*doc) == JVal::Obj(jv_members(ms@)));
        }
        let pagination_token = match get_opt_string(ms, "paginationToken") {
            Result::Ok(o) => o,
            Result::Err(e) => {
                return Result::Err(e);
            },
        };
        let data = match decode_data(ms) {
            Result::Ok(o) => o,
            Result::Err(e) => {
                return Result::Err(e);
            },
        };
        Result::Ok(NftListingsResponse { data, pagination_token })
    }

    /// The canonical document of this envelope.
    pub open spec fn spec_doc(self) -> JVal {
        JVal::Obj(seq![
            ("data"@, match self.data {
                Option::None => JVal::Null,
                Option::Some(items) => JVal::Arr(items@.map_values(|it: NftListings| it.spec_doc())),
            }),
            ("paginationToken"@, jv_opt_str(self.pagination_token)),
        ])
    }

    /// Serializes this envelope to its canonical document.
    pub fn to_json(&self) -> (r: Json)
        requires
            self.inv(),
        ensures
            jv(r) == self.spec_doc(),
            jwf(r),
    {
        let mut out: Vec<(String, Json)> = Vec::new();
        proof {
            assert(jv_members(out@) =~= Seq::<(Seq<char>, JVal)>::empty());
        }
        let data_doc: Json = match &self.data {
            Option::None => Json::Null,
            Option::Some(items) => {
                let ghost docs_s = items@.map_values(|it: NftListings| it.spec_doc());
                let n: usize = items.len();
                let mut docs: Vec<Json> = Vec::new();
                let mut i: usize = 0;
                proof {
                    assert(jv_seq(docs@) =~= docs_s.take(0));
                    assert(forall|k: int| 0 <= k < items@.len() ==> (#[trigger] items@[k]).inv());
                }
                while i < n
                    invariant
                        i <= n,
                        n == items@.len(),
                        docs_s == items@.map_values(|it: NftListings| it.spec_doc()),
                        docs_s.len() == n,
                        forall|k: int| 0 <= k < items@.len() ==> (#[trigger] items@[k]).inv(),
                        docs@.len() == i,
                        jv_seq(docs@) == docs_s.take(i as int),
                        forall|k: int| 0 <= k < docs@.len() ==> jwf(#[trigger] docs@[k]),
                    decreases n - i,
                {
                    let ghost docs0 = docs@;
                    let d = items[i].to_json();
                    docs.push(d);
                    proof {
                        crate::json::lemma_jv_seq_push(docs0, d);
                        assert(docs_s[i as int] == items@[i as int].spec_doc());
                        assert(docs_s.take(i + 1) =~= docs_s.take(i as int).push(docs_s[i as int]));
                        assert(jv_seq(docs@) =~= docs_s.take(i + 1));
                    }
                    i = i + 1;
                }
                proof {
                    assert(docs_s.take(n as int) =~= docs_s);
                }
                Json::Arr(docs)
            },
        };
        put_doc_field(&mut out, "data", data_doc);
        put_str_field(&mut out, "paginationToken", &self.pagination_token);
        proof {
            assert(jv_members(out@) =~= self.spec_doc()->Obj_0);
        }
        Json::Obj(out)
    }

    /// Decoding the canonical document gives the envelope back.
    pub proof fn lemma_roundtrip(self)
        ensures
            Self::spec_ok(self.spec_doc()),
            self.matches_doc(self.spec_doc()),
    {
        let ms = self.spec_doc()->Obj_0;
        reveal_strlit("data");
        reveal_strlit("paginationToken");
        assert("data"@.len() == 4);
        assert("paginationToken"@.len() == 15);
        crate::fields::lemma_obj_get_index(ms, 0);
        crate::fields::lemma_obj_get_index(ms, 1);
        match self.data {
            Option::Some(items) => {
                let docs = items@.map_values(|it: NftListings| it.spec_doc());
                assert forall|k: int| 0 <= k < docs.len() implies NftListings::spec_ok(#[trigger] docs[k]) by {
                    assert(docs[k] == items@[k].spec_doc());
                    items@[k].lemma_roundtrip();
                }
                assert forall|k: int| 0 <= k < items@.len() implies (#[trigger] items@[k]).matches_doc(docs[k]) by {
                    assert(docs[k] == items@[k].spec_doc());
                    items@[k].lemma_roundtrip();
                }
            },
            Option::None => {},
        }
    }

    /// The canonical document is well formed.
    pub proof fn lemma_spec_doc_wf(self)
        ensures
            wf(self.spec_doc()),
    {
        let ms = self.spec_doc()->Obj_0;
        match self.data {
            Option::Some(items) => {
                let docs = items@.map_values(|it: NftListings| it.spec_doc());
                assert forall|k: int| 0 <= k < docs.len() implies wf(#[trigger] docs[k]) by {
                    assert(docs[k] == items@[k].spec_doc());
                    items@[k].lemma_spec_doc_wf();
                }
                assert(wf(ms[0].1));
            },
            Option::None => {},
        }
        assert forall|k: int| 0 <= k < ms.len() implies wf(#[trigger] ms[k].1) by {}
    }

    /// Round trip through the wire: the rendered text of the canonical
    /// document parses back to it, and decoding it yields exactly this
    /// envelope's values.
    pub proof fn lemma_text_roundtrip(self)
        ensures
            spec_parse(ser_val(self.spec_doc())) == Some(self.spec_doc()),
            Self::spec_ok(self.spec_doc()),
            self.matches_doc(self.spec_doc()),
    {
        self.lemma_spec_doc_wf();
        crate::roundtrip::lemma_parse_render(self.spec_doc());
        self.lemma_roundtrip();
    }
}

/// Reads the optional `data` array of records.
fn decode_data(ms: &Vec<(String, Json)>) -> (r: Result<Option<Vec<NftListings>>, DecodeError>)
    requires
        forall|k: int| 0 <= k < ms@.len() ==> jwf((#[trigger] ms@[k]).1),
    ensures
        match r {
            Result::Ok(o) => match obj_get(jv_members(ms@), "data"@) {
                Option::None => o is None,
                Option::Some(JVal::Null) => o is None,
                Option::Some(JVal::Arr(elems)) => o matches Option::Some(items)
                    && items@.len() == elems.len()
                    && (forall|k: int| 0 <= k < elems.len()
                        ==> NftListings::spec_ok(#[trigger] elems[k]))
                    && (forall|k: int| 0 <= k < elems.len()
                        ==> (#[trigger] items@[k]).matches_doc(elems[k]))
                    && (forall|k: int| 0 <= k < items@.len() ==> (#[trigger] items@[k]).inv()),
                Option::Some(_) => false,
            },
            Result::Err(e) => e == DecodeError::Shape && match obj_get(jv_members(ms@), "data"@) {
                Option::None => false,
                Option::Some(JVal::Null) => false,
                Option::Some(JVal::Arr(elems)) => !(forall|k: int| 0 <= k < elems.len()
                    ==> NftListings::spec_ok(#[trigger] elems[k])),
                Option::Some(_) => true,
            },
        },
{
    let arr = match crate::decode::lookup_member(ms, "data") {
        Option::None => {
            return Result::Ok(Option::None);
        },
        Option::Some(j) => match j {
            Json::Null => {
                return Result::Ok(Option::None);
            },
            Json::Arr(elems) => elems,
            _ => {
                return Result::Err(DecodeError::Shape);
            },
        },
    };
    let ghost evs = jv_seq(arr@);
    proof {
        lemma_jv_seq(arr@);
    }
    let n: usize = arr.len();
    let mut items: Vec<NftListings> = Vec::new();
    let mut i: usize = 0;
    while i < n
        invariant
            i <= n,
            n == arr@.len(),
            obj_get(jv_members(ms@), "data"@) == Some(JVal::Arr(evs)),
            evs == jv_seq(arr@),
            evs.len() == n,
            forall|k: int| 0 <= k < n ==> evs[k] == jv(#[trigger] arr@[k]),
            forall|k: int| 0 <= k < n ==> jwf(#[trigger] arr@[k]),
            items@.len() == i,
            forall|k: int| 0 <= k < i ==> NftListings::spec_ok(#[trigger] evs[k]),
            forall|k: int| 0 <= k < i ==> (#[trigger] items@[k]).matches_doc(evs[k]),
            forall|k: int| 0 <= k < items@.len() ==> (#[trigger] items@[k]).inv(),
        decreases n - i,
    {
        match NftListings::from_json(&arr[i]) {
            Result::Ok(it) => {
                items.push(it);
            },
            Result::Err(e) => {
                proof {
                    let g = obj_get(jv_members(ms@), "data"@);
                    let gelems = g->0->Arr_0;
                    assert(gelems == evs);
                    assert(!(forall|k: int| 0 <= k < gelems.len()
                        ==> NftListings::spec_ok(#[trigger] gelems[k]))) by {
                        assert(!NftListings::spec_ok(gelems[i as int]));
                    }
                }
                return Result::Err(e);
            },
        }
        i = i + 1;
    }
    Result::Ok(Option::Some(items))
}

/// The path of this endpoint under the API root.
pub open spec fn nft_listings_url() -> Seq<char> {
    root_url() + "/nft/listings"@
}

/// Prepares one call: the fixed URL, the three fixed headers with the
/// caller's bearer token, and — when a request is given — the canonical
/// serialization of its sentinel-filtered fields.
pub fn nft_listings(api_key: &str, request: Option<&NftListingsRequest>) -> (r: PreparedCall)
    ensures
        r.url@ == nft_listings_url(),
        headers_model(r.headers@) == spec_headers(api_key@),
        match request {
            Option::None => r.body is None,
            Option::Some(req) => r.body matches Option::Some(b)
                && b@ == ser_val(JVal::Obj(req.spec_members())),
        },
{
    let url = hellomoon_root_url().to_owned().concat("/nft/listings");
    prepare_call(url, api_key, request)
}

impl crate::decode::ResponseEnvelope for NftListingsResponse {
    open spec fn env_ok(v: JVal) -> bool {
        NftListingsResponse::spec_ok(v)
    }

    open spec fn env_matches(self, v: JVal) -> bool {
        self.matches_doc(v)
    }

    fn env_from_json(doc: &Json) -> Result<Self, DecodeError> {
        NftListingsResponse::from_json(doc)
    }

    proof fn lemma_empty_envelope() {
        let ms = crate::decode::empty_envelope()->Obj_0;
        reveal_strlit("data");
        reveal_strlit("paginationToken");
        assert("data"@.len() == 4);
        assert("paginationToken"@.len() == 15);
        crate::fields::lemma_obj_get_index(ms, 0);
        crate::fields::lemma_obj_get_index(ms, 1);
    }
}

/// Decodes one response body: `Syntax` when the body is not valid JSON,
/// `Shape` when it does not fit the envelope, the typed response
/// otherwise.
pub fn nft_listings_decode(body: &str) -> (r: Result<NftListingsResponse, DecodeError>)
    ensures
        match spec_parse(body@) {
            Option::None => r == Result::<NftListingsResponse, DecodeError>::Err(DecodeError::Syntax),
            Option::Some(v) => match r {
                Result::Ok(resp) => NftListingsResponse::spec_ok(v) && resp.matches_doc(v),
                Result::Err(e) => e == DecodeError::Shape && !NftListingsResponse::spec_ok(v),
            },
        },
{
    crate::decode::decode_body::<NftListingsResponse>(body)
}

} // verus!
