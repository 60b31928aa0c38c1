//! NFT secondary sales, `POST <root>/nft/sales/secondary`.

use vstd::prelude::*;

use crate::call::{PreparedCall, headers_model, hellomoon_root_url, prepare_call, root_url, spec_headers};
use crate::decode::{get_opt_string, spec_opt_string, DecodeError};
use crate::fields::{
    obj_get, opt_count, opt_doc, opt_text, push_count, push_doc, push_text, put_doc_field,
    put_str_field,
};
use crate::json::{
    JVal, Json, jv, jv_members, jv_opt_str, jv_seq, jwf, lemma_jv_seq, o_str, ser_val, wf,
};
use crate::parse::spec_parse;

verus! {
broadcast use vstd::seq::group_seq_axioms, vstd::std_specs::vec::group_vec_axioms;

/// A marketplace the service tracks sales on.
#[derive(Debug, PartialEq, Eq, Clone, Copy)]
pub enum Marketplace {
    Smb,
    Mev1,
    Mev2,
    Yawww,
    Elixir,
    Solsea,
    Opensea,
    Solanart,
    Hadeswap,
    Coralcube,
    CoralCube,
    ExchangeArt,
}

impl Marketplace {
    /// The variant's wire form.
    pub open spec fn spec_doc(self) -> JVal {
        match self {
            Marketplace::Smb => JVal::Str("SMB"@),
            Marketplace::Mev1 => JVal::Str("ME_V1"@),
            Marketplace::Mev2 => JVal::Str("ME_V2"@),
            Marketplace::Yawww => JVal::Str("YAWWW"@),
            Marketplace::Elixir => JVal::Str("ELIXIR"@),
            Marketplace::Solsea => JVal::Str("SOLSEA"@),
            Marketplace::Opensea => JVal::Str("OPENSEA"@),
            Marketplace::Solanart => JVal::Str("SOLANART"@),
            Marketplace::Hadeswap => JVal::Str("HADESWAP"@),
            Marketplace::Coralcube => JVal::Str("CORALCUBE"@),
            Marketplace::CoralCube => JVal::Str("CORAL_CUBE"@),
            Marketplace::ExchangeArt => JVal::Str("Exchange.art"@),
        }
    }

    pub fn to_json(&self) -> (r: Json)
        ensures
            jv(r) == self.spec_doc(),
            jwf(r),
    {
        match self {
            Marketplace::Smb => Json::Str("SMB".to_owned()),
            Marketplace::Mev1 => Json::Str("ME_V1".to_owned()),
            Marketplace::Mev2 => Json::Str("ME_V2".to_owned()),
            Marketplace::Yawww => Json::Str("YAWWW".to_owned()),
            Marketplace::Elixir => Json::Str("ELIXIR".to_owned()),
            Marketplace::Solsea => Json::Str("SOLSEA".to_owned()),
            Marketplace::Opensea => Json::Str("OPENSEA".to_owned()),
            Marketplace::Solanart => Json::Str("SOLANART".to_owned()),
            Marketplace::Hadeswap => Json::Str("HADESWAP".to_owned()),
            Marketplace::Coralcube => Json::Str("CORALCUBE".to_owned()),
            Marketplace::CoralCube => Json::Str("CORAL_CUBE".to_owned()),
            Marketplace::ExchangeArt => Json::Str("Exchange.art".to_owned()),
        }
    }
}

impl Default for Marketplace {
    fn default() -> (r: Self)
        ensures
            r == Marketplace::Elixir,
    {
        Marketplace::Elixir
    }
}

/// What to ask the secondary-sales endpoint for.
pub struct SecondarySalesRequest {
    pub hello_moon_collection_id: String,
    pub nft_mint: String,
    pub buyer: String,
    pub seller: String,
    pub marketplace: Option<Marketplace>,
    pub price: String,
    pub block_time: String,
    pub block_id: String,
    pub limit: usize,
    pub page: usize,
    pub pagination_token: String,
}

impl SecondarySalesRequest {
    /// The members of the serialized request body, in declaration order,
    /// sentinel fields omitted.
    pub open spec fn spec_members(self) -> Seq<(Seq<char>, JVal)> {
        opt_text("helloMoonCollectionId"@, self.hello_moon_collection_id@)
            + opt_text("nftMint"@, self.nft_mint@)
            + opt_text("buyer"@, self.buyer@)
            + opt_text("seller"@, self.seller@)
            + opt_doc("marketplace"@, match self.marketplace {
                Option::Some(e) => Option::Some(e.spec_doc()),
                Option::None => Option::None,
            })
            + opt_text("price"@, self.price@)
            + opt_text("blockTime"@, self.block_time@)
            + opt_text("blockId"@, self.block_id@)
            + opt_count("limit"@, self.limit as int)
            + opt_count("page"@, self.page as int)
            + opt_text("paginationToken"@, self.pagination_token@)
    }

    /// Serializes the request body.
    pub fn to_json(&self) -> (r: Json)
        ensures
            jv(r) == JVal::Obj(self.spec_members()),
            jwf(r),
    {
        let mut out: Vec<(String, Json)> = Vec::new();
        proof {
            assert(jv_members(out@) =~= Seq::<(Seq<char>, JVal)>::empty());
        }
        push_text(&mut out, "helloMoonCollectionId", &self.hello_moon_collection_id);
        push_text(&mut out, "nftMint", &self.nft_mint);
        push_text(&mut out, "buyer", &self.buyer);
        push_text(&mut out, "seller", &self.seller);
        let marketplace_doc: Option<Json> = match &self.marketplace {
            Option::Some(e) => Option::Some(e.to_json()),
            Option::None => Option::None,
        };
        push_doc(&mut out, "marketplace", marketplace_doc);
        push_text(&mut out, "price", &self.price);
        push_text(&mut out, "blockTime", &self.block_time);
        push_text(&mut out, "blockId", &self.block_id);
        push_count(&mut out, "limit", self.limit);
        push_count(&mut out, "page", self.page);
        push_text(&mut out, "paginationToken", &self.pagination_token);
        proof {
            assert(jv_members(out@) =~= self.spec_members());
        }
        Json::Obj(out)
    }
}

impl crate::call::RequestShape for SecondarySalesRequest {
    open spec fn req_members(self) -> Seq<(Seq<char>, JVal)> {
        self.spec_members()
    }

    fn req_to_json(&self) -> (r: Json) {
        self.to_json()
    }
}

impl SecondarySalesRequest {
    /// Sentinel omission: each field stands in the serialized object
    /// exactly when its value is not the sentinel, under its wire name,
    /// with its serialized value; a sentinel field's name is absent.
    #[verifier::rlimit(100)]
    pub proof fn lemma_sentinel_omission(self)
        ensures
            obj_get(self.spec_members(), "helloMoonCollectionId"@) == (if self.hello_moon_collection_id@.len() > 0 {
                Option::Some(JVal::Str(self.hello_moon_collection_id@))
            } else {
                Option::<JVal>::None
            }),
            obj_get(self.spec_members(), "nftMint"@) == (if self.nft_mint@.len() > 0 {
                Option::Some(JVal::Str(self.nft_mint@))
            } else {
                Option::<JVal>::None
            }),
            obj_get(self.spec_members(), "buyer"@) == (if self.buyer@.len() > 0 {
                Option::Some(JVal::Str(self.buyer@))
            } else {
                Option::<JVal>::None
            }),
            obj_get(self.spec_members(), "seller"@) == (if self.seller@.len() > 0 {
                Option::Some(JVal::Str(self.seller@))
            } else {
                Option::<JVal>::None
            }),
            obj_get(self.spec_members(), "marketplace"@) == (match self.marketplace {
                Option::Some(e) => Option::Some(e.spec_doc()),
                Option::None => Option::<JVal>::None,
            }),
            obj_get(self.spec_members(), "price"@) == (if self.price@.len() > 0 {
                Option::Some(JVal::Str(self.price@))
            } else {
                Option::<JVal>::None
            }),
            obj_get(self.spec_members(), "blockTime"@) == (if self.block_time@.len() > 0 {
                Option::Some(JVal::Str(self.block_time@))
            } else {
                Option::<JVal>::None
            }),
            obj_get(self.spec_members(), "blockId"@) == (if self.block_id@.len() > 0 {
                Option::Some(JVal::Str(self.block_id@))
            } else {
                Option::<JVal>::None
            }),
            obj_get(self.spec_members(), "limit"@) == (if self.limit > 0 {
                Option::Some(JVal::Int(self.limit as int))
            } else {
                Option::<JVal>::None
            }),
            obj_get(self.spec_members(), "page"@) == (if self.page > 0 {
                Option::Some(JVal::Int(self.page as int))
            } else {
                Option::<JVal>::None
            }),
            obj_get(self.spec_members(), "paginationToken"@) == (if self.pagination_token@.len() > 0 {
                Option::Some(JVal::Str(self.pagination_token@))
            } else {
                Option::<JVal>::None
            }),
    {
        reveal_strlit("blockId");
        reveal_strlit("blockTime");
        reveal_strlit("buyer");
        reveal_strlit("helloMoonCollectionId");
        reveal_strlit("limit");
        reveal_strlit("marketplace");
        reveal_strlit("nftMint");
        reveal_strlit("page");
        reveal_strlit("paginationToken");
        reveal_strlit("price");
        reveal_strlit("seller");
        assert("blockId"@.len() == 7);
        assert("blockTime"@.len() == 9);
        assert("buyer"@.len() == 5);
        assert("helloMoonCollectionId"@.len() == 21);
        assert("limit"@.len() == 5);
        assert("marketplace"@.len() == 11);
        assert("nftMint"@.len() == 7);
        assert("page"@.len() == 4);
        assert("paginationToken"@.len() == 15);
        assert("price"@.len() == 5);
        assert("seller"@.len() == 6);
        assert("blockId"@[0] == 'b');
        assert("buyer"@[0] == 'b');
        assert("limit"@[0] == 'l');
        assert("nftMint"@[0] == 'n');
        assert("price"@[0] == 'p');
        let s1 = crate::fields::seg("helloMoonCollectionId"@, self.hello_moon_collection_id@.len() > 0, JVal::Str(self.hello_moon_collection_id@));
        let s2 = crate::fields::seg("nftMint"@, self.nft_mint@.len() > 0, JVal::Str(self.nft_mint@));
        let s3 = crate::fields::seg("buyer"@, self.buyer@.len() > 0, JVal::Str(self.buyer@));
        let s4 = crate::fields::seg("seller"@, self.seller@.len() > 0, JVal::Str(self.seller@));
        let s5 = crate::fields::seg("marketplace"@, self.marketplace is Some, if self.marketplace is Some { self.marketplace->0.spec_doc() } else { JVal::Null });
        let s6 = crate::fields::seg("price"@, self.price@.len() > 0, JVal::Str(self.price@));
        let s7 = crate::fields::seg("blockTime"@, self.block_time@.len() > 0, JVal::Str(self.block_time@));
        let s8 = crate::fields::seg("blockId"@, self.block_id@.len() > 0, JVal::Str(self.block_id@));
        let s9 = crate::fields::seg("limit"@, self.limit > 0, JVal::Int(self.limit as int));
        let s10 = crate::fields::seg("page"@, self.page > 0, JVal::Int(self.page as int));
        let s11 = crate::fields::seg("paginationToken"@, self.pagination_token@.len() > 0, JVal::Str(self.pagination_token@));
        assert(self.spec_members() =~= s1 + s2 + s3 + s4 + s5 + s6 + s7 + s8 + s9 + s10 + s11);
        crate::fields::lemma_seg_get_any("helloMoonCollectionId"@, self.hello_moon_collection_id@.len() > 0, JVal::Str(self.hello_moon_collection_id@));
        crate::fields::lemma_seg_get_any("nftMint"@, self.nft_mint@.len() > 0, JVal::Str(self.nft_mint@));
        crate::fields::lemma_seg_get_any("buyer"@, self.buyer@.len() > 0, JVal::Str(self.buyer@));
        crate::fields::lemma_seg_get_any("seller"@, self.seller@.len() > 0, JVal::Str(self.seller@));
        crate::fields::lemma_seg_get_any("marketplace"@, self.marketplace is Some, if self.marketplace is Some { self.marketplace->0.spec_doc() } else { JVal::Null });
        crate::fields::lemma_seg_get_any("price"@, self.price@.len() > 0, JVal::Str(self.price@));
        crate::fields::lemma_seg_get_any("blockTime"@, self.block_time@.len() > 0, JVal::Str(self.block_time@));
        crate::fields::lemma_seg_get_any("blockId"@, self.block_id@.len() > 0, JVal::Str(self.block_id@));
        crate::fields::lemma_seg_get_any("limit"@, self.limit > 0, JVal::Int(self.limit as int));
        crate::fields::lemma_seg_get_any("page"@, self.page > 0, JVal::Int(self.page as int));
        crate::fields::lemma_seg_get_any("paginationToken"@, self.pagination_token@.len() > 0, JVal::Str(self.pagination_token@));
        crate::fields::lemma_obj_get_concat(s1 + s2 + s3 + s4 + s5 + s6 + s7 + s8 + s9 + s10, s11, "helloMoonCollectionId"@);
        crate::fields::lemma_obj_get_concat(s1 + s2 + s3 + s4 + s5 + s6 + s7 + s8 + s9, s10, "helloMoonCollectionId"@);
        crate::fields::lemma_obj_get_concat(s1 + s2 + s3 + s4 + s5 + s6 + s7 + s8, s9, "helloMoonCollectionId"@);
        crate::fields::lemma_obj_get_concat(s1 + s2 + s3 + s4 + s5 + s6 + s7, s8, "helloMoonCollectionId"@);
        crate::fields::lemma_obj_get_concat(s1 + s2 + s3 + s4 + s5 + s6, s7, "helloMoonCollectionId"@);
        crate::fields::lemma_obj_get_concat(s1 + s2 + s3 + s4 + s5, s6, "helloMoonCollectionId"@);
        crate::fields::lemma_obj_get_concat(s1 + s2 + s3 + s4, s5, "helloMoonCollectionId"@);
        crate::fields::lemma_obj_get_concat(s1 + s2 + s3, s4, "helloMoonCollectionId"@);
        crate::fields::lemma_obj_get_concat(s1 + s2, s3, "helloMoonCollectionId"@);
        crate::fields::lemma_obj_get_concat(s1, s2, "helloMoonCollectionId"@);
        crate::fields::lemma_obj_get_concat(s1 + s2 + s3 + s4 + s5 + s6 + s7 + s8 + s9 + s10, s11, "nftMint"@);
        crate::fields::lemma_obj_get_concat(s1 + s2 + s3 + s4 + s5 + s6 + s7 + s8 + s9, s10, "nftMint"@);
        crate::fields::lemma_obj_get_concat(s1 + s2 + s3 + s4 + s5 + s6 + s7 + s8, s9, "nftMint"@);
        crate::fields::lemma_obj_get_concat(s1 + s2 + s3 + s4 + s5 + s6 + s7, s8, "nftMint"@);
        crate::fields::lemma_obj_get_concat(s1 + s2 + s3 + s4 + s5 + s6, s7, "nftMint"@);
        crate::fields::lemma_obj_get_concat(s1 + s2 + s3 + s4 + s5, s6, "nftMint"@);
        crate::fields::lemma_obj_get_concat(s1 + s2 + s3 + s4, s5, "nftMint"@);
        crate::fields::lemma_obj_get_concat(s1 + s2 + s3, s4, "nftMint"@);
        crate::fields::lemma_obj_get_concat(s1 + s2, s3, "nftMint"@);
        crate::fields::lemma_obj_get_concat(s1, s2, "nftMint"@);
        crate::fields::lemma_obj_get_concat(s1 + s2 + s3 + s4 + s5 + s6 + s7 + s8 + s9 + s10, s11, "buyer"@);
        crate::fields::lemma_obj_get_concat(s1 + s2 + s3 + s4 + s5 + s6 + s7 + s8 + s9, s10, "buyer"@);
        crate::fields::lemma_obj_get_concat(s1 + s2 + s3 + s4 + s5 + s6 + s7 + s8, s9, "buyer"@);
        crate::fields::lemma_obj_get_concat(s1 + s2 + s3 + s4 + s5 + s6 + s7, s8, "buyer"@);
        crate::fields::lemma_obj_get_concat(s1 + s2 + s3 + s4 + s5 + s6, s7, "buyer"@);
        crate::fields::lemma_obj_get_concat(s1 + s2 + s3 + s4 + s5, s6, "buyer"@);
        crate::fields::lemma_obj_get_concat(s1 + s2 + s3 + s4, s5, "buyer"@);
        crate::fields::lemma_obj_get_concat(s1 + s2 + s3, s4, "buyer"@);
        crate::fields::lemma_obj_get_concat(s1 + s2, s3, "buyer"@);
        crate::fields::lemma_obj_get_concat(s1, s2, "buyer"@);
        crate::fields::lemma_obj_get_concat(s1 + s2 + s3 + s4 + s5 + s6 + s7 + s8 + s9 + s10, s11, "seller"@);
        crate::fields::lemma_obj_get_concat(s1 + s2 + s3 + s4 + s5 + s6 + s7 + s8 + s9, s10, "seller"@);
        crate::fields::lemma_obj_get_concat(s1 + s2 + s3 + s4 + s5 + s6 + s7 + s8, s9, "seller"@);
        crate::fields::lemma_obj_get_concat(s1 + s2 + s3 + s4 + s5 + s6 + s7, s8, "seller"@);
        crate::fields::lemma_obj_get_concat(s1 + s2 + s3 + s4 + s5 + s6, s7, "seller"@);
        crate::fields::lemma_obj_get_concat(s1 + s2 + s3 + s4 + s5, s6, "seller"@);
        crate::fields::lemma_obj_get_concat(s1 + s2 + s3 + s4, s5, "seller"@);
        crate::fields::lemma_obj_get_concat(s1 + s2 + s3, s4, "seller"@);
        crate::fields::lemma_obj_get_concat(s1 + s2, s3, "seller"@);
        crate::fields::lemma_obj_get_concat(s1, s2, "seller"@);
        crate::fields::lemma_obj_get_concat(s1 + s2 + s3 + s4 + s5 + s6 + s7 + s8 + s9 + s10, s11, "marketplace"@);
        crate::fields::lemma_obj_get_concat(s1 + s2 + s3 + s4 + s5 + s6 + s7 + s8 + s9, s10, "marketplace"@);
        crate::fields::lemma_obj_get_concat(s1 + s2 + s3 + s4 + s5 + s6 + s7 + s8, s9, "marketplace"@);
        crate::fields::lemma_obj_get_concat(s1 + s2 + s3 + s4 + s5 + s6 + s7, s8, "marketplace"@);
        crate::fields::lemma_obj_get_concat(s1 + s2 + s3 + s4 + s5 + s6, s7, "marketplace"@);
        crate::fields::lemma_obj_get_concat(s1 + s2 + s3 + s4 + s5, s6, "marketplace"@);
        crate::fields::lemma_obj_get_concat(s1 + s2 + s3 + s4, s5, "marketplace"@);
        crate::fields::lemma_obj_get_concat(s1 + s2 + s3, s4, "marketplace"@);
        crate::fields::lemma_obj_get_concat(s1 + s2, s3, "marketplace"@);
        crate::fields::lemma_obj_get_concat(s1, s2, "marketplace"@);
        crate::fields::lemma_obj_get_concat(s1 + s2 + s3 + s4 + s5 + s6 + s7 + s8 + s9 + s10, s11, "price"@);
        crate::fields::lemma_obj_get_concat(s1 + s2 + s3 + s4 + s5 + s6 + s7 + s8 + s9, s10, "price"@);
        crate::fields::lemma_obj_get_concat(s1 + s2 + s3 + s4 + s5 + s6 + s7 + s8, s9, "price"@);
        crate::fields::lemma_obj_get_concat(s1 + s2 + s3 + s4 + s5 + s6 + s7, s8, "price"@);
        crate::fields::lemma_obj_get_concat(s1 + s2 + s3 + s4 + s5 + s6, s7, "price"@);
        crate::fields::lemma_obj_get_concat(s1 + s2 + s3 + s4 + s5, s6, "price"@);
        crate::fields::lemma_obj_get_concat(s1 + s2 + s3 + s4, s5, "price"@);
        crate::fields::lemma_obj_get_concat(s1 + s2 + s3, s4, "price"@);
        crate::fields::lemma_obj_get_concat(s1 + s2, s3, "price"@);
        crate::fields::lemma_obj_get_concat(s1, s2, "price"@);
        crate::fields::lemma_obj_get_concat(s1 + s2 + s3 + s4 + s5 + s6 + s7 + s8 + s9 + s10, s11, "blockTime"@);
        crate::fields::lemma_obj_get_concat(s1 + s2 + s3 + s4 + s5 + s6 + s7 + s8 + s9, s10, "blockTime"@);
        crate::fields::lemma_obj_get_concat(s1 + s2 + s3 + s4 + s5 + s6 + s7 + s8, s9, "blockTime"@);
        crate::fields::lemma_obj_get_concat(s1 + s2 + s3 + s4 + s5 + s6 + s7, s8, "blockTime"@);
        crate::fields::lemma_obj_get_concat(s1 + s2 + s3 + s4 + s5 + s6, s7, "blockTime"@);
        crate::fields::lemma_obj_get_concat(s1 + s2 + s3 + s4 + s5, s6, "blockTime"@);
        crate::fields::lemma_obj_get_concat(s1 + s2 + s3 + s4, s5, "blockTime"@);
        crate::fields::lemma_obj_get_concat(s1 + s2 + s3, s4, "blockTime"@);
        crate::fields::lemma_obj_get_concat(s1 + s2, s3, "blockTime"@);
        crate::fields::lemma_obj_get_concat(s1, s2, "blockTime"@);
        crate::fields::lemma_obj_get_concat(s1 + s2 + s3 + s4 + s5 + s6 + s7 + s8 + s9 + s10, s11, "blockId"@);
        crate::fields::lemma_obj_get_concat(s1 + s2 + s3 + s4 + s5 + s6 + s7 + s8 + s9, s10, "blockId"@);
        crate::fields::lemma_obj_get_concat(s1 + s2 + s3 + s4 + s5 + s6 + s7 + s8, s9, "blockId"@);
        crate::fields::lemma_obj_get_concat(s1 + s2 + s3 + s4 + s5 + s6 + s7, s8, "blockId"@);
        crate::fields::lemma_obj_get_concat(s1 + s2 + s3 + s4 + s5 + s6, s7, "blockId"@);
        crate::fields::lemma_obj_get_concat(s1 + s2 + s3 + s4 + s5, s6, "blockId"@);
        crate::fields::lemma_obj_get_concat(s1 + s2 + s3 + s4, s5, "blockId"@);
        crate::fields::lemma_obj_get_concat(s1 + s2 + s3, s4, "blockId"@);
        crate::fields::lemma_obj_get_concat(s1 + s2, s3, "blockId"@);
        crate::fields::lemma_obj_get_concat(s1, s2, "blockId"@);
        crate::fields::lemma_obj_get_concat(s1 + s2 + s3 + s4 + s5 + s6 + s7 + s8 + s9 + s10, s11, "limit"@);
        crate::fields::lemma_obj_get_concat(s1 + s2 + s3 + s4 + s5 + s6 + s7 + s8 + s9, s10, "limit"@);
        crate::fields::lemma_obj_get_concat(s1 + s2 + s3 + s4 + s5 + s6 + s7 + s8, s9, "limit"@);
        crate::fields::lemma_obj_get_concat(s1 + s2 + s3 + s4 + s5 + s6 + s7, s8, "limit"@);
        crate::fields::lemma_obj_get_concat(s1 + s2 + s3 + s4 + s5 + s6, s7, "limit"@);
        crate::fields::lemma_obj_get_concat(s1 + s2 + s3 + s4 + s5, s6, "limit"@);
        crate::fields::lemma_obj_get_concat(s1 + s2 + s3 + s4, s5, "limit"@);
        crate::fields::lemma_obj_get_concat(s1 + s2 + s3, s4, "limit"@);
        crate::fields::lemma_obj_get_concat(s1 + s2, s3, "limit"@);
        crate::fields::lemma_obj_get_concat(s1, s2, "limit"@);
        crate::fields::lemma_obj_get_concat(s1 + s2 + s3 + s4 + s5 + s6 + s7 + s8 + s9 + s10, s11, "page"@);
        crate::fields::lemma_obj_get_concat(s1 + s2 + s3 + s4 + s5 + s6 + s7 + s8 + s9, s10, "page"@);
        crate::fields::lemma_obj_get_concat(s1 + s2 + s3 + s4 + s5 + s6 + s7 + s8, s9, "page"@);
        crate::fields::lemma_obj_get_concat(s1 + s2 + s3 + s4 + s5 + s6 + s7, s8, "page"@);
        crate::fields::lemma_obj_get_concat(s1 + s2 + s3 + s4 + s5 + s6, s7, "page"@);
        crate::fields::lemma_obj_get_concat(s1 + s2 + s3 + s4 + s5, s6, "page"@);
        crate::fields::lemma_obj_get_concat(s1 + s2 + s3 + s4, s5, "page"@);
        crate::fields::lemma_obj_get_concat(s1 + s2 + s3, s4, "page"@);
        crate::fields::lemma_obj_get_concat(s1 + s2, s3, "page"@);
        crate::fields::lemma_obj_get_concat(s1, s2, "page"@);
        crate::fields::lemma_obj_get_concat(s1 + s2 + s3 + s4 + s5 + s6 + s7 + s8 + s9 + s10, s11, "paginationToken"@);
        crate::fields::lemma_obj_get_concat(s1 + s2 + s3 + s4 + s5 + s6 + s7 + s8 + s9, s10, "paginationToken"@);
        crate::fields::lemma_obj_get_concat(s1 + s2 + s3 + s4 + s5 + s6 + s7 + s8, s9, "paginationToken"@);
        crate::fields::lemma_obj_get_concat(s1 + s2 + s3 + s4 + s5 + s6 + s7, s8, "paginationToken"@);
        crate::fields::lemma_obj_get_concat(s1 + s2 + s3 + s4 + s5 + s6, s7, "paginationToken"@);
        crate::fields::lemma_obj_get_concat(s1 + s2 + s3 + s4 + s5, s6, "paginationToken"@);
        crate::fields::lemma_obj_get_concat(s1 + s2 + s3 + s4, s5, "paginationToken"@);
        crate::fields::lemma_obj_get_concat(s1 + s2 + s3, s4, "paginationToken"@);
        crate::fields::lemma_obj_get_concat(s1 + s2, s3, "paginationToken"@);
        crate::fields::lemma_obj_get_concat(s1, s2, "paginationToken"@);
    }
}

impl Default for SecondarySalesRequest {
    fn default() -> (r: Self)
        ensures
            r.hello_moon_collection_id@ == Seq::<char>::empty(),
            r.nft_mint@ == Seq::<char>::empty(),
            r.buyer@ == Seq::<char>::empty(),
            r.seller@ == Seq::<char>::empty(),
            r.marketplace is None,
            r.price@ == Seq::<char>::empty(),
            r.block_time@ == Seq::<char>::empty(),
            r.block_id@ == Seq::<char>::empty(),
            r.limit == 0,
            r.page == 0,
            r.pagination_token@ == Seq::<char>::empty(),
    {
        SecondarySalesRequest {
            hello_moon_collection_id: String::new(),
            nft_mint: String::new(),
            buyer: String::new(),
            seller: String::new(),
            marketplace: Option::None,
            price: String::new(),
            block_time: String::new(),
            block_id: String::new(),
            limit: 0,
            page: 0,
            pagination_token: String::new(),
        }
    }
}

/// One secondary sale.
#[derive(Debug, PartialEq, Eq)]
pub struct SecondarySales {
    pub block_id: Option<String>,
    pub marketplace: Option<String>,
    pub block_time: Option<String>,
    pub nft_mint: Option<String>,
    pub seller: Option<String>,
    pub buyer: Option<String>,
    pub price: Option<String>,
    pub transaction_id: Option<String>,
    pub hello_moon_collection_id: Option<String>,
}

impl SecondarySales {
    /// Whether a document fits this shape.
    pub open spec fn spec_ok(v: JVal) -> bool {
        v matches JVal::Obj(ms) && {
            &&& spec_opt_string(ms, "blockId"@) is Ok
            &&& spec_opt_string(ms, "marketplace"@) is Ok
            &&& spec_opt_string(ms, "blockTime"@) is Ok
            &&& spec_opt_string(ms, "nftMint"@) is Ok
            &&& spec_opt_string(ms, "seller"@) is Ok
            &&& spec_opt_string(ms, "buyer"@) is Ok
            &&& spec_opt_string(ms, "price"@) is Ok
            &&& spec_opt_string(ms, "transactionId"@) is Ok
            &&& spec_opt_string(ms, "helloMoonCollectionId"@) is Ok
        }
    }

    /// Whether this value is what the document decodes to.
    pub open spec fn matches_doc(self, v: JVal) -> bool {
        v matches JVal::Obj(ms) && {
            &&& spec_opt_string(ms, "blockId"@) == Result::<Option<Seq<char>>, ()>::Ok(o_str(self.block_id))
            &&& spec_opt_string(ms, "marketplace"@) == Result::<Option<Seq<char>>, ()>::Ok(o_str(self.marketplace))
            &&& spec_opt_string(ms, "blockTime"@) == Result::<Option<Seq<char>>, ()>::Ok(o_str(self.block_time))
            &&& spec_opt_string(ms, "nftMint"@) == Result::<Option<Seq<char>>, ()>::Ok(o_str(self.nft_mint))
            &&& spec_opt_string(ms, "seller"@) == Result::<Option<Seq<char>>, ()>::Ok(o_str(self.seller))
            &&& spec_opt_string(ms, "buyer"@) == Result::<Option<Seq<char>>, ()>::Ok(o_str(self.buyer))
            &&& spec_opt_string(ms, "price"@) == Result::<Option<Seq<char>>, ()>::Ok(o_str(self.price))
            &&& spec_opt_string(ms, "transactionId"@) == Result::<Option<Seq<char>>, ()>::Ok(o_str(self.transaction_id))
            &&& spec_opt_string(ms, "helloMoonCollectionId"@) == Result::<Option<Seq<char>>, ()>::Ok(o_str(self.hello_moon_collection_id))
        }
    }

    /// Well-formedness: number fields hold canonical values.
    pub open spec fn inv(self) -> bool {
        true
    }

    /// Reads one record out of a document.
    pub fn from_json(doc: &Json) -> (r: Result<Self, DecodeError>)
        requires
            jwf(*doc),
        ensures
            match r {
                Result::Ok(it) => Self::spec_ok(jv(*doc)) && it.matches_doc(jv(*doc)) && it.inv(),
                Result::Err(e) => e == DecodeError::Shape && !Self::spec_ok(jv(*doc)),
            },
    {
        let ms = match doc {
            Json::Obj(ms) => ms,
            _ => {
                return Result::Err(DecodeError::Shape);
            },
        };
        let block_id = match get_opt_string(ms, "blockId") {
            Result::Ok(o) => o,
            Result::Err(e) => {
                return Result::Err(e);
            },
        };
        let marketplace = match get_opt_string(ms, "marketplace") {
            Result::Ok(o) => o,
            Result::Err(e) => {
                return Result::Err(e);
            },
        };
        let block_time = match get_opt_string(ms, "blockTime") {
            Result::Ok(o) => o,
            Result::Err(e) => {
                return Result::Err(e);
            },
        };
        let nft_mint = match get_opt_string(ms, "nftMint") {
            Result::Ok(o) => o,
            Result::Err(e) => {
                return Result::Err(e);
            },
        };
        let seller = match get_opt_string(ms, "seller") {
            Result::Ok(o) => o,
            Result::Err(e) => {
                return Result::Err(e);
            },
        };
        let buyer = match get_opt_string(ms, "buyer") {
            Result::Ok(o) => o,
            Result::Err(e) => {
                return Result::Err(e);
            },
        };
        let price = match get_opt_string(ms, "price") {
            Result::Ok(o) => o,
            Result::Err(e) => {
                return Result::Err(e);
            },
        };
        let transaction_id = match get_opt_string(ms, "transactionId") {
            Result::Ok(o) => o,
            Result::Err(e) => {
                return Result::Err(e);
            },
        };
        let hello_moon_collection_id = match get_opt_string(ms, "helloMoonCollectionId") {
            Result::Ok(o) => o,
            Result::Err(e) => {
                return Result::Err(e);
            },
        };
        Result::Ok(SecondarySales { block_id, marketplace, block_time, nft_mint, seller, buyer, price, transaction_id, hello_moon_collection_id })
    }

    /// The canonical document of this value: every field written, `null`
    /// for absent ones, in declaration order.
    pub open spec fn spec_doc(self) -> JVal {
        JVal::Obj(seq![
            ("blockId"@, jv_opt_str(self.block_id)),
            ("marketplace"@, jv_opt_str(self.marketplace)),
            ("blockTime"@, jv_opt_str(self.block_time)),
            ("nftMint"@, jv_opt_str(self.nft_mint)),
            ("seller"@, jv_opt_str(self.seller)),
            ("buyer"@, jv_opt_str(self.buyer)),
            ("price"@, jv_opt_str(self.price)),
            ("transactionId"@, jv_opt_str(self.transaction_id)),
            ("helloMoonCollectionId"@, jv_opt_str(self.hello_moon_collection_id)),
        ])
    }

    /// Serializes this value to its canonical document.
    pub fn to_json(&self) -> (r: Json)
        ensures
            jv(r) == self.spec_doc(),
            jwf(r),
    {
        let mut out: Vec<(String, Json)> = Vec::new();
        proof {
            assert(jv_members(out@) =~= Seq::<(Seq<char>, JVal)>::empty());
        }
        put_str_field(&mut out, "blockId", &self.block_id);
        put_str_field(&mut out, "marketplace", &self.marketplace);
        put_str_field(&mut out, "blockTime", &self.block_time);
        put_str_field(&mut out, "nftMint", &self.nft_mint);
        put_str_field(&mut out, "seller", &self.seller);
        put_str_field(&mut out, "buyer", &self.buyer);
        put_str_field(&mut out, "price", &self.price);
        put_str_field(&mut out, "transactionId", &self.transaction_id);
        put_str_field(&mut out, "helloMoonCollectionId", &self.hello_moon_collection_id);
        proof {
            assert(jv_members(out@) =~= self.spec_doc()->Obj_0);
        }
        Json::Obj(out)
    }

    /// Decoding the canonical document gives the value back.
    pub proof fn lemma_roundtrip(self)
        ensures
            Self::spec_ok(self.spec_doc()),
            self.matches_doc(self.spec_doc()),
    {
        let ms = self.spec_doc()->Obj_0;
    reveal_strlit("blockId");
    reveal_strlit("blockTime");
    reveal_strlit("buyer");
    reveal_strlit("helloMoonCollectionId");
    reveal_strlit("marketplace");
    reveal_strlit("nftMint");
    reveal_strlit("price");
    reveal_strlit("seller");
    reveal_strlit("transactionId");
    assert("blockId"@.len() == 7);
    assert("blockTime"@.len() == 9);
    assert("buyer"@.len() == 5);
    assert("helloMoonCollectionId"@.len() == 21);
    assert("marketplace"@.len() == 11);
    assert("nftMint"@.len() == 7);
    assert("price"@.len() == 5);
    assert("seller"@.len() == 6);
    assert("transactionId"@.len() == 13);
    assert("blockId"@[0] == 'b');
    assert("buyer"@[0] == 'b');
    assert("nftMint"@[0] == 'n');
    assert("price"@[0] == 'p');
    crate::fields::lemma_obj_get_index(ms, 0);
    crate::fields::lemma_obj_get_index(ms, 1);
    crate::fields::lemma_obj_get_index(ms, 2);
    crate::fields::lemma_obj_get_index(ms, 3);
    crate::fields::lemma_obj_get_index(ms, 4);
    crate::fields::lemma_obj_get_index(ms, 5);
    crate::fields::lemma_obj_get_index(ms, 6);
    crate::fields::lemma_obj_get_index(ms, 7);
    crate::fields::lemma_obj_get_index(ms, 8);
    }

    /// The canonical document is well formed.
    pub proof fn lemma_spec_doc_wf(self)
        ensures
            wf(self.spec_doc()),
    {
        let ms = self.spec_doc()->Obj_0;
        assert forall|k: int| 0 <= k < ms.len() implies wf(#[trigger] ms[k].1) by {}
    }
}

/// The response envelope: an optional run of records and an optional
/// continuation token.
#[derive(Debug, PartialEq, Eq)]
pub struct SecondarySalesResponse {
    pub data: Option<Vec<SecondarySales>>,
    pub pagination_token: Option<String>,
}

impl SecondarySalesResponse {
    /// Whether a document fits the envelope's shape.
    pub open spec fn spec_ok(v: JVal) -> bool {
        v matches JVal::Obj(ms) && {
            &&& spec_opt_string(ms, "paginationToken"@) is Ok
            &&& match obj_get(ms, "data"@) {
                Option::None => true,
                Option::Some(JVal::Null) => true,
                Option::Some(JVal::Arr(elems)) => forall|k: int| 0 <= k < elems.len()
                    ==> SecondarySales::spec_ok(#[trigger] elems[k]),
                Option::Some(_) => false,
            }
        }
    }

    /// Whether this value is what the document decodes to.
    pub open spec fn matches_doc(self, v: JVal) -> bool {
        v matches JVal::Obj(ms) && {
            &&& spec_opt_string(ms, "paginationToken"@) == Result::<Option<Seq<char>>, ()>::Ok(o_str(self.pagination_token))
            &&& match obj_get(ms, "data"@) {
                Option::None => self.data is None,
                Option::Some(JVal::Null) => self.data is None,
                Option::Some(JVal::Arr(elems)) => self.data matches Option::Some(items)
                    && items@.len() == elems.len()
                    && (forall|k: int| 0 <= k < elems.len()
                        ==> (#[trigger] items@[k]).matches_doc(elems[k])),
                Option::Some(_) => false,
            }
        }
    }

    /// Well-formedness of the held records.
    pub open spec fn inv(self) -> bool {
        match self.data {
            Option::Some(items) => forall|k: int| 0 <= k < items@.len() ==> (#[trigger] items@[k]).inv(),
            Option::None => true,
        }
    }

    /// Reads the envelope out of a document.
    pub fn from_json(doc: &Json) -> (r: Result<Self, DecodeError>)
        requires
            jwf(*doc),
        ensures
            match r {
                Result::Ok(resp) => Self::spec_ok(jv(*doc)) && resp.matches_doc(jv(*doc)) && resp.inv(),
                Result::Err(e) => e == DecodeError::Shape && !Self::spec_ok(jv(*doc)),
            },
    {
        let ms = match doc {
            Json::Obj(ms) => ms,
            _ => {
                return Result::Err(DecodeError::Shape);
            },
        };
        proof {
            assert(jv(*doc) == JVal::Obj(jv_members(ms@)));
        }
        let pagination_token = match get_opt_string(ms, "paginationToken") {
            Result::Ok(o) => o,
            Result::Err(e) => {
                return Result::Err(e);
            },
        };
        let data = match decode_data(ms) {
            Result::Ok(o) => o,
            Result::Err(e) => {
                return Result::Err(e);
            },
        };
        Result::Ok(SecondarySalesResponse { data, pagination_token })
    }

    /// The canonical document of this envelope.
    pub open spec fn spec_doc(self) -> JVal {
        JVal::Obj(seq![
            ("data"@, match self.data {
                Option::None => JVal::Null,
                Option::Some(items) => JVal::Arr(items@.map_values(|it: SecondarySales| it.spec_doc())),
            }),
            ("paginationToken"@, jv_opt_str(self.pagination_token)),
        ])
    }

    /// Serializes this envelope to its canonical document.
    pub fn to_json(&self) -> (r: Json)
        requires
            self.inv(),
        ensures
            jv(r) == self.spec_doc(),
            jwf(r),
    {
        let mut out: Vec<(String, Json)> = Vec::new();
        proof {
            assert(jv_members(out@) =~= Seq::<(Seq<char>, JVal)>::empty());
        }
        let data_doc: Json = match &self.data {
            Option::None => Json::Null,
            Option::Some(items) => {
                let ghost docs_s = items@.map_values(|it: SecondarySales| it.spec_doc());
                let n: usize = items.len();
                let mut docs: Vec<Json> = Vec::new();
                let mut i: usize = 0;
                proof {
                    assert(jv_seq(docs@) =~= docs_s.take(0));
                    assert(forall|k: int| 0 <= k < items@.len() ==> (#[trigger] items@[k]).inv());
                }
                while i < n
                    invariant
                        i <= n,
                        n == items@.len(),
                        docs_s == items@.map_values(|it: SecondarySales| it.spec_doc()),
                        docs_s.len() == n,
                        forall|k: int| 0 <= k < items@.len() ==> (#[trigger] items@[k]).inv(),
                        docs@.len() == i,
                        jv_seq(docs@) == docs_s.take(i as int),
                        forall|k: int| 0 <= k < docs@.len() ==> jwf(#[trigger] docs@[k]),
                    decreases n - i,
                {
                    let ghost docs0 = docs@;
                    let d = items[i].to_json();
                    docs.push(d);
                    proof {
                        crate::json::lemma_jv_seq_push(docs0, d);
                        assert(docs_s[i as int] == items@[i as int].spec_doc());
                        assert(docs_s.take(i + 1) =~= docs_s.take(i as int).push(docs_s[i as int]));
                        assert(jv_seq(docs@) =~= docs_s.take(i + 1));
                    }
                    i = i + 1;
                }
                proof {
                    assert(docs_s.take(n as int) =~= docs_s);
                }
                Json::Arr(docs)
            },
        };
        put_doc_field(&mut out, "data", data_doc);
        put_str_field(&mut out, "paginationToken", &self.pagination_token);
        proof {
            assert(jv_members(out@) =~= self.spec_doc()->Obj_0);
        }
        Json::Obj(out)
    }

    /// Decoding the canonical document gives the envelope back.
    pub proof fn lemma_roundtrip(self)
        ensures
            Self::spec_ok(self.spec_doc()),
            self.matches_doc(self.spec_doc()),
    {
        let ms = self.spec_doc()->Obj_0;
        reveal_strlit("data");
        reveal_strlit("paginationToken");
        assert("data"@.len() == 4);
        assert("paginationToken"@.len() == 15);
        crate::fields::lemma_obj_get_index(ms, 0);
        crate::fields::lemma_obj_get_index(ms, 1);
        match self.data {
            Option::Some(items) => {
                let docs = items@.map_values(|it: SecondarySales| it.spec_doc());
                assert forall|k: int| 0 <= k < docs.len() implies SecondarySales::spec_ok(#[trigger] docs[k]) by {
                    assert(docs[k] == items@[k].spec_doc());
                    items@[k].lemma_roundtrip();
                }
                assert forall|k: int| 0 <= k < items@.len() implies (#[trigger] items@[k]).matches_doc(docs[k]) by {
                    assert(docs[k] == items@[k].spec_doc());
                    items@[k].lemma_roundtrip();
                }
            },
            Option::None => {},
        }
    }

    /// The canonical document is well formed.
    pub proof fn lemma_spec_doc_wf(self)
        ensures
            wf(self.spec_doc()),
    {
        let ms = self.spec_doc()->Obj_0;
        match self.data {
            Option::Some(items) => {
                let docs = items@.map_values(|it: SecondarySales| it.spec_doc());
                assert forall|k: int| 0 <= k < docs.len() implies wf(#[trigger] docs[k]) by {
                    assert(docs[k] == items@[k].spec_doc());
                    items@[k].lemma_spec_doc_wf();
                }
                assert(wf(ms[0].1));
            },
            Option::None => {},
        }
        assert forall|k: int| 0 <= k < ms.len() implies wf(#[trigger] ms[k].1) by {}
    }

    /// Round trip through the wire: the rendered text of the canonical
    /// document parses back to it, and decoding it yields exactly this
    /// envelope's values.
    pub proof fn lemma_text_roundtrip(self)
        ensures
            spec_parse(ser_val(self.spec_doc())) == Some(self.spec_doc()),
            Self::spec_ok(self.spec_doc()),
            self.matches_doc(self.spec_doc()),
    {
        self.lemma_spec_doc_wf();
        crate::roundtrip::lemma_parse_render(self.spec_doc());
        self.lemma_roundtrip();
    }
}

/// Reads the optional `data` array of records.
fn decode_data(ms: &Vec<(String, Json)>) -> (r: Result<Option<Vec<SecondarySales>>, DecodeError>)
    requires
        forall|k: int| 0 <= k < ms@.len() ==> jwf((#[trigger] ms@[k]).1),
    ensures
        match r {
            Result::Ok(o) => match obj_get(jv_members(ms@), "data"@) {
                Option::None => o is None,
                Option::Some(JVal::Null) => o is None,
                Option::Some(JVal::Arr(elems)) => o matches Option::Some(items)
                    && items@.len() == elems.len()
                    && (forall|k: int| 0 <= k < elems.len()
                        ==> SecondarySales::spec_ok(#[trigger] elems[k]))
                    && (forall|k: int| 0 <= k < elems.len()
                        ==> (#[trigger] items@[k]).matches_doc(elems[k]))
                    && (forall|k: int| 0 <= k < items@.len() ==> (#[trigger] items@[k]).inv()),
                Option::Some(_) => false,
            },
            Result::Err(e) => e == DecodeError::Shape && match obj_get(jv_members(ms@), "data"@) {
                Option::None => false,
                Option::Some(JVal::Null) => false,
                Option::Some(JVal::Arr(elems)) => !(forall|k: int| 0 <= k < elems.len()
                    ==> SecondarySales::spec_ok(#[trigger] elems[k])),
                Option::Some(_) => true,
            },
        },
{
    let arr = match crate::decode::lookup_member(ms, "data") {
        Option::None => {
            return Result::Ok(Option::None);
        },
        Option::Some(j) => match j {
            Json::Null => {
                return Result::Ok(Option::None);
            },
            Json::Arr(elems) => elems,
            _ => {
                return Result::Err(DecodeError::Shape);
            },
        },
    };
    let ghost evs = jv_seq(arr@);
    proof {
        lemma_jv_seq(arr@);
    }
    let n: usize = arr.len();
    let mut items: Vec<SecondarySales> = Vec::new();
    let mut i: usize = 0;
    while i < n
        invariant
            i <= n,
            n == arr@.len(),
            obj_get(jv_members(ms@), "data"@) == Some(JVal::Arr(evs)),
            evs == jv_seq(arr@),
            evs.len() == n,
            forall|k: int| 0 <= k < n ==> evs[k] == jv(#[trigger] arr@[k]),
            forall|k: int| 0 <= k < n ==> jwf(#[trigger] arr@[k]),
            items@.len() == i,
            forall|k: int| 0 <= k < i ==> SecondarySales::spec_ok(#[trigger] evs[k]),
            forall|k: int| 0 <= k < i ==> (#[trigger] items@[k]).matches_doc(evs[k]),
            forall|k: int| 0 <= k < items@.len() ==> (#[trigger] items@[k]).inv(),
        decreases n - i,
    {
        match SecondarySales::from_json(&arr[i]) {
            Result::Ok(it) => {
                items.push(it);
            },
            Result::Err(e) => {
                proof {
                    let g = obj_get(jv_members(ms@), "data"@);
                    let gelems = g->0->Arr_0;
                    assert(gelems == evs);
                    assert(!(forall|k: int| 0 <= k < gelems.len()
                        ==> SecondarySales::spec_ok(#[trigger] gelems[k]))) by {
                        assert(!SecondarySales::spec_ok(gelems[i as int]));
                    }
                }
                return Result::Err(e);
            },
        }
        i = i + 1;
    }
    Result::Ok(Option::Some(items))
}

/// The path of this endpoint under the API root.
pub open spec fn secondary_sales_url() -> Seq<char> {
    root_url() + "/nft/sales/secondary"@
}

/// Prepares one call: the fixed URL, the three fixed headers with the
/// caller's bearer token, and — when a request is given — the canonical
/// serialization of its sentinel-filtered fields.
pub fn scondary_sales(api_key: &str, request: Option<&SecondarySalesRequest>) -> (r: PreparedCall)
    ensures
        r.url@ == secondary_sales_url(),
        headers_model(r.headers@) == spec_headers(api_key@),
        match request {
            Option::None => r.body is None,
            Option::Some(req) => r.body matches Option::Some(b)
                && b@ == ser_val(JVal::Obj(req.spec_members())),
        },
{
    let url = hellomoon_root_url().to_owned().concat("/nft/sales/secondary");
    prepare_call(url, api_key, request)
}

impl crate::decode::ResponseEnvelope for SecondarySalesResponse {
    open spec fn env_ok(v: JVal) -> bool {
        SecondarySalesResponse::spec_ok(v)
    }

    open spec fn env_matches(self, v: JVal) -> bool {
        self.matches_doc(v)
    }

    fn env_from_json(doc: &Json) -> Result<Self, DecodeError> {
        SecondarySalesResponse::from_json(doc)
    }

    proof fn lemma_empty_envelope() {
        let ms = crate::decode::empty_envelope()->Obj_0;
        reveal_strlit("data");
        reveal_strlit("paginationToken");
        assert("data"@.len() == 4);
        assert("paginationToken"@.len() == 15);
        crate::fields::lemma_obj_get_index(ms, 0);
        crate::fields::lemma_obj_get_index(ms, 1);
    }
}

/// Decodes one response body: `Syntax` when the body is not valid JSON,
/// `Shape` when it does not fit the envelope, the typed response
/// otherwise.
pub fn scondary_sales_decode(body: &str) -> (r: Result<SecondarySalesResponse, DecodeError>)
    ensures
        match spec_parse(body@) {
            Option::None => r == Result::<SecondarySalesResponse, DecodeError>::Err(DecodeError::Syntax),
            Option::Some(v) => match r {
                Result::Ok(resp) => SecondarySalesResponse::spec_ok(v) && resp.matches_doc(v),
                Result::Err(e) => e == DecodeError::Shape && !SecondarySalesResponse::spec_ok(v),
            },
        },
{
    crate::decode::decode_body::<SecondarySalesResponse>(body)
}

} // verus!
