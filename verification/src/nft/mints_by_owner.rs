//! Mints by owner, `POST <root>/nft/mints-by-owner`.

use vstd::prelude::*;

use crate::call::{PreparedCall, headers_model, hellomoon_root_url, prepare_call, root_url, spec_headers};
use crate::decode::{
    get_opt_bool, get_opt_str_arr, get_opt_string, get_opt_u64, jv_opt_str_arr, lookup_member,
    put_str_arr_field, spec_opt_bool, spec_opt_str_arr, spec_opt_string, spec_opt_u64, DecodeError,
};
use crate::fields::{
    obj_get, opt_count, opt_text, push_count, push_text, put_bool_field, put_doc_field, put_str_field, put_u64_field,
};
use crate::json::{
    JVal, Json, jv, jv_members, jv_opt_bool, jv_opt_str, jv_opt_u64, jv_seq, jwf, lemma_jv_seq,
    o_str, o_u64, ser_val, wf,
};
use crate::parse::spec_parse;

verus! {
broadcast use vstd::seq::group_seq_axioms, vstd::std_specs::vec::group_vec_axioms;

/// What to ask the mints-by-owner endpoint for.
pub struct MintsByOwnerRequest {
    pub nft_mint: String,
    pub hello_moon_collection_id: String,
    pub owner_account: String,
    pub nft_collection_mint: String,
    pub limit: usize,
    pub page: usize,
    pub pagination_token: String,
}

impl MintsByOwnerRequest {
    /// The members of the serialized request body, in declaration order,
    /// sentinel fields omitted.
    pub open spec fn spec_members(self) -> Seq<(Seq<char>, JVal)> {
        opt_text("nftMint"@, self.nft_mint@)
            + opt_text("helloMoonCollectionId"@, self.hello_moon_collection_id@)
            + opt_text("ownerAccount"@, self.owner_account@)
            + opt_text("nftCollectionMint"@, self.nft_collection_mint@)
            + opt_count("limit"@, self.limit as int)
            + opt_count("page"@, self.page as int)
            + opt_text("paginationToken"@, self.pagination_token@)
    }

    /// Serializes the request body.
    pub fn to_json(&self) -> (r: Json)
        ensures
            jv(r) == JVal::Obj(self.spec_members()),
            jwf(r),
    {
        let mut out: Vec<(String, Json)> = Vec::new();
        proof {
            assert(jv_members(out@) =~= Seq::<(Seq<char>, JVal)>::empty());
        }
        push_text(&mut out, "nftMint", &self.nft_mint);
        push_text(&mut out, "helloMoonCollectionId", &self.hello_moon_collection_id);
        push_text(&mut out, "ownerAccount", &self.owner_account);
        push_text(&mut out, "nftCollectionMint", &self.nft_collection_mint);
        push_count(&mut out, "limit", self.limit);
        push_count(&mut out, "page", self.page);
        push_text(&mut out, "paginationToken", &self.pagination_token);
        proof {
            assert(jv_members(out@) =~= self.spec_members());
        }
        Json::Obj(out)
    }
}

impl crate::call::RequestShape for MintsByOwnerRequest {
    open spec fn req_members(self) -> Seq<(Seq<char>, JVal)> {
        self.spec_members()
    }

    fn req_to_json(&self) -> (r: Json) {
        self.to_json()
    }
}

impl MintsByOwnerRequest {
    /// Sentinel omission: each field stands in the serialized object
    /// exactly when its value is not the sentinel, under its wire name,
    /// with its serialized value; a sentinel field's name is absent.
    #[verifier::rlimit(100)]
    pub proof fn lemma_sentinel_omission(self)
        ensures
            obj_get(self.spec_members(), "nftMint"@) == (if self.nft_mint@.len() > 0 {
                Option::Some(JVal::Str(self.nft_mint@))
            } else {
                Option::<JVal>::None
            }),
            obj_get(self.spec_members(), "helloMoonCollectionId"@) == (if self.hello_moon_collection_id@.len() > 0 {
                Option::Some(JVal::Str(self.hello_moon_collection_id@))
            } else {
                Option::<JVal>::None
            }),
            obj_get(self.spec_members(), "ownerAccount"@) == (if self.owner_account@.len() > 0 {
                Option::Some(JVal::Str(self.owner_account@))
            } else {
                Option::<JVal>::None
            }),
            obj_get(self.spec_members(), "nftCollectionMint"@) == (if self.nft_collection_mint@.len() > 0 {
                Option::Some(JVal::Str(self.nft_collection_mint@))
            } else {
                Option::<JVal>::None
            }),
            obj_get(self.spec_members(), "limit"@) == (if self.limit > 0 {
                Option::Some(JVal::Int(self.limit as int))
            } else {
                Option::<JVal>::None
            }),
            obj_get(self.spec_members(), "page"@) == (if self.page > 0 {
                Option::Some(JVal::Int(self.page as int))
            } else {
                Option::<JVal>::None
            }),
            obj_get(self.spec_members(), "paginationToken"@) == (if self.pagination_token@.len() > 0 {
                Option::Some(JVal::Str(self.pagination_token@))
            } else {
                Option::<JVal>::None
            }),
    {
        reveal_strlit("helloMoonCollectionId");
        reveal_strlit("limit");
        reveal_strlit("nftCollectionMint");
        reveal_strlit("nftMint");
        reveal_strlit("ownerAccount");
        reveal_strlit("page");
        reveal_strlit("paginationToken");
        assert("helloMoonCollectionId"@.len() == 21);
        assert("limit"@.len() == 5);
        assert("nftCollectionMint"@.len() == 17);
        assert("nftMint"@.len() == 7);
        assert("ownerAccount"@.len() == 12);
        assert("page"@.len() == 4);
        assert("paginationToken"@.len() == 15);
        let s1 = crate::fields::seg("nftMint"@, self.nft_mint@.len() > 0, JVal::Str(self.nft_mint@));
        let s2 = crate::fields::seg("helloMoonCollectionId"@, self.hello_moon_collection_id@.len() > 0, JVal::Str(self.hello_moon_collection_id@));
        let s3 = crate::fields::seg("ownerAccount"@, self.owner_account@.len() > 0, JVal::Str(self.owner_account@));
        let s4 = crate::fields::seg("nftCollectionMint"@, self.nft_collection_mint@.len() > 0, JVal::Str(self.nft_collection_mint@));
        let s5 = crate::fields::seg("limit"@, self.limit > 0, JVal::Int(self.limit as int));
        let s6 = crate::fields::seg("page"@, self.page > 0, JVal::Int(self.page as int));
        let s7 = crate::fields::seg("paginationToken"@, self.pagination_token@.len() > 0, JVal::Str(self.pagination_token@));
        assert(self.spec_members() =~= s1 + s2 + s3 + s4 + s5 + s6 + s7);
        crate::fields::lemma_seg_get_any("nftMint"@, self.nft_mint@.len() > 0, JVal::Str(self.nft_mint@));
        crate::fields::lemma_seg_get_any("helloMoonCollectionId"@, self.hello_moon_collection_id@.len() > 0, JVal::Str(self.hello_moon_collection_id@));
        crate::fields::lemma_seg_get_any("ownerAccount"@, self.owner_account@.len() > 0, JVal::Str(self.owner_account@));
        crate::fields::lemma_seg_get_any("nftCollectionMint"@, self.nft_collection_mint@.len() > 0, JVal::Str(self.nft_collection_mint@));
        crate::fields::lemma_seg_get_any("limit"@, self.limit > 0, JVal::Int(self.limit as int));
        crate::fields::lemma_seg_get_any("page"@, self.page > 0, JVal::Int(self.page as int));
        crate::fields::lemma_seg_get_any("paginationToken"@, self.pagination_token@.len() > 0, JVal::Str(self.pagination_token@));
        crate::fields::lemma_obj_get_concat(s1 + s2 + s3 + s4 + s5 + s6, s7, "nftMint"@);
        crate::fields::lemma_obj_get_concat(s1 + s2 + s3 + s4 + s5, s6, "nftMint"@);
        crate::fields::lemma_obj_get_concat(s1 + s2 + s3 + s4, s5, "nftMint"@);
        crate::fields::lemma_obj_get_concat(s1 + s2 + s3, s4, "nftMint"@);
        crate::fields::lemma_obj_get_concat(s1 + s2, s3, "nftMint"@);
        crate::fields::lemma_obj_get_concat(s1, s2, "nftMint"@);
        crate::fields::lemma_obj_get_concat(s1 + s2 + s3 + s4 + s5 + s6, s7, "helloMoonCollectionId"@);
        crate::fields::lemma_obj_get_concat(s1 + s2 + s3 + s4 + s5, s6, "helloMoonCollectionId"@);
        crate::fields::lemma_obj_get_concat(s1 + s2 + s3 + s4, s5, "helloMoonCollectionId"@);
        crate::fields::lemma_obj_get_concat(s1 + s2 + s3, s4, "helloMoonCollectionId"@);
        crate::fields::lemma_obj_get_concat(s1 + s2, s3, "helloMoonCollectionId"@);
        crate::fields::lemma_obj_get_concat(s1, s2, "helloMoonCollectionId"@);
        crate::fields::lemma_obj_get_concat(s1 + s2 + s3 + s4 + s5 + s6, s7, "ownerAccount"@);
        crate::fields::lemma_obj_get_concat(s1 + s2 + s3 + s4 + s5, s6, "ownerAccount"@);
        crate::fields::lemma_obj_get_concat(s1 + s2 + s3 + s4, s5, "ownerAccount"@);
        crate::fields::lemma_obj_get_concat(s1 + s2 + s3, s4, "ownerAccount"@);
        crate::fields::lemma_obj_get_concat(s1 + s2, s3, "ownerAccount"@);
        crate::fields::lemma_obj_get_concat(s1, s2, "ownerAccount"@);
        crate::fields::lemma_obj_get_concat(s1 + s2 + s3 + s4 + s5 + s6, s7, "nftCollectionMint"@);
        crate::fields::lemma_obj_get_concat(s1 + s2 + s3 + s4 + s5, s6, "nftCollectionMint"@);
        crate::fields::lemma_obj_get_concat(s1 + s2 + s3 + s4, s5, "nftCollectionMint"@);
        crate::fields::lemma_obj_get_concat(s1 + s2 + s3, s4, "nftCollectionMint"@);
        crate::fields::lemma_obj_get_concat(s1 + s2, s3, "nftCollectionMint"@);
        crate::fields::lemma_obj_get_concat(s1, s2, "nftCollectionMint"@);
        crate::fields::lemma_obj_get_concat(s1 + s2 + s3 + s4 + s5 + s6, s7, "limit"@);
        crate::fields::lemma_obj_get_concat(s1 + s2 + s3 + s4 + s5, s6, "limit"@);
        crate::fields::lemma_obj_get_concat(s1 + s2 + s3 + s4, s5, "limit"@);
        crate::fields::lemma_obj_get_concat(s1 + s2 + s3, s4, "limit"@);
        crate::fields::lemma_obj_get_concat(s1 + s2, s3, "limit"@);
        crate::fields::lemma_obj_get_concat(s1, s2, "limit"@);
        crate::fields::lemma_obj_get_concat(s1 + s2 + s3 + s4 + s5 + s6, s7, "page"@);
        crate::fields::lemma_obj_get_concat(s1 + s2 + s3 + s4 + s5, s6, "page"@);
        crate::fields::lemma_obj_get_concat(s1 + s2 + s3 + s4, s5, "page"@);
        crate::fields::lemma_obj_get_concat(s1 + s2 + s3, s4, "page"@);
        crate::fields::lemma_obj_get_concat(s1 + s2, s3, "page"@);
        crate::fields::lemma_obj_get_concat(s1, s2, "page"@);
        crate::fields::lemma_obj_get_concat(s1 + s2 + s3 + s4 + s5 + s6, s7, "paginationToken"@);
        crate::fields::lemma_obj_get_concat(s1 + s2 + s3 + s4 + s5, s6, "paginationToken"@);
        crate::fields::lemma_obj_get_concat(s1 + s2 + s3 + s4, s5, "paginationToken"@);
        crate::fields::lemma_obj_get_concat(s1 + s2 + s3, s4, "paginationToken"@);
        crate::fields::lemma_obj_get_concat(s1 + s2, s3, "paginationToken"@);
        crate::fields::lemma_obj_get_concat(s1, s2, "paginationToken"@);
    }
}

impl Default for MintsByOwnerRequest {
    fn default() -> (r: Self)
        ensures
            r.nft_mint@ == Seq::<char>::empty(),
            r.hello_moon_collection_id@ == Seq::<char>::empty(),
            r.owner_account@ == Seq::<char>::empty(),
            r.nft_collection_mint@ == Seq::<char>::empty(),
            r.limit == 0,
            r.page == 0,
            r.pagination_token@ == Seq::<char>::empty(),
    {
        MintsByOwnerRequest {
            nft_mint: String::new(),
            hello_moon_collection_id: String::new(),
            owner_account: String::new(),
            nft_collection_mint: String::new(),
            limit: 0,
            page: 0,
            pagination_token: String::new(),
        }
    }
}

/// The path of this endpoint under the API root.
pub open spec fn mints_by_owners_url() -> Seq<char> {
    root_url() + "/nft/mints-by-owner"@
}

/// Prepares one mints-by-owner call.
pub fn mints_by_owners(api_key: &str, request: Option<&MintsByOwnerRequest>) -> (r: PreparedCall)
    ensures
        r.url@ == mints_by_owners_url(),
        headers_model(r.headers@) == spec_headers(api_key@),
        match request {
            Option::None => r.body is None,
            Option::Some(req) => r.body matches Option::Some(b)
                && b@ == ser_val(JVal::Obj(req.spec_members())),
        },
{
    let url = hellomoon_root_url().to_owned().concat("/nft/mints-by-owner");
    prepare_call(url, api_key, request)
}

/// One royalty creator of a mint's metadata.
#[derive(Debug, PartialEq, Eq)]
pub struct Creator {
    pub address: Option<String>,
    pub verified: Option<bool>,
    pub share: Option<u64>,
}

impl Creator {
    /// Whether a document fits this shape.
    pub open spec fn spec_ok(v: JVal) -> bool {
        v matches JVal::Obj(ms) && {
            &&& spec_opt_string(ms, "address"@) is Ok
            &&& spec_opt_bool(ms, "verified"@) is Ok
            &&& spec_opt_u64(ms, "share"@) is Ok
        }
    }

    /// Whether this value is what the document decodes to.
    pub open spec fn matches_doc(self, v: JVal) -> bool {
        v matches JVal::Obj(ms) && {
            &&& spec_opt_string(ms, "address"@) == Result::<Option<Seq<char>>, ()>::Ok(o_str(self.address))
            &&& spec_opt_bool(ms, "verified"@) == Result::<Option<bool>, ()>::Ok(self.verified)
            &&& spec_opt_u64(ms, "share"@) == Result::<Option<int>, ()>::Ok(o_u64(self.share))
        }
    }

    /// Well-formedness: number fields hold canonical values.
    pub open spec fn inv(self) -> bool {
        true
    }

    /// Reads one record out of a document.
    pub fn from_json(doc: &Json) -> (r: Result<Self, DecodeError>)
        requires
            jwf(*doc),
        ensures
            match r {
                Result::Ok(it) => Self::spec_ok(jv(*doc)) && it.matches_doc(jv(*doc)) && it.inv(),
                Result::Err(e) => e == DecodeError::Shape && !Self::spec_ok(jv(*doc)),
            },
    {
        let ms = match doc {
            Json::Obj(ms) => ms,
            _ => {
                return Result::Err(DecodeError::Shape);
            },
        };
        let address = match get_opt_string(ms, "address") {
            Result::Ok(o) => o,
            Result::Err(e) => {
                return Result::Err(e);
            },
        };
        let verified = match get_opt_bool(ms, "verified") {
            Result::Ok(o) => o,
            Result::Err(e) => {
                return Result::Err(e);
            },
        };
        let share = match get_opt_u64(ms, "share") {
            Result::Ok(o) => o,
            Result::Err(e) => {
                return Result::Err(e);
            },
        };
        Result::Ok(Creator { address, verified, share })
    }

    /// The canonical document of this value: every field written, `null`
    /// for absent ones, in declaration order.
    pub open spec fn spec_doc(self) -> JVal {
        JVal::Obj(seq![
            ("address"@, jv_opt_str(self.address)),
            ("verified"@, jv_opt_bool(self.verified)),
            ("share"@, jv_opt_u64(self.share)),
        ])
    }

    /// Serializes this value to its canonical document.
    pub fn to_json(&self) -> (r: Json)
        ensures
            jv(r) == self.spec_doc(),
            jwf(r),
    {
        let mut out: Vec<(String, Json)> = Vec::new();
        proof {
            assert(jv_members(out@) =~= Seq::<(Seq<char>, JVal)>::empty());
        }
        put_str_field(&mut out, "address", &self.address);
        put_bool_field(&mut out, "verified", &self.verified);
        put_u64_field(&mut out, "share", &self.share);
        proof {
            assert(jv_members(out@) =~= self.spec_doc()->Obj_0);
        }
        Json::Obj(out)
    }

    /// The canonical document is well formed.
    pub proof fn lemma_spec_doc_wf(self)
        ensures
            wf(self.spec_doc()),
    {
        let ms = self.spec_doc()->Obj_0;
        assert forall|k: int| 0 <= k < ms.len() implies wf(#[trigger] ms[k].1) by {}
    }

    /// Decoding the canonical document gives the value back.
    pub proof fn lemma_roundtrip(self)
        ensures
            Self::spec_ok(self.spec_doc()),
            self.matches_doc(self.spec_doc()),
    {
        let ms = self.spec_doc()->Obj_0;
    reveal_strlit("address");
    reveal_strlit("share");
    reveal_strlit("verified");
    assert("address"@.len() == 7);
    assert("share"@.len() == 5);
    assert("verified"@.len() == 8);
    crate::fields::lemma_obj_get_index(ms, 0);
    crate::fields::lemma_obj_get_index(ms, 1);
    crate::fields::lemma_obj_get_index(ms, 2);
    }
}

/// The collection a mint's metadata points at.
#[derive(Debug, PartialEq, Eq)]
pub struct Collection {
    pub verified: Option<bool>,
    pub key: Option<String>,
}

impl Collection {
    /// Whether a document fits this shape.
    pub open spec fn spec_ok(v: JVal) -> bool {
        v matches JVal::Obj(ms) && {
            &&& spec_opt_bool(ms, "verified"@) is Ok
            &&& spec_opt_string(ms, "key"@) is Ok
        }
    }

    /// Whether this value is what the document decodes to.
    pub open spec fn matches_doc(self, v: JVal) -> bool {
        v matches JVal::Obj(ms) && {
            &&& spec_opt_bool(ms, "verified"@) == Result::<Option<bool>, ()>::Ok(self.verified)
            &&& spec_opt_string(ms, "key"@) == Result::<Option<Seq<char>>, ()>::Ok(o_str(self.key))
        }
    }

    /// Well-formedness: number fields hold canonical values.
    pub open spec fn inv(self) -> bool {
        true
    }

    /// Reads one record out of a document.
    pub fn from_json(doc: &Json) -> (r: Result<Self, DecodeError>)
        requires
            jwf(*doc),
        ensures
            match r {
                Result::Ok(it) => Self::spec_ok(jv(*doc)) && it.matches_doc(jv(*doc)) && it.inv(),
                Result::Err(e) => e == DecodeError::Shape && !Self::spec_ok(jv(*doc)),
            },
    {
        let ms = match doc {
            Json::Obj(ms) => ms,
            _ => {
                return Result::Err(DecodeError::Shape);
            },
        };
        let verified = match get_opt_bool(ms, "verified") {
            Result::Ok(o) => o,
            Result::Err(e) => {
                return Result::Err(e);
            },
        };
        let key = match get_opt_string(ms, "key") {
            Result::Ok(o) => o,
            Result::Err(e) => {
                return Result::Err(e);
            },
        };
        Result::Ok(Collection { verified, key })
    }

    /// The canonical document of this value: every field written, `null`
    /// for absent ones, in declaration order.
    pub open spec fn spec_doc(self) -> JVal {
        JVal::Obj(seq![
            ("verified"@, jv_opt_bool(self.verified)),
            ("key"@, jv_opt_str(self.key)),
        ])
    }

    /// Serializes this value to its canonical document.
    pub fn to_json(&self) -> (r: Json)
        ensures
            jv(r) == self.spec_doc(),
            jwf(r),
    {
        let mut out: Vec<(String, Json)> = Vec::new();
        proof {
            assert(jv_members(out@) =~= Seq::<(Seq<char>, JVal)>::empty());
        }
        put_bool_field(&mut out, "verified", &self.verified);
        put_str_field(&mut out, "key", &self.key);
        proof {
            assert(jv_members(out@) =~= self.spec_doc()->Obj_0);
        }
        Json::Obj(out)
    }

    /// The canonical document is well formed.
    pub proof fn lemma_spec_doc_wf(self)
        ensures
            wf(self.spec_doc()),
    {
        let ms = self.spec_doc()->Obj_0;
        assert forall|k: int| 0 <= k < ms.len() implies wf(#[trigger] ms[k].1) by {}
    }

    /// Decoding the canonical document gives the value back.
    pub proof fn lemma_roundtrip(self)
        ensures
            Self::spec_ok(self.spec_doc()),
            self.matches_doc(self.spec_doc()),
    {
        let ms = self.spec_doc()->Obj_0;
    reveal_strlit("key");
    reveal_strlit("verified");
    assert("key"@.len() == 3);
    assert("verified"@.len() == 8);
    crate::fields::lemma_obj_get_index(ms, 0);
    crate::fields::lemma_obj_get_index(ms, 1);
    }
}

/// The on-chain metadata document of a mint.
#[derive(Debug, PartialEq, Eq)]
pub struct MetadataJson {
    pub name: Option<String>,
    pub symbol: Option<String>,
    pub uri: Option<String>,
    pub seller_fee_basis_points: Option<u64>,
    pub creators: Option<Vec<Creator>>,
    pub collection: Option<Collection>,
}

impl MetadataJson {
    /// Whether a document fits this shape.
    pub open spec fn spec_ok(v: JVal) -> bool {
        v matches JVal::Obj(ms) && {
            &&& spec_opt_string(ms, "name"@) is Ok
            &&& spec_opt_string(ms, "symbol"@) is Ok
            &&& spec_opt_string(ms, "uri"@) is Ok
            &&& spec_opt_u64(ms, "sellerFeeBasisPoints"@) is Ok
            &&& match obj_get(ms, "creators"@) {
                Option::None => true,
                Option::Some(JVal::Null) => true,
                Option::Some(JVal::Arr(elems)) => forall|k: int| 0 <= k < elems.len()
                    ==> Creator::spec_ok(#[trigger] elems[k]),
                Option::Some(_) => false,
            }
            &&& match obj_get(ms, "collection"@) {
                Option::None => true,
                Option::Some(JVal::Null) => true,
                Option::Some(v2) => Collection::spec_ok(v2),
            }
        }
    }

    /// Whether this value is what the document decodes to.
    pub open spec fn matches_doc(self, v: JVal) -> bool {
        v matches JVal::Obj(ms) && {
            &&& spec_opt_string(ms, "name"@) == Result::<Option<Seq<char>>, ()>::Ok(o_str(self.name))
            &&& spec_opt_string(ms, "symbol"@) == Result::<Option<Seq<char>>, ()>::Ok(o_str(self.symbol))
            &&& spec_opt_string(ms, "uri"@) == Result::<Option<Seq<char>>, ()>::Ok(o_str(self.uri))
            &&& spec_opt_u64(ms, "sellerFeeBasisPoints"@) == Result::<Option<int>, ()>::Ok(o_u64(self.seller_fee_basis_points))
            &&& match obj_get(ms, "creators"@) {
                Option::None => self.creators is None,
                Option::Some(JVal::Null) => self.creators is None,
                Option::Some(JVal::Arr(elems)) => self.creators matches Option::Some(items)
                    && items@.len() == elems.len()
                    && (forall|k: int| 0 <= k < elems.len()
                        ==> (#[trigger] items@[k]).matches_doc(elems[k])),
                Option::Some(_) => false,
            }
            &&& match obj_get(ms, "collection"@) {
                Option::None => self.collection is None,
                Option::Some(JVal::Null) => self.collection is None,
                Option::Some(v2) => self.collection matches Option::Some(c) && c.matches_doc(v2),
            }
        }
    }

    /// Reads the metadata document.
    pub fn from_json(doc: &Json) -> (r: Result<Self, DecodeError>)
        requires
            jwf(*doc),
        ensures
            match r {
                Result::Ok(it) => Self::spec_ok(jv(*doc)) && it.matches_doc(jv(*doc)),
                Result::Err(e) => e == DecodeError::Shape && !Self::spec_ok(jv(*doc)),
            },
    {
        let ms = match doc {
            Json::Obj(ms) => ms,
            _ => {
                return Result::Err(DecodeError::Shape);
            },
        };
        proof {
            assert(jv(*doc) == JVal::Obj(jv_members(ms@)));
        }
        let name = match get_opt_string(ms, "name") {
            Result::Ok(o) => o,
            Result::Err(e) => {
                return Result::Err(e);
            },
        };
        let symbol = match get_opt_string(ms, "symbol") {
            Result::Ok(o) => o,
            Result::Err(e) => {
                return Result::Err(e);
            },
        };
        let uri = match get_opt_string(ms, "uri") {
            Result::Ok(o) => o,
            Result::Err(e) => {
                return Result::Err(e);
            },
        };
        let seller_fee_basis_points = match get_opt_u64(ms, "sellerFeeBasisPoints") {
            Result::Ok(o) => o,
            Result::Err(e) => {
                return Result::Err(e);
            },
        };
        let creators = match decode_creators(ms) {
            Result::Ok(o) => o,
            Result::Err(e) => {
                return Result::Err(e);
            },
        };
        let collection = match lookup_member(ms, "collection") {
            Option::None => Option::None,
            Option::Some(j) => match j {
                Json::Null => Option::None,
                _ => match Collection::from_json(j) {
                    Result::Ok(c) => Option::Some(c),
                    Result::Err(e) => {
                        return Result::Err(e);
                    },
                },
            },
        };
        Result::Ok(MetadataJson { name, symbol, uri, seller_fee_basis_points, creators, collection })
    }

    /// The canonical document of this value: every field written, `null`
    /// for absent ones, in declaration order.
    pub open spec fn spec_doc(self) -> JVal {
        JVal::Obj(seq![
            ("name"@, jv_opt_str(self.name)),
            ("symbol"@, jv_opt_str(self.symbol)),
            ("uri"@, jv_opt_str(self.uri)),
            ("sellerFeeBasisPoints"@, jv_opt_u64(self.seller_fee_basis_points)),
            ("creators"@, match self.creators {
                Option::None => JVal::Null,
                Option::Some(items) => JVal::Arr(items@.map_values(|c: Creator| c.spec_doc())),
            }),
            ("collection"@, match self.collection {
                Option::None => JVal::Null,
                Option::Some(c) => c.spec_doc(),
            }),
        ])
    }

    /// Serializes this value to its canonical document.
    pub fn to_json(&self) -> (r: Json)
        ensures
            jv(r) == self.spec_doc(),
            jwf(r),
    {
        let mut out: Vec<(String, Json)> = Vec::new();
        proof {
            assert(jv_members(out@) =~= Seq::<(Seq<char>, JVal)>::empty());
        }
        put_str_field(&mut out, "name", &self.name);
        put_str_field(&mut out, "symbol", &self.symbol);
        put_str_field(&mut out, "uri", &self.uri);
        put_u64_field(&mut out, "sellerFeeBasisPoints", &self.seller_fee_basis_points);
        let creators_doc: Json = match &self.creators {
            Option::None => Json::Null,
            Option::Some(items) => {
                let ghost docs_s = items@.map_values(|c: Creator| c.spec_doc());
                let n: usize = items.len();
                let mut docs: Vec<Json> = Vec::new();
                let mut i: usize = 0;
                proof {
                    assert(jv_seq(docs@) =~= docs_s.take(0));
                }
                while i < n
                    invariant
                        i <= n,
                        n == items@.len(),
                        docs_s == items@.map_values(|c: Creator| c.spec_doc()),
                        docs_s.len() == n,
                        docs@.len() == i,
                        jv_seq(docs@) == docs_s.take(i as int),
                        forall|k: int| 0 <= k < docs@.len() ==> jwf(#[trigger] docs@[k]),
                    decreases n - i,
                {
                    let ghost docs0 = docs@;
                    let d = items[i].to_json();
                    docs.push(d);
                    proof {
                        crate::json::lemma_jv_seq_push(docs0, d);
                        assert(docs_s[i as int] == items@[i as int].spec_doc());
                        assert(docs_s.take(i + 1) =~= docs_s.take(i as int).push(docs_s[i as int]));
                        assert(jv_seq(docs@) =~= docs_s.take(i + 1));
                    }
                    i = i + 1;
                }
                proof {
                    assert(docs_s.take(n as int) =~= docs_s);
                }
                Json::Arr(docs)
            },
        };
        put_doc_field(&mut out, "creators", creators_doc);
        let collection_doc: Json = match &self.collection {
            Option::None => Json::Null,
            Option::Some(c) => c.to_json(),
        };
        put_doc_field(&mut out, "collection", collection_doc);
        proof {
            assert(jv_members(out@) =~= self.spec_doc()->Obj_0);
        }
        Json::Obj(out)
    }

    /// The canonical document is well formed.
    pub proof fn lemma_spec_doc_wf(self)
        ensures
            wf(self.spec_doc()),
    {
        let ms = self.spec_doc()->Obj_0;
        match self.creators {
            Option::Some(items) => {
                let docs = items@.map_values(|c: Creator| c.spec_doc());
                assert forall|k: int| 0 <= k < docs.len() implies wf(#[trigger] docs[k]) by {
                    assert(docs[k] == items@[k].spec_doc());
                    items@[k].lemma_spec_doc_wf();
                }
                assert(wf(ms[4].1));
            },
            Option::None => {},
        }
        match self.collection {
            Option::Some(c) => {
                c.lemma_spec_doc_wf();
            },
            Option::None => {},
        }
        assert forall|k: int| 0 <= k < ms.len() implies wf(#[trigger] ms[k].1) by {}
    }

    /// Decoding the canonical document gives the value back.
    pub proof fn lemma_roundtrip(self)
        ensures
            Self::spec_ok(self.spec_doc()),
            self.matches_doc(self.spec_doc()),
    {
        let ms = self.spec_doc()->Obj_0;
        reveal_strlit("name");
        reveal_strlit("symbol");
        reveal_strlit("uri");
        reveal_strlit("sellerFeeBasisPoints");
        reveal_strlit("creators");
        reveal_strlit("collection");
        assert("name"@.len() == 4);
        assert("symbol"@.len() == 6);
        assert("uri"@.len() == 3);
        assert("sellerFeeBasisPoints"@.len() == 20);
        assert("creators"@.len() == 8);
        assert("collection"@.len() == 10);
        crate::fields::lemma_obj_get_index(ms, 0);
        crate::fields::lemma_obj_get_index(ms, 1);
        crate::fields::lemma_obj_get_index(ms, 2);
        crate::fields::lemma_obj_get_index(ms, 3);
        crate::fields::lemma_obj_get_index(ms, 4);
        crate::fields::lemma_obj_get_index(ms, 5);
        match self.creators {
            Option::Some(items) => {
                let docs = items@.map_values(|c: Creator| c.spec_doc());
                assert forall|k: int| 0 <= k < docs.len() implies Creator::spec_ok(#[trigger] docs[k]) by {
                    assert(docs[k] == items@[k].spec_doc());
                    items@[k].lemma_roundtrip();
                }
                assert forall|k: int| 0 <= k < items@.len() implies (#[trigger] items@[k]).matches_doc(docs[k]) by {
                    assert(docs[k] == items@[k].spec_doc());
                    items@[k].lemma_roundtrip();
                }
            },
            Option::None => {},
        }
        match self.collection {
            Option::Some(c) => {
                c.lemma_roundtrip();
            },
            Option::None => {},
        }
    }
}

/// Reads the optional `creators` array.
fn decode_creators(ms: &Vec<(String, Json)>) -> (r: Result<Option<Vec<Creator>>, DecodeError>)
    requires
        forall|k: int| 0 <= k < ms@.len() ==> jwf((#[trigger] ms@[k]).1),
    ensures
        match r {
            Result::Ok(o) => match obj_get(jv_members(ms@), "creators"@) {
                Option::None => o is None,
                Option::Some(JVal::Null) => o is None,
                Option::Some(JVal::Arr(elems)) => o matches Option::Some(items)
                    && items@.len() == elems.len()
                    && (forall|k: int| 0 <= k < elems.len()
                        ==> Creator::spec_ok(#[trigger] elems[k]))
                    && (forall|k: int| 0 <= k < elems.len()
                        ==> (#[trigger] items@[k]).matches_doc(elems[k])),
                Option::Some(_) => false,
            },
            Result::Err(e) => e == DecodeError::Shape && match obj_get(jv_members(ms@), "creators"@) {
                Option::None => false,
                Option::Some(JVal::Null) => false,
                Option::Some(JVal::Arr(elems)) => !(forall|k: int| 0 <= k < elems.len()
                    ==> Creator::spec_ok(#[trigger] elems[k])),
                Option::Some(_) => true,
            },
        },
{
    let arr = match lookup_member(ms, "creators") {
        Option::None => {
            return Result::Ok(Option::None);
        },
        Option::Some(j) => match j {
            Json::Null => {
                return Result::Ok(Option::None);
            },
            Json::Arr(elems) => elems,
            _ => {
                return Result::Err(DecodeError::Shape);
            },
        },
    };
    let ghost evs = jv_seq(arr@);
    proof {
        lemma_jv_seq(arr@);
    }
    let n: usize = arr.len();
    let mut items: Vec<Creator> = Vec::new();
    let mut i: usize = 0;
    while i < n
        invariant
            i <= n,
            n == arr@.len(),
            obj_get(jv_members(ms@), "creators"@) == Some(JVal::Arr(evs)),
            evs == jv_seq(arr@),
            evs.len() == n,
            forall|k: int| 0 <= k < n ==> evs[k] == jv(#[trigger] arr@[k]),
            forall|k: int| 0 <= k < n ==> jwf(#[trigger] arr@[k]),
            items@.len() == i,
            forall|k: int| 0 <= k < i ==> Creator::spec_ok(#[trigger] evs[k]),
            forall|k: int| 0 <= k < i ==> (#[trigger] items@[k]).matches_doc(evs[k]),
        decreases n - i,
    {
        match Creator::from_json(&arr[i]) {
            Result::Ok(it) => {
                items.push(it);
            },
            Result::Err(e) => {
                proof {
                    let g = obj_get(jv_members(ms@), "creators"@);
                    let gelems = g->0->Arr_0;
                    assert(gelems == evs);
                    assert(!(forall|k: int| 0 <= k < gelems.len()
                        ==> Creator::spec_ok(#[trigger] gelems[k]))) by {
                        assert(!Creator::spec_ok(gelems[i as int]));
                    }
                }
                return Result::Err(e);
            },
        }
        i = i + 1;
    }
    Result::Ok(Option::Some(items))
}

/// One mint held by the owner, with its on-chain metadata.
#[derive(Debug, PartialEq, Eq)]
pub struct MintsByOwner {
    pub nft_mint: Option<String>,
    pub token_account: Option<String>,
    pub owner_account: Option<String>,
    pub metadata_address: Option<String>,
    pub metadata_json: Option<MetadataJson>,
    pub nft_collection_mint: Option<String>,
    pub verified_creators: Option<Vec<String>>,
    pub hello_moon_collection_id: Option<String>,
}

impl MintsByOwner {
    /// Whether a document fits this shape.
    pub open spec fn spec_ok(v: JVal) -> bool {
        v matches JVal::Obj(ms) && {
            &&& spec_opt_string(ms, "nftMint"@) is Ok
            &&& spec_opt_string(ms, "tokenAccount"@) is Ok
            &&& spec_opt_string(ms, "ownerAccount"@) is Ok
            &&& spec_opt_string(ms, "metadataAddress"@) is Ok
            &&& match obj_get(ms, "metadataJson"@) {
                Option::None => true,
                Option::Some(JVal::Null) => true,
                Option::Some(v2) => MetadataJson::spec_ok(v2),
            }
            &&& spec_opt_string(ms, "nftCollectionMint"@) is Ok
            &&& spec_opt_str_arr(ms, "verifiedCreators"@) is Ok
            &&& spec_opt_string(ms, "helloMoonCollectionId"@) is Ok
        }
    }

    /// Whether this value is what the document decodes to.
    pub open spec fn matches_doc(self, v: JVal) -> bool {
        v matches JVal::Obj(ms) && {
            &&& spec_opt_string(ms, "nftMint"@) == Result::<Option<Seq<char>>, ()>::Ok(o_str(self.nft_mint))
            &&& spec_opt_string(ms, "tokenAccount"@) == Result::<Option<Seq<char>>, ()>::Ok(o_str(self.token_account))
            &&& spec_opt_string(ms, "ownerAccount"@) == Result::<Option<Seq<char>>, ()>::Ok(o_str(self.owner_account))
            &&& spec_opt_string(ms, "metadataAddress"@) == Result::<Option<Seq<char>>, ()>::Ok(o_str(self.metadata_address))
            &&& match obj_get(ms, "metadataJson"@) {
                Option::None => self.metadata_json is None,
                Option::Some(JVal::Null) => self.metadata_json is None,
                Option::Some(v2) => self.metadata_json matches Option::Some(m) && m.matches_doc(v2),
            }
            &&& spec_opt_string(ms, "nftCollectionMint"@) == Result::<Option<Seq<char>>, ()>::Ok(o_str(self.nft_collection_mint))
            &&& spec_opt_str_arr(ms, "verifiedCreators"@) == Result::<Option<Seq<Seq<char>>>, ()>::Ok(
                match self.verified_creators {
                    Option::None => Option::<Seq<Seq<char>>>::None,
                    Option::Some(vs) => Option::Some(vs@.map_values(|s: String| s@)),
                },
            )
            &&& spec_opt_string(ms, "helloMoonCollectionId"@) == Result::<Option<Seq<char>>, ()>::Ok(o_str(self.hello_moon_collection_id))
        }
    }

    /// Reads one record out of a document.
    pub fn from_json(doc: &Json) -> (r: Result<Self, DecodeError>)
        requires
            jwf(*doc),
        ensures
            match r {
                Result::Ok(it) => Self::spec_ok(jv(*doc)) && it.matches_doc(jv(*doc)),
                Result::Err(e) => e == DecodeError::Shape && !Self::spec_ok(jv(*doc)),
            },
    {
        let ms = match doc {
            Json::Obj(ms) => ms,
            _ => {
                return Result::Err(DecodeError::Shape);
            },
        };
        proof {
            assert(jv(*doc) == JVal::Obj(jv_members(ms@)));
        }
        let nft_mint = match get_opt_string(ms, "nftMint") {
            Result::Ok(o) => o,
            Result::Err(e) => {
                return Result::Err(e);
            },
        };
        let token_account = match get_opt_string(ms, "tokenAccount") {
            Result::Ok(o) => o,
            Result::Err(e) => {
                return Result::Err(e);
            },
        };
        let owner_account = match get_opt_string(ms, "ownerAccount") {
            Result::Ok(o) => o,
            Result::Err(e) => {
                return Result::Err(e);
            },
        };
        let metadata_address = match get_opt_string(ms, "metadataAddress") {
            Result::Ok(o) => o,
            Result::Err(e) => {
                return Result::Err(e);
            },
        };
        let metadata_json = match lookup_member(ms, "metadataJson") {
            Option::None => Option::None,
            Option::Some(j) => match j {
                Json::Null => Option::None,
                _ => match MetadataJson::from_json(j) {
                    Result::Ok(m) => Option::Some(m),
                    Result::Err(e) => {
                        return Result::Err(e);
                    },
                },
            },
        };
        let nft_collection_mint = match get_opt_string(ms, "nftCollectionMint") {
            Result::Ok(o) => o,
            Result::Err(e) => {
                return Result::Err(e);
            },
        };
        let verified_creators = match get_opt_str_arr(ms, "verifiedCreators") {
            Result::Ok(o) => o,
            Result::Err(e) => {
                return Result::Err(e);
            },
        };
        let hello_moon_collection_id = match get_opt_string(ms, "helloMoonCollectionId") {
            Result::Ok(o) => o,
            Result::Err(e) => {
                return Result::Err(e);
            },
        };
        Result::Ok(MintsByOwner {
            nft_mint,
            token_account,
            owner_account,
            metadata_address,
            metadata_json,
            nft_collection_mint,
            verified_creators,
            hello_moon_collection_id,
        })
    }

    /// The canonical document of this value: every field written, `null`
    /// for absent ones, in declaration order.
    pub open spec fn spec_doc(self) -> JVal {
        JVal::Obj(seq![
            ("nftMint"@, jv_opt_str(self.nft_mint)),
            ("tokenAccount"@, jv_opt_str(self.token_account)),
            ("ownerAccount"@, jv_opt_str(self.owner_account)),
            ("metadataAddress"@, jv_opt_str(self.metadata_address)),
            ("metadataJson"@, match self.metadata_json {
                Option::None => JVal::Null,
                Option::Some(m) => m.spec_doc(),
            }),
            ("nftCollectionMint"@, jv_opt_str(self.nft_collection_mint)),
            ("verifiedCreators"@, jv_opt_str_arr(self.verified_creators)),
            ("helloMoonCollectionId"@, jv_opt_str(self.hello_moon_collection_id)),
        ])
    }

    /// Serializes this value to its canonical document.
    pub fn to_json(&self) -> (r: Json)
        ensures
            jv(r) == self.spec_doc(),
            jwf(r),
    {
        let mut out: Vec<(String, Json)> = Vec::new();
        proof {
            assert(jv_members(out@) =~= Seq::<(Seq<char>, JVal)>::empty());
        }
        put_str_field(&mut out, "nftMint", &self.nft_mint);
        put_str_field(&mut out, "tokenAccount", &self.token_account);
        put_str_field(&mut out, "ownerAccount", &self.owner_account);
        put_str_field(&mut out, "metadataAddress", &self.metadata_address);
        let metadata_doc: Json = match &self.metadata_json {
            Option::None => Json::Null,
            Option::Some(m) => m.to_json(),
        };
        put_doc_field(&mut out, "metadataJson", metadata_doc);
        put_str_field(&mut out, "nftCollectionMint", &self.nft_collection_mint);
        put_str_arr_field(&mut out, "verifiedCreators", &self.verified_creators);
        put_str_field(&mut out, "helloMoonCollectionId", &self.hello_moon_collection_id);
        proof {
            assert(jv_members(out@) =~= self.spec_doc()->Obj_0);
        }
        Json::Obj(out)
    }

    /// The canonical document is well formed.
    pub proof fn lemma_spec_doc_wf(self)
        ensures
            wf(self.spec_doc()),
    {
        let ms = self.spec_doc()->Obj_0;
        match self.metadata_json {
            Option::Some(m) => {
                m.lemma_spec_doc_wf();
            },
            Option::None => {},
        }
        match self.verified_creators {
            Option::Some(vs) => {
                let docs = vs@.map_values(|t: String| JVal::Str(t@));
                assert forall|k: int| 0 <= k < docs.len() implies wf(#[trigger] docs[k]) by {
                    assert(docs[k] == JVal::Str(vs@[k]@));
                }
                assert(wf(ms[6].1));
            },
            Option::None => {},
        }
        assert forall|k: int| 0 <= k < ms.len() implies wf(#[trigger] ms[k].1) by {}
    }

    /// Decoding the canonical document gives the value back.
    #[verifier::rlimit(50)]
    pub proof fn lemma_roundtrip(self)
        ensures
            Self::spec_ok(self.spec_doc()),
            self.matches_doc(self.spec_doc()),
    {
        let ms = self.spec_doc()->Obj_0;
        reveal_strlit("nftMint");
        reveal_strlit("tokenAccount");
        reveal_strlit("ownerAccount");
        reveal_strlit("metadataAddress");
        reveal_strlit("metadataJson");
        reveal_strlit("nftCollectionMint");
        reveal_strlit("verifiedCreators");
        reveal_strlit("helloMoonCollectionId");
        assert("nftMint"@.len() == 7);
        assert("tokenAccount"@.len() == 12);
        assert("ownerAccount"@.len() == 12);
        assert("metadataAddress"@.len() == 15);
        assert("metadataJson"@.len() == 12);
        assert("nftCollectionMint"@.len() == 17);
        assert("verifiedCreators"@.len() == 16);
        assert("helloMoonCollectionId"@.len() == 21);
        assert("tokenAccount"@[0] == 't');
        assert("ownerAccount"@[0] == 'o');
        assert("metadataJson"@[0] == 'm');
        crate::fields::lemma_obj_get_index(ms, 0);
        crate::fields::lemma_obj_get_index(ms, 1);
        crate::fields::lemma_obj_get_index(ms, 2);
        crate::fields::lemma_obj_get_index(ms, 3);
        crate::fields::lemma_obj_get_index(ms, 4);
        crate::fields::lemma_obj_get_index(ms, 5);
        crate::fields::lemma_obj_get_index(ms, 6);
        crate::fields::lemma_obj_get_index(ms, 7);
        match self.metadata_json {
            Option::Some(m) => {
                m.lemma_roundtrip();
            },
            Option::None => {},
        }
        match self.verified_creators {
            Option::Some(vs) => {
                let docs = vs@.map_values(|t: String| JVal::Str(t@));
                assert(crate::decode::all_strings(docs)) by {
                    assert forall|k: int| 0 <= k < docs.len() implies (#[trigger] docs[k]) is Str by {
                        assert(docs[k] == JVal::Str(vs@[k]@));
                    }
                }
                assert(crate::decode::str_values(docs) =~= vs@.map_values(|t: String| t@));
            },
            Option::None => {},
        }
    }
}

/// The response envelope: an optional run of records and an optional
/// continuation token.
#[derive(Debug, PartialEq, Eq)]
pub struct MintsByOwnerResponse {
    pub data: Option<Vec<MintsByOwner>>,
    pub pagination_token: Option<String>,
}

impl MintsByOwnerResponse {
    /// Whether a document fits the envelope's shape.
    pub open spec fn spec_ok(v: JVal) -> bool {
        v matches JVal::Obj(ms) && {
            &&& spec_opt_string(ms, "paginationToken"@) is Ok
            &&& match obj_get(ms, "data"@) {
                Option::None => true,
                Option::Some(JVal::Null) => true,
                Option::Some(JVal::Arr(elems)) => forall|k: int| 0 <= k < elems.len()
                    ==> MintsByOwner::spec_ok(#[trigger] elems[k]),
                Option::Some(_) => false,
            }
        }
    }

    /// Whether this value is what the document decodes to.
    pub open spec fn matches_doc(self, v: JVal) -> bool {
        v matches JVal::Obj(ms) && {
            &&& spec_opt_string(ms, "paginationToken"@) == Result::<Option<Seq<char>>, ()>::Ok(o_str(self.pagination_token))
            &&& match obj_get(ms, "data"@) {
                Option::None => self.data is None,
                Option::Some(JVal::Null) => self.data is None,
                Option::Some(JVal::Arr(elems)) => self.data matches Option::Some(items)
                    && items@.len() == elems.len()
                    && (forall|k: int| 0 <= k < elems.len()
                        ==> (#[trigger] items@[k]).matches_doc(elems[k])),
                Option::Some(_) => false,
            }
        }
    }

    /// Reads the envelope out of a document.
    pub fn from_json(doc: &Json) -> (r: Result<Self, DecodeError>)
        requires
            jwf(*doc),
        ensures
            match r {
                Result::Ok(resp) => Self::spec_ok(jv(*doc)) && resp.matches_doc(jv(*doc)),
                Result::Err(e) => e == DecodeError::Shape && !Self::spec_ok(jv(*doc)),
            },
    {
        let ms = match doc {
            Json::Obj(ms) => ms,
            _ => {
                return Result::Err(DecodeError::Shape);
            },
        };
        proof {
            assert(jv(*doc) == JVal::Obj(jv_members(ms@)));
        }
        let pagination_token = match get_opt_string(ms, "paginationToken") {
            Result::Ok(o) => o,
            Result::Err(e) => {
                return Result::Err(e);
            },
        };
        let data = match decode_data(ms) {
            Result::Ok(o) => o,
            Result::Err(e) => {
                return Result::Err(e);
            },
        };
        Result::Ok(MintsByOwnerResponse { data, pagination_token })
    }

    /// The canonical document of this envelope.
    pub open spec fn spec_doc(self) -> JVal {
        JVal::Obj(seq![
            ("data"@, match self.data {
                Option::None => JVal::Null,
                Option::Some(items) => JVal::Arr(items@.map_values(|it: MintsByOwner| it.spec_doc())),
            }),
            ("paginationToken"@, jv_opt_str(self.pagination_token)),
        ])
    }

    /// Serializes this envelope to its canonical document.
    pub fn to_json(&self) -> (r: Json)
        ensures
            jv(r) == self.spec_doc(),
            jwf(r),
    {
        let mut out: Vec<(String, Json)> = Vec::new();
        proof {
            assert(jv_members(out@) =~= Seq::<(Seq<char>, JVal)>::empty());
        }
        let data_doc: Json = match &self.data {
            Option::None => Json::Null,
            Option::Some(items) => {
                let ghost docs_s = items@.map_values(|it: MintsByOwner| it.spec_doc());
                let n: usize = items.len();
                let mut docs: Vec<Json> = Vec::new();
                let mut i: usize = 0;
                proof {
                    assert(jv_seq(docs@) =~= docs_s.take(0));
                }
                while i < n
                    invariant
                        i <= n,
                        n == items@.len(),
                        docs_s == items@.map_values(|it: MintsByOwner| it.spec_doc()),
                        docs_s.len() == n,
                        docs@.len() == i,
                        jv_seq(docs@) == docs_s.take(i as int),
                        forall|k: int| 0 <= k < docs@.len() ==> jwf(#[trigger] docs@[k]),
                    decreases n - i,
                {
                    let ghost docs0 = docs@;
                    let d = items[i].to_json();
                    docs.push(d);
                    proof {
                        crate::json::lemma_jv_seq_push(docs0, d);
                        assert(docs_s[i as int] == items@[i as int].spec_doc());
                        assert(docs_s.take(i + 1) =~= docs_s.take(i as int).push(docs_s[i as int]));
                        assert(jv_seq(docs@) =~= docs_s.take(i + 1));
                    }
                    i = i + 1;
                }
                proof {
                    assert(docs_s.take(n as int) =~= docs_s);
                }
                Json::Arr(docs)
            },
        };
        put_doc_field(&mut out, "data", data_doc);
        put_str_field(&mut out, "paginationToken", &self.pagination_token);
        proof {
            assert(jv_members(out@) =~= self.spec_doc()->Obj_0);
        }
        Json::Obj(out)
    }

    /// The canonical document is well formed.
    pub proof fn lemma_spec_doc_wf(self)
        ensures
            wf(self.spec_doc()),
    {
        let ms = self.spec_doc()->Obj_0;
        match self.data {
            Option::Some(items) => {
                let docs = items@.map_values(|it: MintsByOwner| it.spec_doc());
                assert forall|k: int| 0 <= k < docs.len() implies wf(#[trigger] docs[k]) by {
                    assert(docs[k] == items@[k].spec_doc());
                    items@[k].lemma_spec_doc_wf();
                }
                assert(wf(ms[0].1));
            },
            Option::None => {},
        }
        assert forall|k: int| 0 <= k < ms.len() implies wf(#[trigger] ms[k].1) by {}
    }

    /// Decoding the canonical document gives the envelope back.
    pub proof fn lemma_roundtrip(self)
        ensures
            Self::spec_ok(self.spec_doc()),
            self.matches_doc(self.spec_doc()),
    {
        let ms = self.spec_doc()->Obj_0;
        reveal_strlit("data");
        reveal_strlit("paginationToken");
        assert("data"@.len() == 4);
        assert("paginationToken"@.len() == 15);
        crate::fields::lemma_obj_get_index(ms, 0);
        crate::fields::lemma_obj_get_index(ms, 1);
        match self.data {
            Option::Some(items) => {
                let docs = items@.map_values(|it: MintsByOwner| it.spec_doc());
                assert forall|k: int| 0 <= k < docs.len() implies MintsByOwner::spec_ok(#[trigger] docs[k]) by {
                    assert(docs[k] == items@[k].spec_doc());
                    items@[k].lemma_roundtrip();
                }
                assert forall|k: int| 0 <= k < items@.len() implies (#[trigger] items@[k]).matches_doc(docs[k]) by {
                    assert(docs[k] == items@[k].spec_doc());
                    items@[k].lemma_roundtrip();
                }
            },
            Option::None => {},
        }
    }

    /// Round trip through the wire: the rendered text of the canonical
    /// document parses back to it, and decoding it yields exactly this
    /// envelope's values.
    pub proof fn lemma_text_roundtrip(self)
        ensures
            spec_parse(ser_val(self.spec_doc())) == Some(self.spec_doc()),
            Self::spec_ok(self.spec_doc()),
            self.matches_doc(self.spec_doc()),
    {
        self.lemma_spec_doc_wf();
        crate::roundtrip::lemma_parse_render(self.spec_doc());
        self.lemma_roundtrip();
    }
}

/// Reads the optional `data` array of records.
fn decode_data(ms: &Vec<(String, Json)>) -> (r: Result<Option<Vec<MintsByOwner>>, DecodeError>)
    requires
        forall|k: int| 0 <= k < ms@.len() ==> jwf((#[trigger] ms@[k]).1),
    ensures
        match r {
            Result::Ok(o) => match obj_get(jv_members(ms@), "data"@) {
                Option::None => o is None,
                Option::Some(JVal::Null) => o is None,
                Option::Some(JVal::Arr(elems)) => o matches Option::Some(items)
                    && items@.len() == elems.len()
                    && (forall|k: int| 0 <= k < elems.len()
                        ==> MintsByOwner::spec_ok(#[trigger] elems[k]))
                    && (forall|k: int| 0 <= k < elems.len()
                        ==> (#[trigger] items@[k]).matches_doc(elems[k])),
                Option::Some(_) => false,
            },
            Result::Err(e) => e == DecodeError::Shape && match obj_get(jv_members(ms@), "data"@) {
                Option::None => false,
                Option::Some(JVal::Null) => false,
                Option::Some(JVal::Arr(elems)) => !(forall|k: int| 0 <= k < elems.len()
                    ==> MintsByOwner::spec_ok(#[trigger] elems[k])),
                Option::Some(_) => true,
            },
        },
{
    let arr = match lookup_member(ms, "data") {
        Option::None => {
            return Result::Ok(Option::None);
        },
        Option::Some(j) => match j {
            Json::Null => {
                return Result::Ok(Option::None);
            },
            Json::Arr(elems) => elems,
            _ => {
                return Result::Err(DecodeError::Shape);
            },
        },
    };
    let ghost evs = jv_seq(arr@);
    proof {
        lemma_jv_seq(arr@);
    }
    let n: usize = arr.len();
    let mut items: Vec<MintsByOwner> = Vec::new();
    let mut i: usize = 0;
    while i < n
        invariant
            i <= n,
            n == arr@.len(),
            obj_get(jv_members(ms@), "data"@) == Some(JVal::Arr(evs)),
            evs == jv_seq(arr@),
            evs.len() == n,
            forall|k: int| 0 <= k < n ==> evs[k] == jv(#[trigger] arr@[k]),
            forall|k: int| 0 <= k < n ==> jwf(#[trigger] arr@[k]),
            items@.len() == i,
            forall|k: int| 0 <= k < i ==> MintsByOwner::spec_ok(#[trigger] evs[k]),
            forall|k: int| 0 <= k < i ==> (#[trigger] items@[k]).matches_doc(evs[k]),
        decreases n - i,
    {
        match MintsByOwner::from_json(&arr[i]) {
            Result::Ok(it) => {
                items.push(it);
            },
            Result::Err(e) => {
                proof {
                    let g = obj_get(jv_members(ms@), "data"@);
                    let gelems = g->0->Arr_0;
                    assert(gelems == evs);
                    assert(!(forall|k: int| 0 <= k < gelems.len()
                        ==> MintsByOwner::spec_ok(#[trigger] gelems[k]))) by {
                        assert(!MintsByOwner::spec_ok(gelems[i as int]));
                    }
                }
                return Result::Err(e);
            },
        }
        i = i + 1;
    }
    Result::Ok(Option::Some(items))
}

impl crate::decode::ResponseEnvelope for MintsByOwnerResponse {
    open spec fn env_ok(v: JVal) -> bool {
        MintsByOwnerResponse::spec_ok(v)
    }

    open spec fn env_matches(self, v: JVal) -> bool {
        self.matches_doc(v)
    }

    fn env_from_json(doc: &Json) -> Result<Self, DecodeError> {
        MintsByOwnerResponse::from_json(doc)
    }

    proof fn lemma_empty_envelope() {
        let ms = crate::decode::empty_envelope()->Obj_0;
        reveal_strlit("data");
        reveal_strlit("paginationToken");
        assert("data"@.len() == 4);
        assert("paginationToken"@.len() == 15);
        crate::fields::lemma_obj_get_index(ms, 0);
        crate::fields::lemma_obj_get_index(ms, 1);
    }
}

/// Decodes one response body: `Syntax` when the body is not valid JSON,
/// `Shape` when it does not fit the envelope, the typed response
/// otherwise.
pub fn mints_by_owners_decode(body: &str) -> (r: Result<MintsByOwnerResponse, DecodeError>)
    ensures
        match spec_parse(body@) {
            Option::None => r == Result::<MintsByOwnerResponse, DecodeError>::Err(DecodeError::Syntax),
            Option::Some(v) => match r {
                Result::Ok(resp) => MintsByOwnerResponse::spec_ok(v) && resp.matches_doc(v),
                Result::Err(e) => e == DecodeError::Shape && !MintsByOwnerResponse::spec_ok(v),
            },
        },
{
    crate::decode::decode_body::<MintsByOwnerResponse>(body)
}

} // verus!
