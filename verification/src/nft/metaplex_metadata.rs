//! Metaplex mint information, `POST <root>/nft/mint_information`.

use vstd::prelude::*;

use crate::call::{PreparedCall, headers_model, hellomoon_root_url, prepare_call, root_url, spec_headers};
use crate::decode::{
    DecodeError, get_opt_str_arr, get_opt_string, get_req_bool, get_req_string, get_req_u64,
    jv_opt_str_arr, lookup_member, put_str_arr_field, spec_opt_str_arr, spec_opt_string,
    spec_req_bool, spec_req_string, spec_req_u64,
};
use crate::fields::{
    obj_get, opt_count, opt_text, push_count, push_text, put_bool_field, put_doc_field, put_str_field, put_u64_field,
};
use crate::json::{
    JVal, Json, jv, jv_members, jv_opt_str, jv_seq, jwf, lemma_jv_seq, o_str, ser_val, wf,
};
use crate::parse::spec_parse;

verus! {
broadcast use vstd::seq::group_seq_axioms, vstd::std_specs::vec::group_vec_axioms;

/// What to ask the mint-information endpoint for.
pub struct MetaplexMetadataRequest {
    pub nft_mint: String,
    pub nft_collection_mint: String,
    pub limit: usize,
    pub page: usize,
    pub pagination_token: String,
}

impl MetaplexMetadataRequest {
    /// The members of the serialized request body, in declaration order,
    /// sentinel fields omitted.
    pub open spec fn spec_members(self) -> Seq<(Seq<char>, JVal)> {
        opt_text("nftMint"@, self.nft_mint@)
            + opt_text("nftCollectionMint"@, self.nft_collection_mint@)
            + opt_count("limit"@, self.limit as int)
            + opt_count("page"@, self.page as int)
            + opt_text("paginationToken"@, self.pagination_token@)
    }

    /// Serializes the request body.
    pub fn to_json(&self) -> (r: Json)
        ensures
            jv(r) == JVal::Obj(self.spec_members()),
            jwf(r),
    {
        let mut out: Vec<(String, Json)> = Vec::new();
        proof {
            assert(jv_members(out@) =~= Seq::<(Seq<char>, JVal)>::empty());
        }
        push_text(&mut out, "nftMint", &self.nft_mint);
        push_text(&mut out, "nftCollectionMint", &self.nft_collection_mint);
        push_count(&mut out, "limit", self.limit);
        push_count(&mut out, "page", self.page);
        push_text(&mut out, "paginationToken", &self.pagination_token);
        proof {
            assert(jv_members(out@) =~= self.spec_members());
        }
        Json::Obj(out)
    }
}

impl crate::call::RequestShape for MetaplexMetadataRequest {
    open spec fn req_members(self) -> Seq<(Seq<char>, JVal)> {
        self.spec_members()
    }

    fn req_to_json(&self) -> (r: Json) {
        self.to_json()
    }
}

impl MetaplexMetadataRequest {
    /// Sentinel omission: each field stands in the serialized object
    /// exactly when its value is not the sentinel, under its wire name,
    /// with its serialized value; a sentinel field's name is absent.
    #[verifier::rlimit(100)]
    pub proof fn lemma_sentinel_omission(self)
        ensures
            obj_get(self.spec_members(), "nftMint"@) == (if self.nft_mint@.len() > 0 {
                Option::Some(JVal::Str(self.nft_mint@))
            } else {
                Option::<JVal>::None
            }),
            obj_get(self.spec_members(), "nftCollectionMint"@) == (if self.nft_collection_mint@.len() > 0 {
                Option::Some(JVal::Str(self.nft_collection_mint@))
            } else {
                Option::<JVal>::None
            }),
            obj_get(self.spec_members(), "limit"@) == (if self.limit > 0 {
                Option::Some(JVal::Int(self.limit as int))
            } else {
                Option::<JVal>::None
            }),
            obj_get(self.spec_members(), "page"@) == (if self.page > 0 {
                Option::Some(JVal::Int(self.page as int))
            } else {
                Option::<JVal>::None
            }),
            obj_get(self.spec_members(), "paginationToken"@) == (if self.pagination_token@.len() > 0 {
                Option::Some(JVal::Str(self.pagination_token@))
            } else {
                Option::<JVal>::None
            }),
    {
        reveal_strlit("limit");
        reveal_strlit("nftCollectionMint");
        reveal_strlit("nftMint");
        reveal_strlit("page");
        reveal_strlit("paginationToken");
        assert("limit"@.len() == 5);
        assert("nftCollectionMint"@.len() == 17);
        assert("nftMint"@.len() == 7);
        assert("page"@.len() == 4);
        assert("paginationToken"@.len() == 15);
        let s1 = crate::fields::seg("nftMint"@, self.nft_mint@.len() > 0, JVal::Str(self.nft_mint@));
        let s2 = crate::fields::seg("nftCollectionMint"@, self.nft_collection_mint@.len() > 0, JVal::Str(self.nft_collection_mint@));
        let s3 = crate::fields::seg("limit"@, self.limit > 0, JVal::Int(self.limit as int));
        let s4 = crate::fields::seg("page"@, self.page > 0, JVal::Int(self.page as int));
        let s5 = crate::fields::seg("paginationToken"@, self.pagination_token@.len() > 0, JVal::Str(self.pagination_token@));
        assert(self.spec_members() =~= s1 + s2 + s3 + s4 + s5);
        crate::fields::lemma_seg_get_any("nftMint"@, self.nft_mint@.len() > 0, JVal::Str(self.nft_mint@));
        crate::fields::lemma_seg_get_any("nftCollectionMint"@, self.nft_collection_mint@.len() > 0, JVal::Str(self.nft_collection_mint@));
        crate::fields::lemma_seg_get_any("limit"@, self.limit > 0, JVal::Int(self.limit as int));
        crate::fields::lemma_seg_get_any("page"@, self.page > 0, JVal::Int(self.page as int));
        crate::fields::lemma_seg_get_any("paginationToken"@, self.pagination_token@.len() > 0, JVal::Str(self.pagination_token@));
        crate::fields::lemma_obj_get_concat(s1 + s2 + s3 + s4, s5, "nftMint"@);
        crate::fields::lemma_obj_get_concat(s1 + s2 + s3, s4, "nftMint"@);
        crate::fields::lemma_obj_get_concat(s1 + s2, s3, "nftMint"@);
        crate::fields::lemma_obj_get_concat(s1, s2, "nftMint"@);
        crate::fields::lemma_obj_get_concat(s1 + s2 + s3 + s4, s5, "nftCollectionMint"@);
        crate::fields::lemma_obj_get_concat(s1 + s2 + s3, s4, "nftCollectionMint"@);
        crate::fields::lemma_obj_get_concat(s1 + s2, s3, "nftCollectionMint"@);
        crate::fields::lemma_obj_get_concat(s1, s2, "nftCollectionMint"@);
        crate::fields::lemma_obj_get_concat(s1 + s2 + s3 + s4, s5, "limit"@);
        crate::fields::lemma_obj_get_concat(s1 + s2 + s3, s4, "limit"@);
        crate::fields::lemma_obj_get_concat(s1 + s2, s3, "limit"@);
        crate::fields::lemma_obj_get_concat(s1, s2, "limit"@);
        crate::fields::lemma_obj_get_concat(s1 + s2 + s3 + s4, s5, "page"@);
        crate::fields::lemma_obj_get_concat(s1 + s2 + s3, s4, "page"@);
        crate::fields::lemma_obj_get_concat(s1 + s2, s3, "page"@);
        crate::fields::lemma_obj_get_concat(s1, s2, "page"@);
        crate::fields::lemma_obj_get_concat(s1 + s2 + s3 + s4, s5, "paginationToken"@);
        crate::fields::lemma_obj_get_concat(s1 + s2 + s3, s4, "paginationToken"@);
        crate::fields::lemma_obj_get_concat(s1 + s2, s3, "paginationToken"@);
        crate::fields::lemma_obj_get_concat(s1, s2, "paginationToken"@);
    }
}

impl Default for MetaplexMetadataRequest {
    fn default() -> (r: Self)
        ensures
            r.nft_mint@ == Seq::<char>::empty(),
            r.nft_collection_mint@ == Seq::<char>::empty(),
            r.limit == 0,
            r.page == 0,
            r.pagination_token@ == Seq::<char>::empty(),
    {
        MetaplexMetadataRequest {
            nft_mint: String::new(),
            nft_collection_mint: String::new(),
            limit: 0,
            page: 0,
            pagination_token: String::new(),
        }
    }
}

/// The path of this endpoint under the API root.
pub open spec fn metaplex_metadata_url() -> Seq<char> {
    root_url() + "/nft/mint_information"@
}

/// Prepares one mint-information call.
pub fn metaplex_metadata(api_key: &str, request: Option<&MetaplexMetadataRequest>) -> (r: PreparedCall)
    ensures
        r.url@ == metaplex_metadata_url(),
        headers_model(r.headers@) == spec_headers(api_key@),
        match request {
            Option::None => r.body is None,
            Option::Some(req) => r.body matches Option::Some(b)
                && b@ == ser_val(JVal::Obj(req.spec_members())),
        },
{
    let url = hellomoon_root_url().to_owned().concat("/nft/mint_information");
    prepare_call(url, api_key, request)
}

/// One royalty creator: every field is required.
#[derive(Debug, PartialEq, Eq)]
pub struct Creator {
    pub address: String,
    pub verified: bool,
    pub share: u64,
}

impl Creator {
    /// Whether a document fits this shape.
    pub open spec fn spec_ok(v: JVal) -> bool {
        v matches JVal::Obj(ms) && {
            &&& spec_req_string(ms, "address"@) is Ok
            &&& spec_req_bool(ms, "verified"@) is Ok
            &&& spec_req_u64(ms, "share"@) is Ok
        }
    }

    /// Whether this value is what the document decodes to.
    pub open spec fn matches_doc(self, v: JVal) -> bool {
        v matches JVal::Obj(ms) && {
            &&& spec_req_string(ms, "address"@) == Result::<Seq<char>, ()>::Ok(self.address@)
            &&& spec_req_bool(ms, "verified"@) == Result::<bool, ()>::Ok(self.verified)
            &&& spec_req_u64(ms, "share"@) == Result::<int, ()>::Ok(self.share as int)
        }
    }

    /// Reads one creator out of a document.
    pub fn from_json(doc: &Json) -> (r: Result<Self, DecodeError>)
        requires
            jwf(*doc),
        ensures
            match r {
                Result::Ok(it) => Self::spec_ok(jv(*doc)) && it.matches_doc(jv(*doc)),
                Result::Err(e) => e == DecodeError::Shape && !Self::spec_ok(jv(*doc)),
            },
    {
        let ms = match doc {
            Json::Obj(ms) => ms,
            _ => {
                return Result::Err(DecodeError::Shape);
            },
        };
        let address = match get_req_string(ms, "address") {
            Result::Ok(s) => s,
            Result::Err(e) => {
                return Result::Err(e);
            },
        };
        let verified = match get_req_bool(ms, "verified") {
            Result::Ok(b) => b,
            Result::Err(e) => {
                return Result::Err(e);
            },
        };
        let share = match get_req_u64(ms, "share") {
            Result::Ok(u) => u,
            Result::Err(e) => {
                return Result::Err(e);
            },
        };
        Result::Ok(Creator { address, verified, share })
    }

    /// The canonical document of this value, in declaration order.
    pub open spec fn spec_doc(self) -> JVal {
        JVal::Obj(seq![
            ("address"@, JVal::Str(self.address@)),
            ("verified"@, JVal::Bool(self.verified)),
            ("share"@, JVal::Int(self.share as int)),
        ])
    }

    /// Serializes this value to its canonical document.
    pub fn to_json(&self) -> (r: Json)
        ensures
            jv(r) == self.spec_doc(),
            jwf(r),
    {
        let mut out: Vec<(String, Json)> = Vec::new();
        proof {
            assert(jv_members(out@) =~= Seq::<(Seq<char>, JVal)>::empty());
        }
        put_str_field(&mut out, "address", &Option::Some(self.address.clone()));
        put_bool_field(&mut out, "verified", &Option::Some(self.verified));
        put_u64_field(&mut out, "share", &Option::Some(self.share));
        proof {
            assert(jv_members(out@) =~= self.spec_doc()->Obj_0);
        }
        Json::Obj(out)
    }

    /// The canonical document is well formed.
    pub proof fn lemma_spec_doc_wf(self)
        ensures
            wf(self.spec_doc()),
    {
        let ms = self.spec_doc()->Obj_0;
        assert forall|k: int| 0 <= k < ms.len() implies wf(#[trigger] ms[k].1) by {}
    }

    /// Decoding the canonical document gives the value back.
    pub proof fn lemma_roundtrip(self)
        ensures
            Self::spec_ok(self.spec_doc()),
            self.matches_doc(self.spec_doc()),
    {
        let ms = self.spec_doc()->Obj_0;
        reveal_strlit("address");
        reveal_strlit("verified");
        reveal_strlit("share");
        assert("address"@.len() == 7);
        assert("verified"@.len() == 8);
        assert("share"@.len() == 5);
        crate::fields::lemma_obj_get_index(ms, 0);
        crate::fields::lemma_obj_get_index(ms, 1);
        crate::fields::lemma_obj_get_index(ms, 2);
    }
}

/// The on-chain metadata of a mint: name, symbol, URI, royalties, and
/// the creators that share them.
#[derive(Debug, PartialEq, Eq)]
pub struct NftMetadataJson {
    pub name: String,
    pub symbol: String,
    pub uri: String,
    pub seller_fee_basis_points: u64,
    pub creators: Option<Vec<Creator>>,
}

impl NftMetadataJson {
    /// Whether a document fits this shape.
    pub open spec fn spec_ok(v: JVal) -> bool {
        v matches JVal::Obj(ms) && {
            &&& spec_req_string(ms, "name"@) is Ok
            &&& spec_req_string(ms, "symbol"@) is Ok
            &&& spec_req_string(ms, "uri"@) is Ok
            &&& spec_req_u64(ms, "sellerFeeBasisPoints"@) is Ok
            &&& match obj_get(ms, "creators"@) {
                Option::None => true,
                Option::Some(JVal::Null) => true,
                Option::Some(JVal::Arr(elems)) => forall|k: int| 0 <= k < elems.len()
                    ==> Creator::spec_ok(#[trigger] elems[k]),
                Option::Some(_) => false,
            }
        }
    }

    /// Whether this value is what the document decodes to.
    pub open spec fn matches_doc(self, v: JVal) -> bool {
        v matches JVal::Obj(ms) && {
            &&& spec_req_string(ms, "name"@) == Result::<Seq<char>, ()>::Ok(self.name@)
            &&& spec_req_string(ms, "symbol"@) == Result::<Seq<char>, ()>::Ok(self.symbol@)
            &&& spec_req_string(ms, "uri"@) == Result::<Seq<char>, ()>::Ok(self.uri@)
            &&& spec_req_u64(ms, "sellerFeeBasisPoints"@) == Result::<int, ()>::Ok(self.seller_fee_basis_points as int)
            &&& match obj_get(ms, "creators"@) {
                Option::None => self.creators is None,
                Option::Some(JVal::Null) => self.creators is None,
                Option::Some(JVal::Arr(elems)) => self.creators matches Option::Some(items)
                    && items@.len() == elems.len()
                    && (forall|k: int| 0 <= k < elems.len()
                        ==> (#[trigger] items@[k]).matches_doc(elems[k])),
                Option::Some(_) => false,
            }
        }
    }

    /// Reads the metadata out of a document.
    pub fn from_json(doc: &Json) -> (r: Result<Self, DecodeError>)
        requires
            jwf(*doc),
        ensures
            match r {
                Result::Ok(it) => Self::spec_ok(jv(*doc)) && it.matches_doc(jv(*doc)),
                Result::Err(e) => e == DecodeError::Shape && !Self::spec_ok(jv(*doc)),
            },
    {
        let ms = match doc {
            Json::Obj(ms) => ms,
            _ => {
                return Result::Err(DecodeError::Shape);
            },
        };
        proof {
            assert(jv(*doc) == JVal::Obj(jv_members(ms@)));
        }
        let name = match get_req_string(ms, "name") {
            Result::Ok(s) => s,
            Result::Err(e) => {
                return Result::Err(e);
            },
        };
        let symbol = match get_req_string(ms, "symbol") {
            Result::Ok(s) => s,
            Result::Err(e) => {
                return Result::Err(e);
            },
        };
        let uri = match get_req_string(ms, "uri") {
            Result::Ok(s) => s,
            Result::Err(e) => {
                return Result::Err(e);
            },
        };
        let seller_fee_basis_points = match get_req_u64(ms, "sellerFeeBasisPoints") {
            Result::Ok(u) => u,
            Result::Err(e) => {
                return Result::Err(e);
            },
        };
        let creators = match decode_creators(ms) {
            Result::Ok(o) => o,
            Result::Err(e) => {
                return Result::Err(e);
            },
        };
        Result::Ok(NftMetadataJson { name, symbol, uri, seller_fee_basis_points, creators })
    }

    /// The canonical document of this value, in declaration order; the
    /// optional creators array is written as `null` when absent.
    pub open spec fn spec_doc(self) -> JVal {
        JVal::Obj(seq![
            ("name"@, JVal::Str(self.name@)),
            ("symbol"@, JVal::Str(self.symbol@)),
            ("uri"@, JVal::Str(self.uri@)),
            ("sellerFeeBasisPoints"@, JVal::Int(self.seller_fee_basis_points as int)),
            ("creators"@, match self.creators {
                Option::None => JVal::Null,
                Option::Some(items) => JVal::Arr(items@.map_values(|c: Creator| c.spec_doc())),
            }),
        ])
    }

    /// Serializes this value to its canonical document.
    pub fn to_json(&self) -> (r: Json)
        ensures
            jv(r) == self.spec_doc(),
            jwf(r),
    {
        let mut out: Vec<(String, Json)> = Vec::new();
        proof {
            assert(jv_members(out@) =~= Seq::<(Seq<char>, JVal)>::empty());
        }
        put_str_field(&mut out, "name", &Option::Some(self.name.clone()));
        put_str_field(&mut out, "symbol", &Option::Some(self.symbol.clone()));
        put_str_field(&mut out, "uri", &Option::Some(self.uri.clone()));
        put_u64_field(&mut out, "sellerFeeBasisPoints", &Option::Some(self.seller_fee_basis_points));
        let creators_doc: Json = match &self.creators {
            Option::None => Json::Null,
            Option::Some(items) => {
                let ghost docs_s = items@.map_values(|c: Creator| c.spec_doc());
                let n: usize = items.len();
                let mut docs: Vec<Json> = Vec::new();
                let mut i: usize = 0;
                proof {
                    assert(jv_seq(docs@) =~= docs_s.take(0));
                }
                while i < n
                    invariant
                        i <= n,
                        n == items@.len(),
                        docs_s == items@.map_values(|c: Creator| c.spec_doc()),
                        docs_s.len() == n,
                        docs@.len() == i,
                        jv_seq(docs@) == docs_s.take(i as int),
                        forall|k: int| 0 <= k < docs@.len() ==> jwf(#[trigger] docs@[k]),
                    decreases n - i,
                {
                    let ghost docs0 = docs@;
                    let d = items[i].to_json();
                    docs.push(d);
                    proof {
                        crate::json::lemma_jv_seq_push(docs0, d);
                        assert(docs_s[i as int] == items@[i as int].spec_doc());
                        assert(docs_s.take(i + 1) =~= docs_s.take(i as int).push(docs_s[i as int]));
                        assert(jv_seq(docs@) =~= docs_s.take(i + 1));
                    }
                    i = i + 1;
                }
                proof {
                    assert(docs_s.take(n as int) =~= docs_s);
                }
                Json::Arr(docs)
            },
        };
        put_doc_field(&mut out, "creators", creators_doc);
        proof {
            assert(jv_members(out@) =~= self.spec_doc()->Obj_0);
        }
        Json::Obj(out)
    }

    /// The canonical document is well formed.
    pub proof fn lemma_spec_doc_wf(self)
        ensures
            wf(self.spec_doc()),
    {
        let ms = self.spec_doc()->Obj_0;
        match self.creators {
            Option::Some(items) => {
                let docs = items@.map_values(|c: Creator| c.spec_doc());
                assert forall|k: int| 0 <= k < docs.len() implies wf(#[trigger] docs[k]) by {
                    assert(docs[k] == items@[k].spec_doc());
                    items@[k].lemma_spec_doc_wf();
                }
                assert(wf(ms[4].1));
            },
            Option::None => {},
        }
        assert forall|k: int| 0 <= k < ms.len() implies wf(#[trigger] ms[k].1) by {}
    }

    /// Decoding the canonical document gives the value back.
    pub proof fn lemma_roundtrip(self)
        ensures
            Self::spec_ok(self.spec_doc()),
            self.matches_doc(self.spec_doc()),
    {
        let ms = self.spec_doc()->Obj_0;
        reveal_strlit("name");
        reveal_strlit("symbol");
        reveal_strlit("uri");
        reveal_strlit("sellerFeeBasisPoints");
        reveal_strlit("creators");
        assert("name"@.len() == 4);
        assert("symbol"@.len() == 6);
        assert("uri"@.len() == 3);
        assert("sellerFeeBasisPoints"@.len() == 20);
        assert("creators"@.len() == 8);
        crate::fields::lemma_obj_get_index(ms, 0);
        crate::fields::lemma_obj_get_index(ms, 1);
        crate::fields::lemma_obj_get_index(ms, 2);
        crate::fields::lemma_obj_get_index(ms, 3);
        crate::fields::lemma_obj_get_index(ms, 4);
        match self.creators {
            Option::Some(items) => {
                let docs = items@.map_values(|c: Creator| c.spec_doc());
                assert forall|k: int| 0 <= k < docs.len() implies Creator::spec_ok(#[trigger] docs[k]) by {
                    assert(docs[k] == items@[k].spec_doc());
                    items@[k].lemma_roundtrip();
                }
                assert forall|k: int| 0 <= k < items@.len() implies (#[trigger] items@[k]).matches_doc(docs[k]) by {
                    assert(docs[k] == items@[k].spec_doc());
                    items@[k].lemma_roundtrip();
                }
            },
            Option::None => {},
        }
    }
}

/// Reads the optional `creators` array.
fn decode_creators(ms: &Vec<(String, Json)>) -> (r: Result<Option<Vec<Creator>>, DecodeError>)
    requires
        forall|k: int| 0 <= k < ms@.len() ==> jwf((#[trigger] ms@[k]).1),
    ensures
        match r {
            Result::Ok(o) => match obj_get(jv_members(ms@), "creators"@) {
                Option::None => o is None,
                Option::Some(JVal::Null) => o is None,
                Option::Some(JVal::Arr(elems)) => o matches Option::Some(items)
                    && items@.len() == elems.len()
                    && (forall|k: int| 0 <= k < elems.len()
                        ==> Creator::spec_ok(#[trigger] elems[k]))
                    && (forall|k: int| 0 <= k < elems.len()
                        ==> (#[trigger] items@[k]).matches_doc(elems[k])),
                Option::Some(_) => false,
            },
            Result::Err(e) => e == DecodeError::Shape && match obj_get(jv_members(ms@), "creators"@) {
                Option::None => false,
                Option::Some(JVal::Null) => false,
                Option::Some(JVal::Arr(elems)) => !(forall|k: int| 0 <= k < elems.len()
                    ==> Creator::spec_ok(#[trigger] elems[k])),
                Option::Some(_) => true,
            },
        },
{
    let arr = match lookup_member(ms, "creators") {
        Option::None => {
            return Result::Ok(Option::None);
        },
        Option::Some(j) => match j {
            Json::Null => {
                return Result::Ok(Option::None);
            },
            Json::Arr(elems) => elems,
            _ => {
                return Result::Err(DecodeError::Shape);
            },
        },
    };
    let ghost evs = jv_seq(arr@);
    proof {
        lemma_jv_seq(arr@);
    }
    let n: usize = arr.len();
    let mut items: Vec<Creator> = Vec::new();
    let mut i: usize = 0;
    while i < n
        invariant
            i <= n,
            n == arr@.len(),
            obj_get(jv_members(ms@), "creators"@) == Some(JVal::Arr(evs)),
            evs == jv_seq(arr@),
            evs.len() == n,
            forall|k: int| 0 <= k < n ==> evs[k] == jv(#[trigger] arr@[k]),
            forall|k: int| 0 <= k < n ==> jwf(#[trigger] arr@[k]),
            items@.len() == i,
            forall|k: int| 0 <= k < i ==> Creator::spec_ok(#[trigger] evs[k]),
            forall|k: int| 0 <= k < i ==> (#[trigger] items@[k]).matches_doc(evs[k]),
        decreases n - i,
    {
        match Creator::from_json(&arr[i]) {
            Result::Ok(it) => {
                items.push(it);
            },
            Result::Err(e) => {
                proof {
                    let g = obj_get(jv_members(ms@), "creators"@);
                    let gelems = g->0->Arr_0;
                    assert(gelems == evs);
                    assert(!(forall|k: int| 0 <= k < gelems.len()
                        ==> Creator::spec_ok(#[trigger] gelems[k]))) by {
                        assert(!Creator::spec_ok(gelems[i as int]));
                    }
                }
                return Result::Err(e);
            },
        }
        i = i + 1;
    }
    Result::Ok(Option::Some(items))
}

/// One mint's on-chain information.
#[derive(Debug, PartialEq, Eq)]
pub struct MetaplexMetadata {
    pub nft_mint: String,
    pub nft_metadata_adress: String,
    pub nft_metadata_json: NftMetadataJson,
    pub nft_collection_mint: Option<String>,
    pub nft_verified_creators_array: Option<Vec<String>>,
}

impl MetaplexMetadata {
    /// Whether a document fits this shape.
    pub open spec fn spec_ok(v: JVal) -> bool {
        v matches JVal::Obj(ms) && {
            &&& spec_req_string(ms, "nftMint"@) is Ok
            &&& spec_req_string(ms, "nftMetadataAdress"@) is Ok
            &&& match obj_get(ms, "nftMetadataJson"@) {
                Option::Some(v2) => NftMetadataJson::spec_ok(v2),
                Option::None => false,
            }
            &&& spec_opt_string(ms, "nftCollectionMint"@) is Ok
            &&& spec_opt_str_arr(ms, "nftVerifiedCreatorsArray"@) is Ok
        }
    }

    /// Whether this value is what the document decodes to.
    pub open spec fn matches_doc(self, v: JVal) -> bool {
        v matches JVal::Obj(ms) && {
            &&& spec_req_string(ms, "nftMint"@) == Result::<Seq<char>, ()>::Ok(self.nft_mint@)
            &&& spec_req_string(ms, "nftMetadataAdress"@) == Result::<Seq<char>, ()>::Ok(self.nft_metadata_adress@)
            &&& match obj_get(ms, "nftMetadataJson"@) {
                Option::Some(v2) => self.nft_metadata_json.matches_doc(v2),
                Option::None => false,
            }
            &&& spec_opt_string(ms, "nftCollectionMint"@) == Result::<Option<Seq<char>>, ()>::Ok(o_str(self.nft_collection_mint))
            &&& spec_opt_str_arr(ms, "nftVerifiedCreatorsArray"@) == Result::<Option<Seq<Seq<char>>>, ()>::Ok(
                match self.nft_verified_creators_array {
                    Option::None => Option::<Seq<Seq<char>>>::None,
                    Option::Some(vs) => Option::Some(vs@.map_values(|s: String| s@)),
                },
            )
        }
    }

    /// Reads one record out of a document.
    pub fn from_json(doc: &Json) -> (r: Result<Self, DecodeError>)
        requires
            jwf(*doc),
        ensures
            match r {
                Result::Ok(it) => Self::spec_ok(jv(*doc)) && it.matches_doc(jv(*doc)),
                Result::Err(e) => e == DecodeError::Shape && !Self::spec_ok(jv(*doc)),
            },
    {
        let ms = match doc {
            Json::Obj(ms) => ms,
            _ => {
                return Result::Err(DecodeError::Shape);
            },
        };
        proof {
            assert(jv(*doc) == JVal::Obj(jv_members(ms@)));
        }
        let nft_mint = match get_req_string(ms, "nftMint") {
            Result::Ok(s) => s,
            Result::Err(e) => {
                return Result::Err(e);
            },
        };
        let nft_metadata_adress = match get_req_string(ms, "nftMetadataAdress") {
            Result::Ok(s) => s,
            Result::Err(e) => {
                return Result::Err(e);
            },
        };
        let nft_metadata_json = match lookup_member(ms, "nftMetadataJson") {
            Option::Some(j) => match NftMetadataJson::from_json(j) {
                Result::Ok(m) => m,
                Result::Err(e) => {
                    return Result::Err(e);
                },
            },
            Option::None => {
                return Result::Err(DecodeError::Shape);
            },
        };
        let nft_collection_mint = match get_opt_string(ms, "nftCollectionMint") {
            Result::Ok(o) => o,
            Result::Err(e) => {
                return Result::Err(e);
            },
        };
        let nft_verified_creators_array = match get_opt_str_arr(ms, "nftVerifiedCreatorsArray") {
            Result::Ok(o) => o,
            Result::Err(e) => {
                return Result::Err(e);
            },
        };
        Result::Ok(MetaplexMetadata {
            nft_mint,
            nft_metadata_adress,
            nft_metadata_json,
            nft_collection_mint,
            nft_verified_creators_array,
        })
    }

    /// The canonical document of this value, in declaration order.
    pub open spec fn spec_doc(self) -> JVal {
        JVal::Obj(seq![
            ("nftMint"@, JVal::Str(self.nft_mint@)),
            ("nftMetadataAdress"@, JVal::Str(self.nft_metadata_adress@)),
            ("nftMetadataJson"@, self.nft_metadata_json.spec_doc()),
            ("nftCollectionMint"@, jv_opt_str(self.nft_collection_mint)),
            ("nftVerifiedCreatorsArray"@, jv_opt_str_arr(self.nft_verified_creators_array)),
        ])
    }

    /// Serializes this value to its canonical document.
    pub fn to_json(&self) -> (r: Json)
        ensures
            jv(r) == self.spec_doc(),
            jwf(r),
    {
        let mut out: Vec<(String, Json)> = Vec::new();
        proof {
            assert(jv_members(out@) =~= Seq::<(Seq<char>, JVal)>::empty());
        }
        put_str_field(&mut out, "nftMint", &Option::Some(self.nft_mint.clone()));
        put_str_field(&mut out, "nftMetadataAdress", &Option::Some(self.nft_metadata_adress.clone()));
        put_doc_field(&mut out, "nftMetadataJson", self.nft_metadata_json.to_json());
        put_str_field(&mut out, "nftCollectionMint", &self.nft_collection_mint);
        put_str_arr_field(&mut out, "nftVerifiedCreatorsArray", &self.nft_verified_creators_array);
        proof {
            assert(jv_members(out@) =~= self.spec_doc()->Obj_0);
        }
        Json::Obj(out)
    }

    /// The canonical document is well formed.
    pub proof fn lemma_spec_doc_wf(self)
        ensures
            wf(self.spec_doc()),
    {
        let ms = self.spec_doc()->Obj_0;
        self.nft_metadata_json.lemma_spec_doc_wf();
        match self.nft_verified_creators_array {
            Option::Some(vs) => {
                let docs = vs@.map_values(|t: String| JVal::Str(t@));
                assert forall|k: int| 0 <= k < docs.len() implies wf(#[trigger] docs[k]) by {
                    assert(docs[k] == JVal::Str(vs@[k]@));
                }
                assert(wf(ms[4].1));
            },
            Option::None => {},
        }
        assert forall|k: int| 0 <= k < ms.len() implies wf(#[trigger] ms[k].1) by {}
    }

    /// Decoding the canonical document gives the value back.
    #[verifier::rlimit(50)]
    pub proof fn lemma_roundtrip(self)
        ensures
            Self::spec_ok(self.spec_doc()),
            self.matches_doc(self.spec_doc()),
    {
        let ms = self.spec_doc()->Obj_0;
        reveal_strlit("nftMint");
        reveal_strlit("nftMetadataAdress");
        reveal_strlit("nftMetadataJson");
        reveal_strlit("nftCollectionMint");
        reveal_strlit("nftVerifiedCreatorsArray");
        assert("nftMint"@.len() == 7);
        assert("nftMetadataAdress"@.len() == 17);
        assert("nftMetadataJson"@.len() == 15);
        assert("nftCollectionMint"@.len() == 17);
        assert("nftVerifiedCreatorsArray"@.len() == 24);
        assert("nftMetadataAdress"@[3] == 'M');
        assert("nftCollectionMint"@[3] == 'C');
        crate::fields::lemma_obj_get_index(ms, 0);
        crate::fields::lemma_obj_get_index(ms, 1);
        crate::fields::lemma_obj_get_index(ms, 2);
        crate::fields::lemma_obj_get_index(ms, 3);
        crate::fields::lemma_obj_get_index(ms, 4);
        self.nft_metadata_json.lemma_roundtrip();
        match self.nft_verified_creators_array {
            Option::Some(vs) => {
                let docs = vs@.map_values(|t: String| JVal::Str(t@));
                assert(crate::decode::all_strings(docs)) by {
                    assert forall|k: int| 0 <= k < docs.len() implies (#[trigger] docs[k]) is Str by {
                        assert(docs[k] == JVal::Str(vs@[k]@));
                    }
                }
                assert(crate::decode::str_values(docs) =~= vs@.map_values(|t: String| t@));
            },
            Option::None => {},
        }
    }
}

/// The response envelope: an optional run of records and an optional
/// continuation token.
#[derive(Debug, PartialEq, Eq)]
pub struct MetaplexMetadataResponse {
    pub data: Option<Vec<MetaplexMetadata>>,
    pub pagination_token: Option<String>,
}

impl MetaplexMetadataResponse {
    /// Whether a document fits the envelope's shape.
    pub open spec fn spec_ok(v: JVal) -> bool {
        v matches JVal::Obj(ms) && {
            &&& spec_opt_string(ms, "paginationToken"@) is Ok
            &&& match obj_get(ms, "data"@) {
                Option::None => true,
                Option::Some(JVal::Null) => true,
                Option::Some(JVal::Arr(elems)) => forall|k: int| 0 <= k < elems.len()
                    ==> MetaplexMetadata::spec_ok(#[trigger] elems[k]),
                Option::Some(_) => false,
            }
        }
    }

    /// Whether this value is what the document decodes to.
    pub open spec fn matches_doc(self, v: JVal) -> bool {
        v matches JVal::Obj(ms) && {
            &&& spec_opt_string(ms, "paginationToken"@) == Result::<Option<Seq<char>>, ()>::Ok(o_str(self.pagination_token))
            &&& match obj_get(ms, "data"@) {
                Option::None => self.data is None,
                Option::Some(JVal::Null) => self.data is None,
                Option::Some(JVal::Arr(elems)) => self.data matches Option::Some(items)
                    && items@.len() == elems.len()
                    && (forall|k: int| 0 <= k < elems.len()
                        ==> (#[trigger] items@[k]).matches_doc(elems[k])),
                Option::Some(_) => false,
            }
        }
    }

    /// Reads the envelope out of a document.
    pub fn from_json(doc: &Json) -> (r: Result<Self, DecodeError>)
        requires
            jwf(*doc),
        ensures
            match r {
                Result::Ok(resp) => Self::spec_ok(jv(*doc)) && resp.matches_doc(jv(*doc)),
                Result::Err(e) => e == DecodeError::Shape && !Self::spec_ok(jv(*doc)),
            },
    {
        let ms = match doc {
            Json::Obj(ms) => ms,
            _ => {
                return Result::Err(DecodeError::Shape);
            },
        };
        proof {
            assert(jv(*doc) == JVal::Obj(jv_members(ms@)));
        }
        let pagination_token = match get_opt_string(ms, "paginationToken") {
            Result::Ok(o) => o,
            Result::Err(e) => {
                return Result::Err(e);
            },
        };
        let data = match decode_data(ms) {
            Result::Ok(o) => o,
            Result::Err(e) => {
                return Result::Err(e);
            },
        };
        Result::Ok(MetaplexMetadataResponse { data, pagination_token })
    }

    /// The canonical document of this envelope.
    pub open spec fn spec_doc(self) -> JVal {
        JVal::Obj(seq![
            ("data"@, match self.data {
                Option::None => JVal::Null,
                Option::Some(items) => JVal::Arr(items@.map_values(|it: MetaplexMetadata| it.spec_doc())),
            }),
            ("paginationToken"@, jv_opt_str(self.pagination_token)),
        ])
    }

    /// Serializes this envelope to its canonical document.
    pub fn to_json(&self) -> (r: Json)
        ensures
            jv(r) == self.spec_doc(),
            jwf(r),
    {
        let mut out: Vec<(String, Json)> = Vec::new();
        proof {
            assert(jv_members(out@) =~= Seq::<(Seq<char>, JVal)>::empty());
        }
        let data_doc: Json = match &self.data {
            Option::None => Json::Null,
            Option::Some(items) => {
                let ghost docs_s = items@.map_values(|it: MetaplexMetadata| it.spec_doc());
                let n: usize = items.len();
                let mut docs: Vec<Json> = Vec::new();
                let mut i: usize = 0;
                proof {
                    assert(jv_seq(docs@) =~= docs_s.take(0));
                }
                while i < n
                    invariant
                        i <= n,
                        n == items@.len(),
                        docs_s == items@.map_values(|it: MetaplexMetadata| it.spec_doc()),
                        docs_s.len() == n,
                        docs@.len() == i,
                        jv_seq(docs@) == docs_s.take(i as int),
                        forall|k: int| 0 <= k < docs@.len() ==> jwf(#[trigger] docs@[k]),
                    decreases n - i,
                {
                    let ghost docs0 = docs@;
                    let d = items[i].to_json();
                    docs.push(d);
                    proof {
                        crate::json::lemma_jv_seq_push(docs0, d);
                        assert(docs_s[i as int] == items@[i as int].spec_doc());
                        assert(docs_s.take(i + 1) =~= docs_s.take(i as int).push(docs_s[i as int]));
                        assert(jv_seq(docs@) =~= docs_s.take(i + 1));
                    }
                    i = i + 1;
                }
                proof {
                    assert(docs_s.take(n as int) =~= docs_s);
                }
                Json::Arr(docs)
            },
        };
        put_doc_field(&mut out, "data", data_doc);
        put_str_field(&mut out, "paginationToken", &self.pagination_token);
        proof {
            assert(jv_members(out@) =~= self.spec_doc()->Obj_0);
        }
        Json::Obj(out)
    }

    /// The canonical document is well formed.
    pub proof fn lemma_spec_doc_wf(self)
        ensures
            wf(self.spec_doc()),
    {
        let ms = self.spec_doc()->Obj_0;
        match self.data {
            Option::Some(items) => {
                let docs = items@.map_values(|it: MetaplexMetadata| it.spec_doc());
                assert forall|k: int| 0 <= k < docs.len() implies wf(#[trigger] docs[k]) by {
                    assert(docs[k] == items@[k].spec_doc());
                    items@[k].lemma_spec_doc_wf();
                }
                assert(wf(ms[0].1));
            },
            Option::None => {},
        }
        assert forall|k: int| 0 <= k < ms.len() implies wf(#[trigger] ms[k].1) by {}
    }

    /// Decoding the canonical document gives the envelope back.
    pub proof fn lemma_roundtrip(self)
        ensures
            Self::spec_ok(self.spec_doc()),
            self.matches_doc(self.spec_doc()),
    {
        let ms = self.spec_doc()->Obj_0;
        reveal_strlit("data");
        reveal_strlit("paginationToken");
        assert("data"@.len() == 4);
        assert("paginationToken"@.len() == 15);
        crate::fields::lemma_obj_get_index(ms, 0);
        crate::fields::lemma_obj_get_index(ms, 1);
        match self.data {
            Option::Some(items) => {
                let docs = items@.map_values(|it: MetaplexMetadata| it.spec_doc());
                assert forall|k: int| 0 <= k < docs.len() implies MetaplexMetadata::spec_ok(#[trigger] docs[k]) by {
                    assert(docs[k] == items@[k].spec_doc());
                    items@[k].lemma_roundtrip();
                }
                assert forall|k: int| 0 <= k < items@.len() implies (#[trigger] items@[k]).matches_doc(docs[k]) by {
                    assert(docs[k] == items@[k].spec_doc());
                    items@[k].lemma_roundtrip();
                }
            },
            Option::None => {},
        }
    }

    /// Round trip through the wire: the rendered text of the canonical
    /// document parses back to it, and decoding it yields exactly this
    /// envelope's values.
    pub proof fn lemma_text_roundtrip(self)
        ensures
            spec_parse(ser_val(self.spec_doc())) == Some(self.spec_doc()),
            Self::spec_ok(self.spec_doc()),
            self.matches_doc(self.spec_doc()),
    {
        self.lemma_spec_doc_wf();
        crate::roundtrip::lemma_parse_render(self.spec_doc());
        self.lemma_roundtrip();
    }
}

/// Reads the optional `data` array of records.
fn decode_data(ms: &Vec<(String, Json)>) -> (r: Result<Option<Vec<MetaplexMetadata>>, DecodeError>)
    requires
        forall|k: int| 0 <= k < ms@.len() ==> jwf((#[trigger] ms@[k]).1),
    ensures
        match r {
            Result::Ok(o) => match obj_get(jv_members(ms@), "data"@) {
                Option::None => o is None,
                Option::Some(JVal::Null) => o is None,
                Option::Some(JVal::Arr(elems)) => o matches Option::Some(items)
                    && items@.len() == elems.len()
                    && (forall|k: int| 0 <= k < elems.len()
                        ==> MetaplexMetadata::spec_ok(#[trigger] elems[k]))
                    && (forall|k: int| 0 <= k < elems.len()
                        ==> (#[trigger] items@[k]).matches_doc(elems[k])),
                Option::Some(_) => false,
            },
            Result::Err(e) => e == DecodeError::Shape && match obj_get(jv_members(ms@), "data"@) {
                Option::None => false,
                Option::Some(JVal::Null) => false,
                Option::Some(JVal::Arr(elems)) => !(forall|k: int| 0 <= k < elems.len()
                    ==> MetaplexMetadata::spec_ok(#[trigger] elems[k])),
                Option::Some(_) => true,
            },
        },
{
    let arr = match lookup_member(ms, "data") {
        Option::None => {
            return Result::Ok(Option::None);
        },
        Option::Some(j) => match j {
            Json::Null => {
                return Result::Ok(Option::None);
            },
            Json::Arr(elems) => elems,
            _ => {
                return Result::Err(DecodeError::Shape);
            },
        },
    };
    let ghost evs = jv_seq(arr@);
    proof {
        lemma_jv_seq(arr@);
    }
    let n: usize = arr.len();
    let mut items: Vec<MetaplexMetadata> = Vec::new();
    let mut i: usize = 0;
    while i < n
        invariant
            i <= n,
            n == arr@.len(),
            obj_get(jv_members(ms@), "data"@) == Some(JVal::Arr(evs)),
            evs == jv_seq(arr@),
            evs.len() == n,
            forall|k: int| 0 <= k < n ==> evs[k] == jv(#[trigger] arr@[k]),
            forall|k: int| 0 <= k < n ==> jwf(#[trigger] arr@[k]),
            items@.len() == i,
            forall|k: int| 0 <= k < i ==> MetaplexMetadata::spec_ok(#[trigger] evs[k]),
            forall|k: int| 0 <= k < i ==> (#[trigger] items@[k]).matches_doc(evs[k]),
        decreases n - i,
    {
        match MetaplexMetadata::from_json(&arr[i]) {
            Result::Ok(it) => {
                items.push(it);
            },
            Result::Err(e) => {
                proof {
                    let g = obj_get(jv_members(ms@), "data"@);
                    let gelems = g->0->Arr_0;
                    assert(gelems == evs);
                    assert(!(forall|k: int| 0 <= k < gelems.len()
                        ==> MetaplexMetadata::spec_ok(#[trigger] gelems[k]))) by {
                        assert(!MetaplexMetadata::spec_ok(gelems[i as int]));
                    }
                }
                return Result::Err(e);
            },
        }
        i = i + 1;
    }
    Result::Ok(Option::Some(items))
}

impl crate::decode::ResponseEnvelope for MetaplexMetadataResponse {
    open spec fn env_ok(v: JVal) -> bool {
        MetaplexMetadataResponse::spec_ok(v)
    }

    open spec fn env_matches(self, v: JVal) -> bool {
        self.matches_doc(v)
    }

    fn env_from_json(doc: &Json) -> Result<Self, DecodeError> {
        MetaplexMetadataResponse::from_json(doc)
    }

    proof fn lemma_empty_envelope() {
        let ms = crate::decode::empty_envelope()->Obj_0;
        reveal_strlit("data");
        reveal_strlit("paginationToken");
        assert("data"@.len() == 4);
        assert("paginationToken"@.len() == 15);
        crate::fields::lemma_obj_get_index(ms, 0);
        crate::fields::lemma_obj_get_index(ms, 1);
    }
}

/// Decodes one response body: `Syntax` when the body is not valid JSON,
/// `Shape` when it does not fit the envelope, the typed response
/// otherwise.
pub fn metaplex_metadata_decode(body: &str) -> (r: Result<MetaplexMetadataResponse, DecodeError>)
    ensures
        match spec_parse(body@) {
            Option::None => r == Result::<MetaplexMetadataResponse, DecodeError>::Err(DecodeError::Syntax),
            Option::Some(v) => match r {
                Result::Ok(resp) => MetaplexMetadataResponse::spec_ok(v) && resp.matches_doc(v),
                Result::Err(e) => e == DecodeError::Shape && !MetaplexMetadataResponse::spec_ok(v),
            },
        },
{
    crate::decode::decode_body::<MetaplexMetadataResponse>(body)
}

} // verus!
