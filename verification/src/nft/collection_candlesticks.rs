//! Collection candlesticks: floor-price candles per collection and
//! period, `POST <root>/collection/listing/candlesticks`.

use vstd::prelude::*;

use crate::call::{PreparedCall, headers_model, hellomoon_root_url, prepare_call, root_url, spec_headers};
use crate::decode::{get_opt_string, get_opt_u64, spec_opt_string, spec_opt_u64, DecodeError};
use crate::fields::{
    obj_get, opt_count, opt_doc, opt_text, push_count, push_doc, push_text, put_doc_field,
    put_str_field, put_u64_field,
};
use crate::json::{
    JVal, Json, jv, jv_members, jv_opt_str, jv_opt_u64, jv_seq, jwf, lemma_jv_seq, o_str, o_u64,
    ser_val, wf,
};
use crate::parse::spec_parse;

verus! {
broadcast use vstd::seq::group_seq_axioms, vstd::std_specs::vec::group_vec_axioms;

/// The candlestick period.
#[derive(Debug, PartialEq, Eq, Clone, Copy)]
pub enum Granularity {
    OneMin,
    FiveMin,
    OneHour,
    OneDay,
    OneWeek,
}

impl Granularity {
    /// The period's wire name.
    pub open spec fn spec_wire(self) -> Seq<char> {
        match self {
            Granularity::OneMin => "ONE_MIN"@,
            Granularity::FiveMin => "FIVE_MIN"@,
            Granularity::OneHour => "ONE_HOUR"@,
            Granularity::OneDay => "ONE_DAY"@,
            Granularity::OneWeek => "ONE_WEEK"@,
        }
    }

    pub fn wire(&self) -> (r: &'static str)
        ensures
            r@ == self.spec_wire(),
    {
        match self {
            Granularity::OneMin => "ONE_MIN",
            Granularity::FiveMin => "FIVE_MIN",
            Granularity::OneHour => "ONE_HOUR",
            Granularity::OneDay => "ONE_DAY",
            Granularity::OneWeek => "ONE_WEEK",
        }
    }
}

impl Default for Granularity {
    fn default() -> (r: Self)
        ensures
            r == Granularity::OneMin,
    {
        Granularity::OneMin
    }
}

/// What to ask for: all fields optional, sentinel values are omitted from
/// the wire.
pub struct CollectionCandlesticksRequest {
    pub hello_moon_collection_id: String,
    pub start_time: String,
    pub granularity: Option<Granularity>,
    pub limit: usize,
    pub page: usize,
    pub pagination_token: String,
}

impl CollectionCandlesticksRequest {
    /// The members of the serialized request body, in declaration order,
    /// sentinel fields omitted.
    pub open spec fn spec_members(self) -> Seq<(Seq<char>, JVal)> {
        opt_text("helloMoonCollectionId"@, self.hello_moon_collection_id@)
            + opt_text("startTime"@, self.start_time@)
            + opt_doc("granularity"@, match self.granularity {
                Option::Some(g) => Option::Some(JVal::Str(g.spec_wire())),
                Option::None => Option::None,
            })
            + opt_count("limit"@, self.limit as int)
            + opt_count("page"@, self.page as int)
            + opt_text("paginationToken"@, self.pagination_token@)
    }

    /// Serializes the request body.
    pub fn to_json(&self) -> (r: Json)
        ensures
            jv(r) == JVal::Obj(self.spec_members()),
            jwf(r),
    {
        let mut out: Vec<(String, Json)> = Vec::new();
        proof {
            assert(jv_members(out@) =~= Seq::<(Seq<char>, JVal)>::empty());
        }
        push_text(&mut out, "helloMoonCollectionId", &self.hello_moon_collection_id);
        push_text(&mut out, "startTime", &self.start_time);
        let gran: Option<Json> = match &self.granularity {
            Option::Some(g) => Option::Some(Json::Str(g.wire().to_owned())),
            Option::None => Option::None,
        };
        push_doc(&mut out, "granularity", gran);
        push_count(&mut out, "limit", self.limit);
        push_count(&mut out, "page", self.page);
        push_text(&mut out, "paginationToken", &self.pagination_token);
        proof {
            assert(jv_members(out@) =~= self.spec_members());
        }
        Json::Obj(out)
    }
}

impl crate::call::RequestShape for CollectionCandlesticksRequest {
    open spec fn req_members(self) -> Seq<(Seq<char>, JVal)> {
        self.spec_members()
    }

    fn req_to_json(&self) -> (r: Json) {
        self.to_json()
    }
}

impl CollectionCandlesticksRequest {
    /// Sentinel omission: each field stands in the serialized object
    /// exactly when its value is not the sentinel, under its wire name,
    /// with its serialized value; a sentinel field's name is absent.
    pub proof fn lemma_sentinel_omission(self)
        ensures
            obj_get(self.spec_members(), "helloMoonCollectionId"@) == (if self.hello_moon_collection_id@.len() > 0 {
                Option::Some(JVal::Str(self.hello_moon_collection_id@))
            } else {
                Option::<JVal>::None
            }),
            obj_get(self.spec_members(), "startTime"@) == (if self.start_time@.len() > 0 {
                Option::Some(JVal::Str(self.start_time@))
            } else {
                Option::<JVal>::None
            }),
            obj_get(self.spec_members(), "granularity"@) == (match self.granularity {
                Option::Some(g) => Option::Some(JVal::Str(g.spec_wire())),
                Option::None => Option::<JVal>::None,
            }),
            obj_get(self.spec_members(), "limit"@) == (if self.limit > 0 {
                Option::Some(JVal::Int(self.limit as int))
            } else {
                Option::<JVal>::None
            }),
            obj_get(self.spec_members(), "page"@) == (if self.page > 0 {
                Option::Some(JVal::Int(self.page as int))
            } else {
                Option::<JVal>::None
            }),
            obj_get(self.spec_members(), "paginationToken"@) == (if self.pagination_token@.len() > 0 {
                Option::Some(JVal::Str(self.pagination_token@))
            } else {
                Option::<JVal>::None
            }),
    {
        reveal_strlit("helloMoonCollectionId");
        reveal_strlit("startTime");
        reveal_strlit("granularity");
        reveal_strlit("limit");
        reveal_strlit("page");
        reveal_strlit("paginationToken");
        assert("helloMoonCollectionId"@.len() == 21);
        assert("startTime"@.len() == 9);
        assert("granularity"@.len() == 11);
        assert("limit"@.len() == 5);
        assert("page"@.len() == 4);
        assert("paginationToken"@.len() == 15);
        let s1 = opt_text("helloMoonCollectionId"@, self.hello_moon_collection_id@);
        let s2 = opt_text("startTime"@, self.start_time@);
        let s3 = opt_doc("granularity"@, match self.granularity {
            Option::Some(g) => Option::Some(JVal::Str(g.spec_wire())),
            Option::None => Option::None,
        });
        let s4 = opt_count("limit"@, self.limit as int);
        let s5 = opt_count("page"@, self.page as int);
        let s6 = opt_text("paginationToken"@, self.pagination_token@);
        assert(s3 =~= crate::fields::seg("granularity"@, self.granularity is Some, if self.granularity is Some { JVal::Str(self.granularity->0.spec_wire()) } else { JVal::Null }));
        crate::fields::lemma_seg_get_any("helloMoonCollectionId"@, self.hello_moon_collection_id@.len() > 0, JVal::Str(self.hello_moon_collection_id@));
        crate::fields::lemma_seg_get_any("startTime"@, self.start_time@.len() > 0, JVal::Str(self.start_time@));
        crate::fields::lemma_seg_get_any("granularity"@, self.granularity is Some, if self.granularity is Some { JVal::Str(self.granularity->0.spec_wire()) } else { JVal::Null });
        crate::fields::lemma_seg_get_any("limit"@, self.limit > 0, JVal::Int(self.limit as int));
        crate::fields::lemma_seg_get_any("page"@, self.page > 0, JVal::Int(self.page as int));
        crate::fields::lemma_seg_get_any("paginationToken"@, self.pagination_token@.len() > 0, JVal::Str(self.pagination_token@));
        lemma_segments_6(s1, s2, s3, s4, s5, s6, "helloMoonCollectionId"@);
        lemma_segments_6(s1, s2, s3, s4, s5, s6, "startTime"@);
        lemma_segments_6(s1, s2, s3, s4, s5, s6, "granularity"@);
        lemma_segments_6(s1, s2, s3, s4, s5, s6, "limit"@);
        lemma_segments_6(s1, s2, s3, s4, s5, s6, "page"@);
        lemma_segments_6(s1, s2, s3, s4, s5, s6, "paginationToken"@);
    }
}

/// Unrolls `obj_get` over the six concatenated segments of this module's
/// request.
proof fn lemma_segments_6(
    s1: Seq<(Seq<char>, JVal)>,
    s2: Seq<(Seq<char>, JVal)>,
    s3: Seq<(Seq<char>, JVal)>,
    s4: Seq<(Seq<char>, JVal)>,
    s5: Seq<(Seq<char>, JVal)>,
    s6: Seq<(Seq<char>, JVal)>,
    name: Seq<char>,
)
    ensures
        obj_get(s1 + s2 + s3 + s4 + s5 + s6, name) == if obj_get(s1, name) is Some {
            obj_get(s1, name)
        } else if obj_get(s2, name) is Some {
            obj_get(s2, name)
        } else if obj_get(s3, name) is Some {
            obj_get(s3, name)
        } else if obj_get(s4, name) is Some {
            obj_get(s4, name)
        } else if obj_get(s5, name) is Some {
            obj_get(s5, name)
        } else {
            obj_get(s6, name)
        },
{
    crate::fields::lemma_obj_get_concat(s1 + s2 + s3 + s4 + s5, s6, name);
    crate::fields::lemma_obj_get_concat(s1 + s2 + s3 + s4, s5, name);
    crate::fields::lemma_obj_get_concat(s1 + s2 + s3, s4, name);
    crate::fields::lemma_obj_get_concat(s1 + s2, s3, name);
    crate::fields::lemma_obj_get_concat(s1, s2, name);
}

impl Default for CollectionCandlesticksRequest {
    fn default() -> (r: Self)
        ensures
            r.hello_moon_collection_id@ == Seq::<char>::empty(),
            r.start_time@ == Seq::<char>::empty(),
            r.granularity is None,
            r.limit == 0,
            r.page == 0,
            r.pagination_token@ == Seq::<char>::empty(),
    {
        CollectionCandlesticksRequest {
            hello_moon_collection_id: String::new(),
            start_time: String::new(),
            granularity: Option::None,
            limit: 0,
            page: 0,
            pagination_token: String::new(),
        }
    }
}

/// One candlestick.
#[derive(Debug, PartialEq, Eq)]
pub struct CollectionCandlesticks {
    pub hello_moon_collection_id: Option<String>,
    pub granularity: Option<String>,
    pub lastblockid: Option<u64>,
    pub start_time: Option<u64>,
    pub high: Option<String>,
    pub low: Option<String>,
    pub open_price: Option<String>,
    pub close_price: Option<String>,
    pub volume: Option<String>,
}

impl CollectionCandlesticks {
    /// Whether a document fits this shape.
    pub open spec fn spec_ok(v: JVal) -> bool {
        v matches JVal::Obj(ms) && {
            &&& spec_opt_string(ms, "helloMoonCollectionId"@) is Ok
            &&& spec_opt_string(ms, "granularity"@) is Ok
            &&& spec_opt_u64(ms, "lastblockid"@) is Ok
            &&& spec_opt_u64(ms, "startTime"@) is Ok
            &&& spec_opt_string(ms, "high"@) is Ok
            &&& spec_opt_string(ms, "low"@) is Ok
            &&& spec_opt_string(ms, "open"@) is Ok
            &&& spec_opt_string(ms, "close"@) is Ok
            &&& spec_opt_string(ms, "volume"@) is Ok
        }
    }

    /// Whether this value is what the document decodes to.
    pub open spec fn matches_doc(self, v: JVal) -> bool {
        v matches JVal::Obj(ms) && {
            &&& spec_opt_string(ms, "helloMoonCollectionId"@) == Result::<Option<Seq<char>>, ()>::Ok(o_str(self.hello_moon_collection_id))
            &&& spec_opt_string(ms, "granularity"@) == Result::<Option<Seq<char>>, ()>::Ok(o_str(self.granularity))
            &&& spec_opt_u64(ms, "lastblockid"@) == Result::<Option<int>, ()>::Ok(o_u64(self.lastblockid))
            &&& spec_opt_u64(ms, "startTime"@) == Result::<Option<int>, ()>::Ok(o_u64(self.start_time))
            &&& spec_opt_string(ms, "high"@) == Result::<Option<Seq<char>>, ()>::Ok(o_str(self.high))
            &&& spec_opt_string(ms, "low"@) == Result::<Option<Seq<char>>, ()>::Ok(o_str(self.low))
            &&& spec_opt_string(ms, "open"@) == Result::<Option<Seq<char>>, ()>::Ok(o_str(self.open_price))
            &&& spec_opt_string(ms, "close"@) == Result::<Option<Seq<char>>, ()>::Ok(o_str(self.close_price))
            &&& spec_opt_string(ms, "volume"@) == Result::<Option<Seq<char>>, ()>::Ok(o_str(self.volume))
        }
    }

    /// Reads one candlestick out of a document.
    pub fn from_json(doc: &Json) -> (r: Result<Self, DecodeError>)
        requires
            jwf(*doc),
        ensures
            match r {
                Result::Ok(it) => Self::spec_ok(jv(*doc)) && it.matches_doc(jv(*doc)),
                Result::Err(e) => e == DecodeError::Shape && !Self::spec_ok(jv(*doc)),
            },
    {
        let ms = match doc {
            Json::Obj(ms) => ms,
            _ => {
                return Result::Err(DecodeError::Shape);
            },
        };
        let hello_moon_collection_id = match get_opt_string(ms, "helloMoonCollectionId") {
            Result::Ok(o) => o,
            Result::Err(e) => {
                return Result::Err(e);
            },
        };
        let granularity = match get_opt_string(ms, "granularity") {
            Result::Ok(o) => o,
            Result::Err(e) => {
                return Result::Err(e);
            },
        };
        let lastblockid = match get_opt_u64(ms, "lastblockid") {
            Result::Ok(o) => o,
            Result::Err(e) => {
                return Result::Err(e);
            },
        };
        let start_time = match get_opt_u64(ms, "startTime") {
            Result::Ok(o) => o,
            Result::Err(e) => {
                return Result::Err(e);
            },
        };
        let high = match get_opt_string(ms, "high") {
            Result::Ok(o) => o,
            Result::Err(e) => {
                return Result::Err(e);
            },
        };
        let low = match get_opt_string(ms, "low") {
            Result::Ok(o) => o,
            Result::Err(e) => {
                return Result::Err(e);
            },
        };
        let open_price = match get_opt_string(ms, "open") {
            Result::Ok(o) => o,
            Result::Err(e) => {
                return Result::Err(e);
            },
        };
        let close_price = match get_opt_string(ms, "close") {
            Result::Ok(o) => o,
            Result::Err(e) => {
                return Result::Err(e);
            },
        };
        let volume = match get_opt_string(ms, "volume") {
            Result::Ok(o) => o,
            Result::Err(e) => {
                return Result::Err(e);
            },
        };
        Result::Ok(CollectionCandlesticks {
            hello_moon_collection_id,
            granularity,
            lastblockid,
            start_time,
            high,
            low,
            open_price,
            close_price,
            volume,
        })
    }

    /// The canonical document of this value: every field written, `null`
    /// for absent ones, in declaration order.
    pub open spec fn spec_doc(self) -> JVal {
        JVal::Obj(seq![
            ("helloMoonCollectionId"@, jv_opt_str(self.hello_moon_collection_id)),
            ("granularity"@, jv_opt_str(self.granularity)),
            ("lastblockid"@, jv_opt_u64(self.lastblockid)),
            ("startTime"@, jv_opt_u64(self.start_time)),
            ("high"@, jv_opt_str(self.high)),
            ("low"@, jv_opt_str(self.low)),
            ("open"@, jv_opt_str(self.open_price)),
            ("close"@, jv_opt_str(self.close_price)),
            ("volume"@, jv_opt_str(self.volume)),
        ])
    }

    /// Serializes this value to its canonical document.
    pub fn to_json(&self) -> (r: Json)
        ensures
            jv(r) == self.spec_doc(),
            jwf(r),
    {
        let mut out: Vec<(String, Json)> = Vec::new();
        proof {
            assert(jv_members(out@) =~= Seq::<(Seq<char>, JVal)>::empty());
        }
        put_str_field(&mut out, "helloMoonCollectionId", &self.hello_moon_collection_id);
        put_str_field(&mut out, "granularity", &self.granularity);
        put_u64_field(&mut out, "lastblockid", &self.lastblockid);
        put_u64_field(&mut out, "startTime", &self.start_time);
        put_str_field(&mut out, "high", &self.high);
        put_str_field(&mut out, "low", &self.low);
        put_str_field(&mut out, "open", &self.open_price);
        put_str_field(&mut out, "close", &self.close_price);
        put_str_field(&mut out, "volume", &self.volume);
        proof {
            assert(jv_members(out@) =~= self.spec_doc()->Obj_0);
        }
        Json::Obj(out)
    }

    /// Decoding the canonical document gives the value back.
    pub proof fn lemma_roundtrip(self)
        ensures
            Self::spec_ok(self.spec_doc()),
            self.matches_doc(self.spec_doc()),
    {
        let ms = self.spec_doc()->Obj_0;
        lemma_distinct_get(ms);
    }

    /// The canonical document is well formed.
    pub proof fn lemma_spec_doc_wf(self)
        ensures
            wf(self.spec_doc()),
    {
        let ms = self.spec_doc()->Obj_0;
        assert forall|k: int| 0 <= k < ms.len() implies wf(#[trigger] ms[k].1) by {}
    }
}

/// The names of the candlestick document are pairwise distinct, so each
/// field reads back as itself.
proof fn lemma_distinct_get(ms: Seq<(Seq<char>, JVal)>)
    requires
        ms.len() == 9,
        ms[0].0 == "helloMoonCollectionId"@,
        ms[1].0 == "granularity"@,
        ms[2].0 == "lastblockid"@,
        ms[3].0 == "startTime"@,
        ms[4].0 == "high"@,
        ms[5].0 == "low"@,
        ms[6].0 == "open"@,
        ms[7].0 == "close"@,
        ms[8].0 == "volume"@,
    ensures
        obj_get(ms, ms[0].0) == Some(ms[0].1),
        obj_get(ms, ms[1].0) == Some(ms[1].1),
        obj_get(ms, ms[2].0) == Some(ms[2].1),
        obj_get(ms, ms[3].0) == Some(ms[3].1),
        obj_get(ms, ms[4].0) == Some(ms[4].1),
        obj_get(ms, ms[5].0) == Some(ms[5].1),
        obj_get(ms, ms[6].0) == Some(ms[6].1),
        obj_get(ms, ms[7].0) == Some(ms[7].1),
        obj_get(ms, ms[8].0) == Some(ms[8].1),
{
        reveal_strlit("helloMoonCollectionId");
    reveal_strlit("granularity");
    reveal_strlit("lastblockid");
    reveal_strlit("startTime");
    reveal_strlit("high");
    reveal_strlit("low");
    reveal_strlit("open");
    reveal_strlit("close");
    reveal_strlit("volume");
    assert("helloMoonCollectionId"@.len() == 21);
    assert("granularity"@.len() == 11);
    assert("lastblockid"@.len() == 11);
    assert("startTime"@.len() == 9);
    assert("high"@.len() == 4);
    assert("low"@.len() == 3);
    assert("open"@.len() == 4);
    assert("close"@.len() == 5);
    assert("volume"@.len() == 6);
    assert("granularity"@[0] == 'g');
    assert("lastblockid"@[0] == 'l');
    assert("high"@[0] == 'h');
    assert("open"@[0] == 'o');
    crate::fields::lemma_obj_get_index(ms, 0);
    crate::fields::lemma_obj_get_index(ms, 1);
    crate::fields::lemma_obj_get_index(ms, 2);
    crate::fields::lemma_obj_get_index(ms, 3);
    crate::fields::lemma_obj_get_index(ms, 4);
    crate::fields::lemma_obj_get_index(ms, 5);
    crate::fields::lemma_obj_get_index(ms, 6);
    crate::fields::lemma_obj_get_index(ms, 7);
    crate::fields::lemma_obj_get_index(ms, 8);
}

/// The response envelope: an optional run of candlesticks and an optional
/// continuation token.
#[derive(Debug, PartialEq, Eq)]
pub struct CollectionCandlesticksResponse {
    pub data: Option<Vec<CollectionCandlesticks>>,
    pub pagination_token: Option<String>,
}

impl CollectionCandlesticksResponse {
    /// Whether a document fits the envelope's shape.
    pub open spec fn spec_ok(v: JVal) -> bool {
        v matches JVal::Obj(ms) && {
            &&& spec_opt_string(ms, "paginationToken"@) is Ok
            &&& match obj_get(ms, "data"@) {
                Option::None => true,
                Option::Some(JVal::Null) => true,
                Option::Some(JVal::Arr(elems)) => forall|k: int| 0 <= k < elems.len()
                    ==> CollectionCandlesticks::spec_ok(#[trigger] elems[k]),
                Option::Some(_) => false,
            }
        }
    }

    /// Whether this value is what the document decodes to.
    pub open spec fn matches_doc(self, v: JVal) -> bool {
        v matches JVal::Obj(ms) && {
            &&& spec_opt_string(ms, "paginationToken"@) == Result::<Option<Seq<char>>, ()>::Ok(o_str(self.pagination_token))
            &&& match obj_get(ms, "data"@) {
                Option::None => self.data is None,
                Option::Some(JVal::Null) => self.data is None,
                Option::Some(JVal::Arr(elems)) => self.data matches Option::Some(items)
                    && items@.len() == elems.len()
                    && (forall|k: int| 0 <= k < elems.len()
                        ==> (#[trigger] items@[k]).matches_doc(elems[k])),
                Option::Some(_) => false,
            }
        }
    }

    /// Reads the envelope out of a document.
    pub fn from_json(doc: &Json) -> (r: Result<Self, DecodeError>)
        requires
            jwf(*doc),
        ensures
            match r {
                Result::Ok(resp) => Self::spec_ok(jv(*doc)) && resp.matches_doc(jv(*doc)),
                Result::Err(e) => e == DecodeError::Shape && !Self::spec_ok(jv(*doc)),
            },
    {
        let ms = match doc {
            Json::Obj(ms) => ms,
            _ => {
                return Result::Err(DecodeError::Shape);
            },
        };
        proof {
            assert(jv(*doc) == JVal::Obj(jv_members(ms@)));
        }
        let pagination_token = match get_opt_string(ms, "paginationToken") {
            Result::Ok(o) => o,
            Result::Err(e) => {
                return Result::Err(e);
            },
        };
        let data = match decode_data(ms) {
            Result::Ok(o) => o,
            Result::Err(e) => {
                return Result::Err(e);
            },
        };
        Result::Ok(CollectionCandlesticksResponse { data, pagination_token })
    }

    /// The canonical document of this envelope.
    pub open spec fn spec_doc(self) -> JVal {
        JVal::Obj(seq![
            ("data"@, match self.data {
                Option::None => JVal::Null,
                Option::Some(items) => JVal::Arr(items@.map_values(|it: CollectionCandlesticks| it.spec_doc())),
            }),
            ("paginationToken"@, jv_opt_str(self.pagination_token)),
        ])
    }

    /// The canonical document is well formed.
    pub proof fn lemma_spec_doc_wf(self)
        ensures
            wf(self.spec_doc()),
    {
        let ms = self.spec_doc()->Obj_0;
        match self.data {
            Option::Some(items) => {
                let docs = items@.map_values(|it: CollectionCandlesticks| it.spec_doc());
                assert forall|k: int| 0 <= k < docs.len() implies wf(#[trigger] docs[k]) by {
                    assert(docs[k] == items@[k].spec_doc());
                    items@[k].lemma_spec_doc_wf();
                }
                assert(wf(ms[0].1));
            },
            Option::None => {},
        }
        assert forall|k: int| 0 <= k < ms.len() implies wf(#[trigger] ms[k].1) by {}
    }

    /// Serializes this envelope to its canonical document.
    pub fn to_json(&self) -> (r: Json)
        ensures
            jv(r) == self.spec_doc(),
            jwf(r),
    {
        let mut out: Vec<(String, Json)> = Vec::new();
        proof {
            assert(jv_members(out@) =~= Seq::<(Seq<char>, JVal)>::empty());
        }
        let data_doc: Json = match &self.data {
            Option::None => Json::Null,
            Option::Some(items) => {
                let ghost docs_s = items@.map_values(|it: CollectionCandlesticks| it.spec_doc());
                let n: usize = items.len();
                let mut docs: Vec<Json> = Vec::new();
                let mut i: usize = 0;
                proof {
                    assert(jv_seq(docs@) =~= docs_s.take(0));
                }
                while i < n
                    invariant
                        i <= n,
                        n == items@.len(),
                        docs_s == items@.map_values(|it: CollectionCandlesticks| it.spec_doc()),
                        docs_s.len() == n,
                        docs@.len() == i,
                        jv_seq(docs@) == docs_s.take(i as int),
                        forall|k: int| 0 <= k < docs@.len() ==> jwf(#[trigger] docs@[k]),
                    decreases n - i,
                {
                    let ghost docs0 = docs@;
                    let d = items[i].to_json();
                    docs.push(d);
                    proof {
                        crate::json::lemma_jv_seq_push(docs0, d);
                        assert(docs_s[i as int] == items@[i as int].spec_doc());
                        assert(docs_s.take(i + 1) =~= docs_s.take(i as int).push(docs_s[i as int]));
                        assert(jv_seq(docs@) =~= docs_s.take(i + 1));
                    }
                    i = i + 1;
                }
                proof {
                    assert(docs_s.take(n as int) =~= docs_s);
                }
                Json::Arr(docs)
            },
        };
        put_doc_field(&mut out, "data", data_doc);
        put_str_field(&mut out, "paginationToken", &self.pagination_token);
        proof {
            assert(jv_members(out@) =~= self.spec_doc()->Obj_0);
        }
        Json::Obj(out)
    }

    /// Decoding the canonical document gives the envelope back.
    pub proof fn lemma_roundtrip(self)
        ensures
            Self::spec_ok(self.spec_doc()),
            self.matches_doc(self.spec_doc()),
    {
        let ms = self.spec_doc()->Obj_0;
        reveal_strlit("data");
        reveal_strlit("paginationToken");
        assert("data"@.len() == 4);
        assert("paginationToken"@.len() == 15);
        crate::fields::lemma_obj_get_index(ms, 0);
        crate::fields::lemma_obj_get_index(ms, 1);
        match self.data {
            Option::Some(items) => {
                let docs = items@.map_values(|it: CollectionCandlesticks| it.spec_doc());
                assert forall|k: int| 0 <= k < docs.len() implies CollectionCandlesticks::spec_ok(#[trigger] docs[k]) by {
                    assert(docs[k] == items@[k].spec_doc());
                    items@[k].lemma_roundtrip();
                }
                assert forall|k: int| 0 <= k < items@.len() implies (#[trigger] items@[k]).matches_doc(docs[k]) by {
                    assert(docs[k] == items@[k].spec_doc());
                    items@[k].lemma_roundtrip();
                }
            },
            Option::None => {},
        }
    }

    /// Round trip through the wire: the rendered text of the canonical
    /// document parses back to it, and decoding it yields exactly this
    /// envelope's values.
    pub proof fn lemma_text_roundtrip(self)
        ensures
            spec_parse(ser_val(self.spec_doc())) == Some(self.spec_doc()),
            Self::spec_ok(self.spec_doc()),
            self.matches_doc(self.spec_doc()),
    {
        self.lemma_spec_doc_wf();
        crate::roundtrip::lemma_parse_render(self.spec_doc());
        self.lemma_roundtrip();
    }
}

/// Reads the optional `data` array of candlesticks.
#[verifier::rlimit(50)]
fn decode_data(ms: &Vec<(String, Json)>) -> (r: Result<Option<Vec<CollectionCandlesticks>>, DecodeError>)
    requires
        forall|k: int| 0 <= k < ms@.len() ==> jwf((#[trigger] ms@[k]).1),
    ensures
        match r {
            Result::Ok(o) => match obj_get(jv_members(ms@), "data"@) {
                Option::None => o is None,
                Option::Some(JVal::Null) => o is None,
                Option::Some(JVal::Arr(elems)) => o matches Option::Some(items)
                    && items@.len() == elems.len()
                    && (forall|k: int| 0 <= k < elems.len()
                        ==> CollectionCandlesticks::spec_ok(#[trigger] elems[k]))
                    && (forall|k: int| 0 <= k < elems.len()
                        ==> (#[trigger] items@[k]).matches_doc(elems[k])),
                Option::Some(_) => false,
            },
            Result::Err(e) => e == DecodeError::Shape && match obj_get(jv_members(ms@), "data"@) {
                Option::None => false,
                Option::Some(JVal::Null) => false,
                Option::Some(JVal::Arr(elems)) => !(forall|k: int| 0 <= k < elems.len()
                    ==> CollectionCandlesticks::spec_ok(#[trigger] elems[k])),
                Option::Some(_) => true,
            },
        },
{
    let arr = match crate::decode::lookup_member(ms, "data") {
        Option::None => {
            return Result::Ok(Option::None);
        },
        Option::Some(j) => match j {
            Json::Null => {
                return Result::Ok(Option::None);
            },
            Json::Arr(elems) => elems,
            _ => {
                return Result::Err(DecodeError::Shape);
            },
        },
    };
    let ghost evs = jv_seq(arr@);
    proof {
        lemma_jv_seq(arr@);
    }
    let n: usize = arr.len();
    let mut items: Vec<CollectionCandlesticks> = Vec::new();
    let mut i: usize = 0;
    while i < n
        invariant
            i <= n,
            n == arr@.len(),
            obj_get(jv_members(ms@), "data"@) == Some(JVal::Arr(evs)),
            evs == jv_seq(arr@),
            evs.len() == n,
            forall|k: int| 0 <= k < n ==> evs[k] == jv(#[trigger] arr@[k]),
            forall|k: int| 0 <= k < n ==> jwf(#[trigger] arr@[k]),
            items@.len() == i,
            forall|k: int| 0 <= k < i ==> CollectionCandlesticks::spec_ok(#[trigger] evs[k]),
            forall|k: int| 0 <= k < i ==> (#[trigger] items@[k]).matches_doc(evs[k]),
        decreases n - i,
    {
        match CollectionCandlesticks::from_json(&arr[i]) {
            Result::Ok(it) => {
                items.push(it);
            },
            Result::Err(e) => {
                proof {
                    let g = obj_get(jv_members(ms@), "data"@);
                    let gelems = g->0->Arr_0;
                    assert(gelems == evs);
                    assert(!(forall|k: int| 0 <= k < gelems.len()
                        ==> CollectionCandlesticks::spec_ok(#[trigger] gelems[k]))) by {
                        assert(!CollectionCandlesticks::spec_ok(gelems[i as int]));
                    }
                }
                return Result::Err(e);
            },
        }
        i = i + 1;
    }
    Result::Ok(Option::Some(items))
}

/// The path of this endpoint under the API root.
pub open spec fn candlesticks_url() -> Seq<char> {
    root_url() + "/collection/listing/candlesticks"@
}

/// Prepares one collection-candlesticks call: the fixed URL, the three
/// fixed headers with the caller's bearer token, and — when a request is
/// given — the canonical serialization of its sentinel-filtered fields.
pub fn collection_candlesticks(api_key: &str, request: Option<&CollectionCandlesticksRequest>) -> (r: PreparedCall)
    ensures
        r.url@ == candlesticks_url(),
        headers_model(r.headers@) == spec_headers(api_key@),
        match request {
            Option::None => r.body is None,
            Option::Some(req) => r.body matches Option::Some(b)
                && b@ == ser_val(JVal::Obj(req.spec_members())),
        },
{
    let url = hellomoon_root_url().to_owned().concat("/collection/listing/candlesticks");
    prepare_call(url, api_key, request)
}

impl crate::decode::ResponseEnvelope for CollectionCandlesticksResponse {
    open spec fn env_ok(v: JVal) -> bool {
        CollectionCandlesticksResponse::spec_ok(v)
    }

    open spec fn env_matches(self, v: JVal) -> bool {
        self.matches_doc(v)
    }

    fn env_from_json(doc: &Json) -> Result<Self, DecodeError> {
        CollectionCandlesticksResponse::from_json(doc)
    }

    proof fn lemma_empty_envelope() {
        let ms = crate::decode::empty_envelope()->Obj_0;
        reveal_strlit("data");
        reveal_strlit("paginationToken");
        assert("data"@.len() == 4);
        assert("paginationToken"@.len() == 15);
        crate::fields::lemma_obj_get_index(ms, 0);
        crate::fields::lemma_obj_get_index(ms, 1);
    }
}

/// Decodes one response body: `Syntax` when the body is not valid JSON,
/// `Shape` when it does not fit the envelope, the typed response
/// otherwise.
pub fn collection_candlesticks_decode(body: &str) -> (r: Result<CollectionCandlesticksResponse, DecodeError>)
    ensures
        match spec_parse(body@) {
            Option::None => r == Result::<CollectionCandlesticksResponse, DecodeError>::Err(DecodeError::Syntax),
            Option::Some(v) => match r {
                Result::Ok(resp) => CollectionCandlesticksResponse::spec_ok(v) && resp.matches_doc(v),
                Result::Err(e) => e == DecodeError::Shape && !CollectionCandlesticksResponse::spec_ok(v),
            },
        },
{
    crate::decode::decode_body::<CollectionCandlesticksResponse>(body)
}

} // verus!
