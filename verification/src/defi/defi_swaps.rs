//! DeFi swaps, `POST <root>/defi/swaps`.

use vstd::prelude::*;

use crate::call::{PreparedCall, headers_model, hellomoon_root_url, prepare_call, root_url, spec_headers};
use crate::decode::{get_opt_string, spec_opt_string, DecodeError};
use crate::fields::{
    obj_get, opt_count, opt_doc, opt_text, push_count, push_doc, push_text, put_doc_field,
    put_str_field, put_u64_field,
};
use crate::json::{
    JVal, Json, jv, jv_members, jv_opt_str, jv_seq, jwf, lemma_jv_seq, o_str, ser_val, wf,
};
use crate::parse::spec_parse;

verus! {
broadcast use vstd::seq::group_seq_axioms, vstd::std_specs::vec::group_vec_axioms;

/// The swap aggregator asked about.
#[derive(Debug, PartialEq, Eq, Clone, Copy)]
pub enum AggregatorName {
    JupiterV2,
    JupiterV3,
    JupiterV4,
}

impl AggregatorName {
    /// The variant's wire form.
    pub open spec fn spec_doc(self) -> JVal {
        match self {
            AggregatorName::JupiterV2 => JVal::Str("Jupiter v2"@),
            AggregatorName::JupiterV3 => JVal::Str("Jupiter v3"@),
            AggregatorName::JupiterV4 => JVal::Str("Jupiter v4"@),
        }
    }

    pub fn to_json(&self) -> (r: Json)
        ensures
            jv(r) == self.spec_doc(),
            jwf(r),
    {
        match self {
            AggregatorName::JupiterV2 => Json::Str("Jupiter v2".to_owned()),
            AggregatorName::JupiterV3 => Json::Str("Jupiter v3".to_owned()),
            AggregatorName::JupiterV4 => Json::Str("Jupiter v4".to_owned()),
        }
    }
}

impl Default for AggregatorName {
    fn default() -> (r: Self)
        ensures
            r == AggregatorName::JupiterV4,
    {
        AggregatorName::JupiterV4
    }
}

/// How a numeric filter compares against its value.
#[derive(Debug, PartialEq, Eq, Clone, Copy)]
pub enum Operator {
    Equal,
    NoEqual,
    Less,
    LessOrEqual,
    Greater,
    GreaterOrEqual,
    Between,
}

impl Operator {
    /// The variant's wire form.
    pub open spec fn spec_doc(self) -> JVal {
        match self {
            Operator::Equal => JVal::Str("Equal"@),
            Operator::NoEqual => JVal::Str("NoEqual"@),
            Operator::Less => JVal::Str("Less"@),
            Operator::LessOrEqual => JVal::Str("LessOrEqual"@),
            Operator::Greater => JVal::Str("Greater"@),
            Operator::GreaterOrEqual => JVal::Str("GreaterOrEqual"@),
            Operator::Between => JVal::Str("Between"@),
        }
    }

    pub fn to_json(&self) -> (r: Json)
        ensures
            jv(r) == self.spec_doc(),
            jwf(r),
    {
        match self {
            Operator::Equal => Json::Str("Equal".to_owned()),
            Operator::NoEqual => Json::Str("NoEqual".to_owned()),
            Operator::Less => Json::Str("Less".to_owned()),
            Operator::LessOrEqual => Json::Str("LessOrEqual".to_owned()),
            Operator::Greater => Json::Str("Greater".to_owned()),
            Operator::GreaterOrEqual => Json::Str("GreaterOrEqual".to_owned()),
            Operator::Between => Json::Str("Between".to_owned()),
        }
    }
}

/// A filter on the amount of source tokens sent: a comparison against a
/// value, or a plain amount.
#[derive(Debug, PartialEq, Eq)]
pub enum SourceAmount {
    Option1 { operator: String, value: usize },
    Option2(usize),
}

impl SourceAmount {
    /// The filter's wire form: one externally tagged variant object.
    pub open spec fn spec_doc(self) -> JVal {
        match self {
            SourceAmount::Option1 { operator, value } => JVal::Obj(seq![
                ("Option1"@, JVal::Obj(seq![
                    ("operator"@, JVal::Str(operator@)),
                    ("value"@, JVal::Int(value as int)),
                ])),
            ]),
            SourceAmount::Option2(v) => JVal::Obj(seq![("Option2"@, JVal::Int(v as int))]),
        }
    }

    pub fn to_json(&self) -> (r: Json)
        ensures
            jv(r) == self.spec_doc(),
            jwf(r),
    {
        match self {
            SourceAmount::Option1 { operator, value } => {
                let mut inner: Vec<(String, Json)> = Vec::new();
                proof {
                    assert(jv_members(inner@) =~= Seq::<(Seq<char>, JVal)>::empty());
                }
                put_str_field(&mut inner, "operator", &Option::Some(operator.clone()));
                put_u64_field(&mut inner, "value", &Option::Some(*value as u64));
                proof {
                    assert(jv_members(inner@) =~= seq![
                        ("operator"@, JVal::Str(operator@)),
                        ("value"@, JVal::Int(*value as int)),
                    ]);
                }
                let mut out: Vec<(String, Json)> = Vec::new();
                proof {
                    assert(jv_members(out@) =~= Seq::<(Seq<char>, JVal)>::empty());
                }
                put_doc_field(&mut out, "Option1", Json::Obj(inner));
                proof {
                    assert(jv_members(out@) =~~= self.spec_doc()->Obj_0);
                }
                Json::Obj(out)
            },
            SourceAmount::Option2(v) => {
                let mut out: Vec<(String, Json)> = Vec::new();
                proof {
                    assert(jv_members(out@) =~= Seq::<(Seq<char>, JVal)>::empty());
                }
                put_u64_field(&mut out, "Option2", &Option::Some(*v as u64));
                proof {
                    assert(jv_members(out@) =~~= self.spec_doc()->Obj_0);
                }
                Json::Obj(out)
            },
        }
    }
}

/// A filter on the amount of destination tokens received.
#[derive(Debug, PartialEq, Eq)]
pub enum DestinationAmount {
    Option1 { operator: String, value: usize },
    Option2(usize),
}

impl DestinationAmount {
    /// The filter's wire form: one externally tagged variant object.
    pub open spec fn spec_doc(self) -> JVal {
        match self {
            DestinationAmount::Option1 { operator, value } => JVal::Obj(seq![
                ("Option1"@, JVal::Obj(seq![
                    ("operator"@, JVal::Str(operator@)),
                    ("value"@, JVal::Int(value as int)),
                ])),
            ]),
            DestinationAmount::Option2(v) => JVal::Obj(seq![("Option2"@, JVal::Int(v as int))]),
        }
    }

    pub fn to_json(&self) -> (r: Json)
        ensures
            jv(r) == self.spec_doc(),
            jwf(r),
    {
        match self {
            DestinationAmount::Option1 { operator, value } => {
                let mut inner: Vec<(String, Json)> = Vec::new();
                proof {
                    assert(jv_members(inner@) =~= Seq::<(Seq<char>, JVal)>::empty());
                }
                put_str_field(&mut inner, "operator", &Option::Some(operator.clone()));
                put_u64_field(&mut inner, "value", &Option::Some(*value as u64));
                proof {
                    assert(jv_members(inner@) =~= seq![
                        ("operator"@, JVal::Str(operator@)),
                        ("value"@, JVal::Int(*value as int)),
                    ]);
                }
                let mut out: Vec<(String, Json)> = Vec::new();
                proof {
                    assert(jv_members(out@) =~= Seq::<(Seq<char>, JVal)>::empty());
                }
                put_doc_field(&mut out, "Option1", Json::Obj(inner));
                proof {
                    assert(jv_members(out@) =~~= self.spec_doc()->Obj_0);
                }
                Json::Obj(out)
            },
            DestinationAmount::Option2(v) => {
                let mut out: Vec<(String, Json)> = Vec::new();
                proof {
                    assert(jv_members(out@) =~= Seq::<(Seq<char>, JVal)>::empty());
                }
                put_u64_field(&mut out, "Option2", &Option::Some(*v as u64));
                proof {
                    assert(jv_members(out@) =~~= self.spec_doc()->Obj_0);
                }
                Json::Obj(out)
            },
        }
    }
}

/// A filter on block time: a single comparison, or a range.
#[derive(Debug, PartialEq, Eq)]
pub enum BlockTimeType {
    Comparator { value: usize, operator: Operator },
    Range { greater_than: usize, less_than: usize, operator: Operator },
}

impl BlockTimeType {
    /// The filter's wire form: one externally tagged variant object.
    pub open spec fn spec_doc(self) -> JVal {
        match self {
            BlockTimeType::Comparator { value, operator } => JVal::Obj(seq![
                ("Comparator"@, JVal::Obj(seq![
                    ("value"@, JVal::Int(value as int)),
                    ("operator"@, operator.spec_doc()),
                ])),
            ]),
            BlockTimeType::Range { greater_than, less_than, operator } => JVal::Obj(seq![
                ("Range"@, JVal::Obj(seq![
                    ("greaterThan"@, JVal::Int(greater_than as int)),
                    ("LessThan"@, JVal::Int(less_than as int)),
                    ("operator"@, operator.spec_doc()),
                ])),
            ]),
        }
    }

    pub fn to_json(&self) -> (r: Json)
        ensures
            jv(r) == self.spec_doc(),
            jwf(r),
    {
        match self {
            BlockTimeType::Comparator { value, operator } => {
                let mut inner: Vec<(String, Json)> = Vec::new();
                proof {
                    assert(jv_members(inner@) =~= Seq::<(Seq<char>, JVal)>::empty());
                }
                put_u64_field(&mut inner, "value", &Option::Some(*value as u64));
                put_doc_field(&mut inner, "operator", operator.to_json());
                proof {
                    assert(jv_members(inner@) =~= seq![
                        ("value"@, JVal::Int(*value as int)),
                        ("operator"@, operator.spec_doc()),
                    ]);
                }
                let mut out: Vec<(String, Json)> = Vec::new();
                proof {
                    assert(jv_members(out@) =~= Seq::<(Seq<char>, JVal)>::empty());
                }
                put_doc_field(&mut out, "Comparator", Json::Obj(inner));
                proof {
                    assert(jv_members(out@) =~~= self.spec_doc()->Obj_0);
                }
                Json::Obj(out)
            },
            BlockTimeType::Range { greater_than, less_than, operator } => {
                let mut inner: Vec<(String, Json)> = Vec::new();
                proof {
                    assert(jv_members(inner@) =~= Seq::<(Seq<char>, JVal)>::empty());
                }
                put_u64_field(&mut inner, "greaterThan", &Option::Some(*greater_than as u64));
                put_u64_field(&mut inner, "LessThan", &Option::Some(*less_than as u64));
                put_doc_field(&mut inner, "operator", operator.to_json());
                proof {
                    assert(jv_members(inner@) =~= seq![
                        ("greaterThan"@, JVal::Int(*greater_than as int)),
                        ("LessThan"@, JVal::Int(*less_than as int)),
                        ("operator"@, operator.spec_doc()),
                    ]);
                }
                let mut out: Vec<(String, Json)> = Vec::new();
                proof {
                    assert(jv_members(out@) =~= Seq::<(Seq<char>, JVal)>::empty());
                }
                put_doc_field(&mut out, "Range", Json::Obj(inner));
                proof {
                    assert(jv_members(out@) =~~= self.spec_doc()->Obj_0);
                }
                Json::Obj(out)
            },
        }
    }
}

/// What to ask the swaps endpoint for.
pub struct DefiSwapsRequest {
    pub user_account: String,
    pub source_mint: String,
    pub destination_mint: String,
    pub aggregator_name: Option<AggregatorName>,
    pub program_id: String,
    pub source_amount: Option<SourceAmount>,
    pub destination_amount: Option<DestinationAmount>,
    pub block_id: usize,
    pub block_time: Option<BlockTimeType>,
    pub limit: usize,
    pub page: usize,
    pub pagination_token: String,
}

impl DefiSwapsRequest {
    /// The members of the serialized request body, in declaration order,
    /// sentinel fields omitted.
    pub open spec fn spec_members(self) -> Seq<(Seq<char>, JVal)> {
        opt_text("userAccount"@, self.user_account@)
            + opt_text("sourceMint"@, self.source_mint@)
            + opt_text("destinationMint"@, self.destination_mint@)
            + opt_doc("aggregatorName"@, match self.aggregator_name {
                Option::Some(e) => Option::Some(e.spec_doc()),
                Option::None => Option::None,
            })
            + opt_text("programId"@, self.program_id@)
            + opt_doc("sourceAmount"@, match self.source_amount {
                Option::Some(e) => Option::Some(e.spec_doc()),
                Option::None => Option::None,
            })
            + opt_doc("destinationAmount"@, match self.destination_amount {
                Option::Some(e) => Option::Some(e.spec_doc()),
                Option::None => Option::None,
            })
            + opt_count("blockId"@, self.block_id as int)
            + opt_doc("blockTime"@, match self.block_time {
                Option::Some(e) => Option::Some(e.spec_doc()),
                Option::None => Option::None,
            })
            + opt_count("limit"@, self.limit as int)
            + opt_count("page"@, self.page as int)
            + opt_text("paginationToken"@, self.pagination_token@)
    }

    /// Serializes the request body.
    pub fn to_json(&self) -> (r: Json)
        ensures
            jv(r) == JVal::Obj(self.spec_members()),
            jwf(r),
    {
        let mut out: Vec<(String, Json)> = Vec::new();
        proof {
            assert(jv_members(out@) =~= Seq::<(Seq<char>, JVal)>::empty());
        }
        push_text(&mut out, "userAccount", &self.user_account);
        push_text(&mut out, "sourceMint", &self.source_mint);
        push_text(&mut out, "destinationMint", &self.destination_mint);
        let aggregator_name_doc: Option<Json> = match &self.aggregator_name {
            Option::Some(e) => Option::Some(e.to_json()),
            Option::None => Option::None,
        };
        push_doc(&mut out, "aggregatorName", aggregator_name_doc);
        push_text(&mut out, "programId", &self.program_id);
        let source_amount_doc: Option<Json> = match &self.source_amount {
            Option::Some(e) => Option::Some(e.to_json()),
            Option::None => Option::None,
        };
        push_doc(&mut out, "sourceAmount", source_amount_doc);
        let destination_amount_doc: Option<Json> = match &self.destination_amount {
            Option::Some(e) => Option::Some(e.to_json()),
            Option::None => Option::None,
        };
        push_doc(&mut out, "destinationAmount", destination_amount_doc);
        push_count(&mut out, "blockId", self.block_id);
        let block_time_doc: Option<Json> = match &self.block_time {
            Option::Some(e) => Option::Some(e.to_json()),
            Option::None => Option::None,
        };
        push_doc(&mut out, "blockTime", block_time_doc);
        push_count(&mut out, "limit", self.limit);
        push_count(&mut out, "page", self.page);
        push_text(&mut out, "paginationToken", &self.pagination_token);
        proof {
            assert(jv_members(out@) =~= self.spec_members());
        }
        Json::Obj(out)
    }
}

impl crate::call::RequestShape for DefiSwapsRequest {
    open spec fn req_members(self) -> Seq<(Seq<char>, JVal)> {
        self.spec_members()
    }

    fn req_to_json(&self) -> (r: Json) {
        self.to_json()
    }
}

impl DefiSwapsRequest {
    /// Sentinel omission: each field stands in the serialized object
    /// exactly when its value is not the sentinel, under its wire name,
    /// with its serialized value; a sentinel field's name is absent.
    #[verifier::rlimit(100)]
    pub proof fn lemma_sentinel_omission(self)
        ensures
            obj_get(self.spec_members(), "userAccount"@) == (if self.user_account@.len() > 0 {
                Option::Some(JVal::Str(self.user_account@))
            } else {
                Option::<JVal>::None
            }),
            obj_get(self.spec_members(), "sourceMint"@) == (if self.source_mint@.len() > 0 {
                Option::Some(JVal::Str(self.source_mint@))
            } else {
                Option::<JVal>::None
            }),
            obj_get(self.spec_members(), "destinationMint"@) == (if self.destination_mint@.len() > 0 {
                Option::Some(JVal::Str(self.destination_mint@))
            } else {
                Option::<JVal>::None
            }),
            obj_get(self.spec_members(), "aggregatorName"@) == (match self.aggregator_name {
                Option::Some(e) => Option::Some(e.spec_doc()),
                Option::None => Option::<JVal>::None,
            }),
            obj_get(self.spec_members(), "programId"@) == (if self.program_id@.len() > 0 {
                Option::Some(JVal::Str(self.program_id@))
            } else {
                Option::<JVal>::None
            }),
            obj_get(self.spec_members(), "sourceAmount"@) == (match self.source_amount {
                Option::Some(e) => Option::Some(e.spec_doc()),
                Option::None => Option::<JVal>::None,
            }),
            obj_get(self.spec_members(), "destinationAmount"@) == (match self.destination_amount {
                Option::Some(e) => Option::Some(e.spec_doc()),
                Option::None => Option::<JVal>::None,
            }),
            obj_get(self.spec_members(), "blockId"@) == (if self.block_id > 0 {
                Option::Some(JVal::Int(self.block_id as int))
            } else {
                Option::<JVal>::None
            }),
            obj_get(self.spec_members(), "blockTime"@) == (match self.block_time {
                Option::Some(e) => Option::Some(e.spec_doc()),
                Option::None => Option::<JVal>::None,
            }),
            obj_get(self.spec_members(), "limit"@) == (if self.limit > 0 {
                Option::Some(JVal::Int(self.limit as int))
            } else {
                Option::<JVal>::None
            }),
            obj_get(self.spec_members(), "page"@) == (if self.page > 0 {
                Option::Some(JVal::Int(self.page as int))
            } else {
                Option::<JVal>::None
            }),
            obj_get(self.spec_members(), "paginationToken"@) == (if self.pagination_token@.len() > 0 {
                Option::Some(JVal::Str(self.pagination_token@))
            } else {
                Option::<JVal>::None
            }),
    {
        reveal_strlit("aggregatorName");
        reveal_strlit("blockId");
        reveal_strlit("blockTime");
        reveal_strlit("destinationAmount");
        reveal_strlit("destinationMint");
        reveal_strlit("limit");
        reveal_strlit("page");
        reveal_strlit("paginationToken");
        reveal_strlit("programId");
        reveal_strlit("sourceAmount");
        reveal_strlit("sourceMint");
        reveal_strlit("userAccount");
        assert("aggregatorName"@.len() == 14);
        assert("blockId"@.len() == 7);
        assert("blockTime"@.len() == 9);
        assert("destinationAmount"@.len() == 17);
        assert("destinationMint"@.len() == 15);
        assert("limit"@.len() == 5);
        assert("page"@.len() == 4);
        assert("paginationToken"@.len() == 15);
        assert("programId"@.len() == 9);
        assert("sourceAmount"@.len() == 12);
        assert("sourceMint"@.len() == 10);
        assert("userAccount"@.len() == 11);
        assert("blockTime"@[0] == 'b');
        assert("destinationMint"@[0] == 'd');
        assert("paginationToken"@[0] == 'p');
        assert("programId"@[0] == 'p');
        let s1 = crate::fields::seg("userAccount"@, self.user_account@.len() > 0, JVal::Str(self.user_account@));
        let s2 = crate::fields::seg("sourceMint"@, self.source_mint@.len() > 0, JVal::Str(self.source_mint@));
        let s3 = crate::fields::seg("destinationMint"@, self.destination_mint@.len() > 0, JVal::Str(self.destination_mint@));
        let s4 = crate::fields::seg("aggregatorName"@, self.aggregator_name is Some, if self.aggregator_name is Some { self.aggregator_name->0.spec_doc() } else { JVal::Null });
        let s5 = crate::fields::seg("programId"@, self.program_id@.len() > 0, JVal::Str(self.program_id@));
        let s6 = crate::fields::seg("sourceAmount"@, self.source_amount is Some, if self.source_amount is Some { self.source_amount->0.spec_doc() } else { JVal::Null });
        let s7 = crate::fields::seg("destinationAmount"@, self.destination_amount is Some, if self.destination_amount is Some { self.destination_amount->0.spec_doc() } else { JVal::Null });
        let s8 = crate::fields::seg("blockId"@, self.block_id > 0, JVal::Int(self.block_id as int));
        let s9 = crate::fields::seg("blockTime"@, self.block_time is Some, if self.block_time is Some { self.block_time->0.spec_doc() } else { JVal::Null });
        let s10 = crate::fields::seg("limit"@, self.limit > 0, JVal::Int(self.limit as int));
        let s11 = crate::fields::seg("page"@, self.page > 0, JVal::Int(self.page as int));
        let s12 = crate::fields::seg("paginationToken"@, self.pagination_token@.len() > 0, JVal::Str(self.pagination_token@));
        assert(self.spec_members() =~= s1 + s2 + s3 + s4 + s5 + s6 + s7 + s8 + s9 + s10 + s11 + s12);
        crate::fields::lemma_seg_get_any("userAccount"@, self.user_account@.len() > 0, JVal::Str(self.user_account@));
        crate::fields::lemma_seg_get_any("sourceMint"@, self.source_mint@.len() > 0, JVal::Str(self.source_mint@));
        crate::fields::lemma_seg_get_any("destinationMint"@, self.destination_mint@.len() > 0, JVal::Str(self.destination_mint@));
        crate::fields::lemma_seg_get_any("aggregatorName"@, self.aggregator_name is Some, if self.aggregator_name is Some { self.aggregator_name->0.spec_doc() } else { JVal::Null });
        crate::fields::lemma_seg_get_any("programId"@, self.program_id@.len() > 0, JVal::Str(self.program_id@));
        crate::fields::lemma_seg_get_any("sourceAmount"@, self.source_amount is Some, if self.source_amount is Some { self.source_amount->0.spec_doc() } else { JVal::Null });
        crate::fields::lemma_seg_get_any("destinationAmount"@, self.destination_amount is Some, if self.destination_amount is Some { self.destination_amount->0.spec_doc() } else { JVal::Null });
        crate::fields::lemma_seg_get_any("blockId"@, self.block_id > 0, JVal::Int(self.block_id as int));
        crate::fields::lemma_seg_get_any("blockTime"@, self.block_time is Some, if self.block_time is Some { self.block_time->0.spec_doc() } else { JVal::Null });
        crate::fields::lemma_seg_get_any("limit"@, self.limit > 0, JVal::Int(self.limit as int));
        crate::fields::lemma_seg_get_any("page"@, self.page > 0, JVal::Int(self.page as int));
        crate::fields::lemma_seg_get_any("paginationToken"@, self.pagination_token@.len() > 0, JVal::Str(self.pagination_token@));
        crate::fields::lemma_obj_get_concat(s1 + s2 + s3 + s4 + s5 + s6 + s7 + s8 + s9 + s10 + s11, s12, "userAccount"@);
        crate::fields::lemma_obj_get_concat(s1 + s2 + s3 + s4 + s5 + s6 + s7 + s8 + s9 + s10, s11, "userAccount"@);
        crate::fields::lemma_obj_get_concat(s1 + s2 + s3 + s4 + s5 + s6 + s7 + s8 + s9, s10, "userAccount"@);
        crate::fields::lemma_obj_get_concat(s1 + s2 + s3 + s4 + s5 + s6 + s7 + s8, s9, "userAccount"@);
        crate::fields::lemma_obj_get_concat(s1 + s2 + s3 + s4 + s5 + s6 + s7, s8, "userAccount"@);
        crate::fields::lemma_obj_get_concat(s1 + s2 + s3 + s4 + s5 + s6, s7, "userAccount"@);
        crate::fields::lemma_obj_get_concat(s1 + s2 + s3 + s4 + s5, s6, "userAccount"@);
        crate::fields::lemma_obj_get_concat(s1 + s2 + s3 + s4, s5, "userAccount"@);
        crate::fields::lemma_obj_get_concat(s1 + s2 + s3, s4, "userAccount"@);
        crate::fields::lemma_obj_get_concat(s1 + s2, s3, "userAccount"@);
        crate::fields::lemma_obj_get_concat(s1, s2, "userAccount"@);
        crate::fields::lemma_obj_get_concat(s1 + s2 + s3 + s4 + s5 + s6 + s7 + s8 + s9 + s10 + s11, s12, "sourceMint"@);
        crate::fields::lemma_obj_get_concat(s1 + s2 + s3 + s4 + s5 + s6 + s7 + s8 + s9 + s10, s11, "sourceMint"@);
        crate::fields::lemma_obj_get_concat(s1 + s2 + s3 + s4 + s5 + s6 + s7 + s8 + s9, s10, "sourceMint"@);
        crate::fields::lemma_obj_get_concat(s1 + s2 + s3 + s4 + s5 + s6 + s7 + s8, s9, "sourceMint"@);
        crate::fields::lemma_obj_get_concat(s1 + s2 + s3 + s4 + s5 + s6 + s7, s8, "sourceMint"@);
        crate::fields::lemma_obj_get_concat(s1 + s2 + s3 + s4 + s5 + s6, s7, "sourceMint"@);
        crate::fields::lemma_obj_get_concat(s1 + s2 + s3 + s4 + s5, s6, "sourceMint"@);
        crate::fields::lemma_obj_get_concat(s1 + s2 + s3 + s4, s5, "sourceMint"@);
        crate::fields::lemma_obj_get_concat(s1 + s2 + s3, s4, "sourceMint"@);
        crate::fields::lemma_obj_get_concat(s1 + s2, s3, "sourceMint"@);
        crate::fields::lemma_obj_get_concat(s1, s2, "sourceMint"@);
        crate::fields::lemma_obj_get_concat(s1 + s2 + s3 + s4 + s5 + s6 + s7 + s8 + s9 + s10 + s11, s12, "destinationMint"@);
        crate::fields::lemma_obj_get_concat(s1 + s2 + s3 + s4 + s5 + s6 + s7 + s8 + s9 + s10, s11, "destinationMint"@);
        crate::fields::lemma_obj_get_concat(s1 + s2 + s3 + s4 + s5 + s6 + s7 + s8 + s9, s10, "destinationMint"@);
        crate::fields::lemma_obj_get_concat(s1 + s2 + s3 + s4 + s5 + s6 + s7 + s8, s9, "destinationMint"@);
        crate::fields::lemma_obj_get_concat(s1 + s2 + s3 + s4 + s5 + s6 + s7, s8, "destinationMint"@);
        crate::fields::lemma_obj_get_concat(s1 + s2 + s3 + s4 + s5 + s6, s7, "destinationMint"@);
        crate::fields::lemma_obj_get_concat(s1 + s2 + s3 + s4 + s5, s6, "destinationMint"@);
        crate::fields::lemma_obj_get_concat(s1 + s2 + s3 + s4, s5, "destinationMint"@);
        crate::fields::lemma_obj_get_concat(s1 + s2 + s3, s4, "destinationMint"@);
        crate::fields::lemma_obj_get_concat(s1 + s2, s3, "destinationMint"@);
        crate::fields::lemma_obj_get_concat(s1, s2, "destinationMint"@);
        crate::fields::lemma_obj_get_concat(s1 + s2 + s3 + s4 + s5 + s6 + s7 + s8 + s9 + s10 + s11, s12, "aggregatorName"@);
        crate::fields::lemma_obj_get_concat(s1 + s2 + s3 + s4 + s5 + s6 + s7 + s8 + s9 + s10, s11, "aggregatorName"@);
        crate::fields::lemma_obj_get_concat(s1 + s2 + s3 + s4 + s5 + s6 + s7 + s8 + s9, s10, "aggregatorName"@);
        crate::fields::lemma_obj_get_concat(s1 + s2 + s3 + s4 + s5 + s6 + s7 + s8, s9, "aggregatorName"@);
        crate::fields::lemma_obj_get_concat(s1 + s2 + s3 + s4 + s5 + s6 + s7, s8, "aggregatorName"@);
        crate::fields::lemma_obj_get_concat(s1 + s2 + s3 + s4 + s5 + s6, s7, "aggregatorName"@);
        crate::fields::lemma_obj_get_concat(s1 + s2 + s3 + s4 + s5, s6, "aggregatorName"@);
        crate::fields::lemma_obj_get_concat(s1 + s2 + s3 + s4, s5, "aggregatorName"@);
        crate::fields::lemma_obj_get_concat(s1 + s2 + s3, s4, "aggregatorName"@);
        crate::fields::lemma_obj_get_concat(s1 + s2, s3, "aggregatorName"@);
        crate::fields::lemma_obj_get_concat(s1, s2, "aggregatorName"@);
        crate::fields::lemma_obj_get_concat(s1 + s2 + s3 + s4 + s5 + s6 + s7 + s8 + s9 + s10 + s11, s12, "programId"@);
        crate::fields::lemma_obj_get_concat(s1 + s2 + s3 + s4 + s5 + s6 + s7 + s8 + s9 + s10, s11, "programId"@);
        crate::fields::lemma_obj_get_concat(s1 + s2 + s3 + s4 + s5 + s6 + s7 + s8 + s9, s10, "programId"@);
        crate::fields::lemma_obj_get_concat(s1 + s2 + s3 + s4 + s5 + s6 + s7 + s8, s9, "programId"@);
        crate::fields::lemma_obj_get_concat(s1 + s2 + s3 + s4 + s5 + s6 + s7, s8, "programId"@);
        crate::fields::lemma_obj_get_concat(s1 + s2 + s3 + s4 + s5 + s6, s7, "programId"@);
        crate::fields::lemma_obj_get_concat(s1 + s2 + s3 + s4 + s5, s6, "programId"@);
        crate::fields::lemma_obj_get_concat(s1 + s2 + s3 + s4, s5, "programId"@);
        crate::fields::lemma_obj_get_concat(s1 + s2 + s3, s4, "programId"@);
        crate::fields::lemma_obj_get_concat(s1 + s2, s3, "programId"@);
        crate::fields::lemma_obj_get_concat(s1, s2, "programId"@);
        crate::fields::lemma_obj_get_concat(s1 + s2 + s3 + s4 + s5 + s6 + s7 + s8 + s9 + s10 + s11, s12, "sourceAmount"@);
        crate::fields::lemma_obj_get_concat(s1 + s2 + s3 + s4 + s5 + s6 + s7 + s8 + s9 + s10, s11, "sourceAmount"@);
        crate::fields::lemma_obj_get_concat(s1 + s2 + s3 + s4 + s5 + s6 + s7 + s8 + s9, s10, "sourceAmount"@);
        crate::fields::lemma_obj_get_concat(s1 + s2 + s3 + s4 + s5 + s6 + s7 + s8, s9, "sourceAmount"@);
        crate::fields::lemma_obj_get_concat(s1 + s2 + s3 + s4 + s5 + s6 + s7, s8, "sourceAmount"@);
        crate::fields::lemma_obj_get_concat(s1 + s2 + s3 + s4 + s5 + s6, s7, "sourceAmount"@);
        crate::fields::lemma_obj_get_concat(s1 + s2 + s3 + s4 + s5, s6, "sourceAmount"@);
        crate::fields::lemma_obj_get_concat(s1 + s2 + s3 + s4, s5, "sourceAmount"@);
        crate::fields::lemma_obj_get_concat(s1 + s2 + s3, s4, "sourceAmount"@);
        crate::fields::lemma_obj_get_concat(s1 + s2, s3, "sourceAmount"@);
        crate::fields::lemma_obj_get_concat(s1, s2, "sourceAmount"@);
        crate::fields::lemma_obj_get_concat(s1 + s2 + s3 + s4 + s5 + s6 + s7 + s8 + s9 + s10 + s11, s12, "destinationAmount"@);
        crate::fields::lemma_obj_get_concat(s1 + s2 + s3 + s4 + s5 + s6 + s7 + s8 + s9 + s10, s11, "destinationAmount"@);
        crate::fields::lemma_obj_get_concat(s1 + s2 + s3 + s4 + s5 + s6 + s7 + s8 + s9, s10, "destinationAmount"@);
        crate::fields::lemma_obj_get_concat(s1 + s2 + s3 + s4 + s5 + s6 + s7 + s8, s9, "destinationAmount"@);
        crate::fields::lemma_obj_get_concat(s1 + s2 + s3 + s4 + s5 + s6 + s7, s8, "destinationAmount"@);
        crate::fields::lemma_obj_get_concat(s1 + s2 + s3 + s4 + s5 + s6, s7, "destinationAmount"@);
        crate::fields::lemma_obj_get_concat(s1 + s2 + s3 + s4 + s5, s6, "destinationAmount"@);
        crate::fields::lemma_obj_get_concat(s1 + s2 + s3 + s4, s5, "destinationAmount"@);
        crate::fields::lemma_obj_get_concat(s1 + s2 + s3, s4, "destinationAmount"@);
        crate::fields::lemma_obj_get_concat(s1 + s2, s3, "destinationAmount"@);
        crate::fields::lemma_obj_get_concat(s1, s2, "destinationAmount"@);
        crate::fields::lemma_obj_get_concat(s1 + s2 + s3 + s4 + s5 + s6 + s7 + s8 + s9 + s10 + s11, s12, "blockId"@);
        crate::fields::lemma_obj_get_concat(s1 + s2 + s3 + s4 + s5 + s6 + s7 + s8 + s9 + s10, s11, "blockId"@);
        crate::fields::lemma_obj_get_concat(s1 + s2 + s3 + s4 + s5 + s6 + s7 + s8 + s9, s10, "blockId"@);
        crate::fields::lemma_obj_get_concat(s1 + s2 + s3 + s4 + s5 + s6 + s7 + s8, s9, "blockId"@);
        crate::fields::lemma_obj_get_concat(s1 + s2 + s3 + s4 + s5 + s6 + s7, s8, "blockId"@);
        crate::fields::lemma_obj_get_concat(s1 + s2 + s3 + s4 + s5 + s6, s7, "blockId"@);
        crate::fields::lemma_obj_get_concat(s1 + s2 + s3 + s4 + s5, s6, "blockId"@);
        crate::fields::lemma_obj_get_concat(s1 + s2 + s3 + s4, s5, "blockId"@);
        crate::fields::lemma_obj_get_concat(s1 + s2 + s3, s4, "blockId"@);
        crate::fields::lemma_obj_get_concat(s1 + s2, s3, "blockId"@);
        crate::fields::lemma_obj_get_concat(s1, s2, "blockId"@);
        crate::fields::lemma_obj_get_concat(s1 + s2 + s3 + s4 + s5 + s6 + s7 + s8 + s9 + s10 + s11, s12, "blockTime"@);
        crate::fields::lemma_obj_get_concat(s1 + s2 + s3 + s4 + s5 + s6 + s7 + s8 + s9 + s10, s11, "blockTime"@);
        crate::fields::lemma_obj_get_concat(s1 + s2 + s3 + s4 + s5 + s6 + s7 + s8 + s9, s10, "blockTime"@);
        crate::fields::lemma_obj_get_concat(s1 + s2 + s3 + s4 + s5 + s6 + s7 + s8, s9, "blockTime"@);
        crate::fields::lemma_obj_get_concat(s1 + s2 + s3 + s4 + s5 + s6 + s7, s8, "blockTime"@);
        crate::fields::lemma_obj_get_concat(s1 + s2 + s3 + s4 + s5 + s6, s7, "blockTime"@);
        crate::fields::lemma_obj_get_concat(s1 + s2 + s3 + s4 + s5, s6, "blockTime"@);
        crate::fields::lemma_obj_get_concat(s1 + s2 + s3 + s4, s5, "blockTime"@);
        crate::fields::lemma_obj_get_concat(s1 + s2 + s3, s4, "blockTime"@);
        crate::fields::lemma_obj_get_concat(s1 + s2, s3, "blockTime"@);
        crate::fields::lemma_obj_get_concat(s1, s2, "blockTime"@);
        crate::fields::lemma_obj_get_concat(s1 + s2 + s3 + s4 + s5 + s6 + s7 + s8 + s9 + s10 + s11, s12, "limit"@);
        crate::fields::lemma_obj_get_concat(s1 + s2 + s3 + s4 + s5 + s6 + s7 + s8 + s9 + s10, s11, "limit"@);
        crate::fields::lemma_obj_get_concat(s1 + s2 + s3 + s4 + s5 + s6 + s7 + s8 + s9, s10, "limit"@);
        crate::fields::lemma_obj_get_concat(s1 + s2 + s3 + s4 + s5 + s6 + s7 + s8, s9, "limit"@);
        crate::fields::lemma_obj_get_concat(s1 + s2 + s3 + s4 + s5 + s6 + s7, s8, "limit"@);
        crate::fields::lemma_obj_get_concat(s1 + s2 + s3 + s4 + s5 + s6, s7, "limit"@);
        crate::fields::lemma_obj_get_concat(s1 + s2 + s3 + s4 + s5, s6, "limit"@);
        crate::fields::lemma_obj_get_concat(s1 + s2 + s3 + s4, s5, "limit"@);
        crate::fields::lemma_obj_get_concat(s1 + s2 + s3, s4, "limit"@);
        crate::fields::lemma_obj_get_concat(s1 + s2, s3, "limit"@);
        crate::fields::lemma_obj_get_concat(s1, s2, "limit"@);
        crate::fields::lemma_obj_get_concat(s1 + s2 + s3 + s4 + s5 + s6 + s7 + s8 + s9 + s10 + s11, s12, "page"@);
        crate::fields::lemma_obj_get_concat(s1 + s2 + s3 + s4 + s5 + s6 + s7 + s8 + s9 + s10, s11, "page"@);
        crate::fields::lemma_obj_get_concat(s1 + s2 + s3 + s4 + s5 + s6 + s7 + s8 + s9, s10, "page"@);
        crate::fields::lemma_obj_get_concat(s1 + s2 + s3 + s4 + s5 + s6 + s7 + s8, s9, "page"@);
        crate::fields::lemma_obj_get_concat(s1 + s2 + s3 + s4 + s5 + s6 + s7, s8, "page"@);
        crate::fields::lemma_obj_get_concat(s1 + s2 + s3 + s4 + s5 + s6, s7, "page"@);
        crate::fields::lemma_obj_get_concat(s1 + s2 + s3 + s4 + s5, s6, "page"@);
        crate::fields::lemma_obj_get_concat(s1 + s2 + s3 + s4, s5, "page"@);
        crate::fields::lemma_obj_get_concat(s1 + s2 + s3, s4, "page"@);
        crate::fields::lemma_obj_get_concat(s1 + s2, s3, "page"@);
        crate::fields::lemma_obj_get_concat(s1, s2, "page"@);
        crate::fields::lemma_obj_get_concat(s1 + s2 + s3 + s4 + s5 + s6 + s7 + s8 + s9 + s10 + s11, s12, "paginationToken"@);
        crate::fields::lemma_obj_get_concat(s1 + s2 + s3 + s4 + s5 + s6 + s7 + s8 + s9 + s10, s11, "paginationToken"@);
        crate::fields::lemma_obj_get_concat(s1 + s2 + s3 + s4 + s5 + s6 + s7 + s8 + s9, s10, "paginationToken"@);
        crate::fields::lemma_obj_get_concat(s1 + s2 + s3 + s4 + s5 + s6 + s7 + s8, s9, "paginationToken"@);
        crate::fields::lemma_obj_get_concat(s1 + s2 + s3 + s4 + s5 + s6 + s7, s8, "paginationToken"@);
        crate::fields::lemma_obj_get_concat(s1 + s2 + s3 + s4 + s5 + s6, s7, "paginationToken"@);
        crate::fields::lemma_obj_get_concat(s1 + s2 + s3 + s4 + s5, s6, "paginationToken"@);
        crate::fields::lemma_obj_get_concat(s1 + s2 + s3 + s4, s5, "paginationToken"@);
        crate::fields::lemma_obj_get_concat(s1 + s2 + s3, s4, "paginationToken"@);
        crate::fields::lemma_obj_get_concat(s1 + s2, s3, "paginationToken"@);
        crate::fields::lemma_obj_get_concat(s1, s2, "paginationToken"@);
    }
}

impl Default for DefiSwapsRequest {
    fn default() -> (r: Self)
        ensures
            r.user_account@ == Seq::<char>::empty(),
            r.source_mint@ == Seq::<char>::empty(),
            r.destination_mint@ == Seq::<char>::empty(),
            r.aggregator_name is None,
            r.program_id@ == Seq::<char>::empty(),
            r.source_amount is None,
            r.destination_amount is None,
            r.block_id == 0,
            r.block_time is None,
            r.limit == 0,
            r.page == 0,
            r.pagination_token@ == Seq::<char>::empty(),
    {
        DefiSwapsRequest {
            user_account: String::new(),
            source_mint: String::new(),
            destination_mint: String::new(),
            aggregator_name: Option::None,
            program_id: String::new(),
            source_amount: Option::None,
            destination_amount: Option::None,
            block_id: 0,
            block_time: Option::None,
            limit: 0,
            page: 0,
            pagination_token: String::new(),
        }
    }
}

/// One swap record; the service's record shape is taken as is.
#[derive(Debug, PartialEq, Eq)]
pub struct IResponse {
}

impl IResponse {
    /// Whether a document fits this shape.
    pub open spec fn spec_ok(v: JVal) -> bool {
        v is Obj
    }

    /// Whether this value is what the document decodes to.
    pub open spec fn matches_doc(self, v: JVal) -> bool {
        v is Obj
    }

    /// Well-formedness: nothing to require.
    pub open spec fn inv(self) -> bool {
        true
    }

    /// Reads one record out of a document.
    pub fn from_json(doc: &Json) -> (r: Result<Self, DecodeError>)
        requires
            jwf(*doc),
        ensures
            match r {
                Result::Ok(it) => Self::spec_ok(jv(*doc)) && it.matches_doc(jv(*doc)) && it.inv(),
                Result::Err(e) => e == DecodeError::Shape && !Self::spec_ok(jv(*doc)),
            },
    {
        match doc {
            Json::Obj(ms) => Result::Ok(IResponse {  }),
            _ => Result::Err(DecodeError::Shape),
        }
    }

    /// The canonical document of this value.
    pub open spec fn spec_doc(self) -> JVal {
        JVal::Obj(Seq::empty())
    }

    /// Serializes this value to its canonical document.
    pub fn to_json(&self) -> (r: Json)
        ensures
            jv(r) == self.spec_doc(),
            jwf(r),
    {
        let out: Vec<(String, Json)> = Vec::new();
        proof {
            assert(jv_members(out@) =~= Seq::<(Seq<char>, JVal)>::empty());
        }
        Json::Obj(out)
    }

    /// Decoding the canonical document gives the value back.
    pub proof fn lemma_roundtrip(self)
        ensures
            Self::spec_ok(self.spec_doc()),
            self.matches_doc(self.spec_doc()),
    {
    }

    /// The canonical document is well formed.
    pub proof fn lemma_spec_doc_wf(self)
        ensures
            wf(self.spec_doc()),
    {
        let ms = self.spec_doc()->Obj_0;
        assert forall|k: int| 0 <= k < ms.len() implies wf(#[trigger] ms[k].1) by {}
    }
}

/// The response envelope: an optional run of records and an optional
/// continuation token.
#[derive(Debug, PartialEq, Eq)]
pub struct DefiSwapsResponse {
    pub data: Option<Vec<IResponse>>,
    pub pagination_token: Option<String>,
}

impl DefiSwapsResponse {
    /// Whether a document fits the envelope's shape.
    pub open spec fn spec_ok(v: JVal) -> bool {
        v matches JVal::Obj(ms) && {
            &&& spec_opt_string(ms, "paginationToken"@) is Ok
            &&& match obj_get(ms, "data"@) {
                Option::None => true,
                Option::Some(JVal::Null) => true,
                Option::Some(JVal::Arr(elems)) => forall|k: int| 0 <= k < elems.len()
                    ==> IResponse::spec_ok(#[trigger] elems[k]),
                Option::Some(_) => false,
            }
        }
    }

    /// Whether this value is what the document decodes to.
    pub open spec fn matches_doc(self, v: JVal) -> bool {
        v matches JVal::Obj(ms) && {
            &&& spec_opt_string(ms, "paginationToken"@) == Result::<Option<Seq<char>>, ()>::Ok(o_str(self.pagination_token))
            &&& match obj_get(ms, "data"@) {
                Option::None => self.data is None,
                Option::Some(JVal::Null) => self.data is None,
                Option::Some(JVal::Arr(elems)) => self.data matches Option::Some(items)
                    && items@.len() == elems.len()
                    && (forall|k: int| 0 <= k < elems.len()
                        ==> (#[trigger] items@[k]).matches_doc(elems[k])),
                Option::Some(_) => false,
            }
        }
    }

    /// Well-formedness of the held records.
    pub open spec fn inv(self) -> bool {
        match self.data {
            Option::Some(items) => forall|k: int| 0 <= k < items@.len() ==> (#[trigger] items@[k]).inv(),
            Option::None => true,
        }
    }

    /// Reads the envelope out of a document.
    pub fn from_json(doc: &Json) -> (r: Result<Self, DecodeError>)
        requires
            jwf(*doc),
        ensures
            match r {
                Result::Ok(resp) => Self::spec_ok(jv(*doc)) && resp.matches_doc(jv(*doc)) && resp.inv(),
                Result::Err(e) => e == DecodeError::Shape && !Self::spec_ok(jv(*doc)),
            },
    {
        let ms = match doc {
            Json::Obj(ms) => ms,
            _ => {
                return Result::Err(DecodeError::Shape);
            },
        };
        proof {
            assert(jv(*doc) == JVal::Obj(jv_members(ms@)));
        }
        let pagination_token = match get_opt_string(ms, "paginationToken") {
            Result::Ok(o) => o,
            Result::Err(e) => {
                return Result::Err(e);
            },
        };
        let data = match decode_data(ms) {
            Result::Ok(o) => o,
            Result::Err(e) => {
                return Result::Err(e);
            },
        };
        Result::Ok(DefiSwapsResponse { data, pagination_token })
    }

    /// The canonical document of this envelope.
    pub open spec fn spec_doc(self) -> JVal {
        JVal::Obj(seq![
            ("data"@, match self.data {
                Option::None => JVal::Null,
                Option::Some(items) => JVal::Arr(items@.map_values(|it: IResponse| it.spec_doc())),
            }),
            ("paginationToken"@, jv_opt_str(self.pagination_token)),
        ])
    }

    /// Serializes this envelope to its canonical document.
    pub fn to_json(&self) -> (r: Json)
        requires
            self.inv(),
        ensures
            jv(r) == self.spec_doc(),
            jwf(r),
    {
        let mut out: Vec<(String, Json)> = Vec::new();
        proof {
            assert(jv_members(out@) =~= Seq::<(Seq<char>, JVal)>::empty());
        }
        let data_doc: Json = match &self.data {
            Option::None => Json::Null,
            Option::Some(items) => {
                let ghost docs_s = items@.map_values(|it: IResponse| it.spec_doc());
                let n: usize = items.len();
                let mut docs: Vec<Json> = Vec::new();
                let mut i: usize = 0;
                proof {
                    assert(jv_seq(docs@) =~= docs_s.take(0));
                    assert(forall|k: int| 0 <= k < items@.len() ==> (#[trigger] items@[k]).inv());
                }
                while i < n
                    invariant
                        i <= n,
                        n == items@.len(),
                        docs_s == items@.map_values(|it: IResponse| it.spec_doc()),
                        docs_s.len() == n,
                        forall|k: int| 0 <= k < items@.len() ==> (#[trigger] items@[k]).inv(),
                        docs@.len() == i,
                        jv_seq(docs@) == docs_s.take(i as int),
                        forall|k: int| 0 <= k < docs@.len() ==> jwf(#[trigger] docs@[k]),
                    decreases n - i,
                {
                    let ghost docs0 = docs@;
                    let d = items[i].to_json();
                    docs.push(d);
                    proof {
                        crate::json::lemma_jv_seq_push(docs0, d);
                        assert(docs_s[i as int] == items@[i as int].spec_doc());
                        assert(docs_s.take(i + 1) =~= docs_s.take(i as int).push(docs_s[i as int]));
                        assert(jv_seq(docs@) =~= docs_s.take(i + 1));
                    }
                    i = i + 1;
                }
                proof {
                    assert(docs_s.take(n as int) =~= docs_s);
                }
                Json::Arr(docs)
            },
        };
        put_doc_field(&mut out, "data", data_doc);
        put_str_field(&mut out, "paginationToken", &self.pagination_token);
        proof {
            assert(jv_members(out@) =~= self.spec_doc()->Obj_0);
        }
        Json::Obj(out)
    }

    /// Decoding the canonical document gives the envelope back.
    pub proof fn lemma_roundtrip(self)
        ensures
            Self::spec_ok(self.spec_doc()),
            self.matches_doc(self.spec_doc()),
    {
        let ms = self.spec_doc()->Obj_0;
        reveal_strlit("data");
        reveal_strlit("paginationToken");
        assert("data"@.len() == 4);
        assert("paginationToken"@.len() == 15);
        crate::fields::lemma_obj_get_index(ms, 0);
        crate::fields::lemma_obj_get_index(ms, 1);
        match self.data {
            Option::Some(items) => {
                let docs = items@.map_values(|it: IResponse| it.spec_doc());
                assert forall|k: int| 0 <= k < docs.len() implies IResponse::spec_ok(#[trigger] docs[k]) by {
                    assert(docs[k] == items@[k].spec_doc());
                    items@[k].lemma_roundtrip();
                }
                assert forall|k: int| 0 <= k < items@.len() implies (#[trigger] items@[k]).matches_doc(docs[k]) by {
                    assert(docs[k] == items@[k].spec_doc());
                    items@[k].lemma_roundtrip();
                }
            },
            Option::None => {},
        }
    }

    /// The canonical document is well formed.
    pub proof fn lemma_spec_doc_wf(self)
        ensures
            wf(self.spec_doc()),
    {
        let ms = self.spec_doc()->Obj_0;
        match self.data {
            Option::Some(items) => {
                let docs = items@.map_values(|it: IResponse| it.spec_doc());
                assert forall|k: int| 0 <= k < docs.len() implies wf(#[trigger] docs[k]) by {
                    assert(docs[k] == items@[k].spec_doc());
                    items@[k].lemma_spec_doc_wf();
                }
                assert(wf(ms[0].1));
            },
            Option::None => {},
        }
        assert forall|k: int| 0 <= k < ms.len() implies wf(#[trigger] ms[k].1) by {}
    }

    /// Round trip through the wire: the rendered text of the canonical
    /// document parses back to it, and decoding it yields exactly this
    /// envelope's values.
    pub proof fn lemma_text_roundtrip(self)
        ensures
            spec_parse(ser_val(self.spec_doc())) == Some(self.spec_doc()),
            Self::spec_ok(self.spec_doc()),
            self.matches_doc(self.spec_doc()),
    {
        self.lemma_spec_doc_wf();
        crate::roundtrip::lemma_parse_render(self.spec_doc());
        self.lemma_roundtrip();
    }
}

/// Reads the optional `data` array of records.
fn decode_data(ms: &Vec<(String, Json)>) -> (r: Result<Option<Vec<IResponse>>, DecodeError>)
    requires
        forall|k: int| 0 <= k < ms@.len() ==> jwf((#[trigger] ms@[k]).1),
    ensures
        match r {
            Result::Ok(o) => match obj_get(jv_members(ms@), "data"@) {
                Option::None => o is None,
                Option::Some(JVal::Null) => o is None,
                Option::Some(JVal::Arr(elems)) => o matches Option::Some(items)
                    && items@.len() == elems.len()
                    && (forall|k: int| 0 <= k < elems.len()
                        ==> IResponse::spec_ok(#[trigger] elems[k]))
                    && (forall|k: int| 0 <= k < elems.len()
                        ==> (#[trigger] items@[k]).matches_doc(elems[k]))
                    && (forall|k: int| 0 <= k < items@.len() ==> (#[trigger] items@[k]).inv()),
                Option::Some(_) => false,
            },
            Result::Err(e) => e == DecodeError::Shape && match obj_get(jv_members(ms@), "data"@) {
                Option::None => false,
                Option::Some(JVal::Null) => false,
                Option::Some(JVal::Arr(elems)) => !(forall|k: int| 0 <= k < elems.len()
                    ==> IResponse::spec_ok(#[trigger] elems[k])),
                Option::Some(_) => true,
            },
        },
{
    let arr = match crate::decode::lookup_member(ms, "data") {
        Option::None => {
            return Result::Ok(Option::None);
        },
        Option::Some(j) => match j {
            Json::Null => {
                return Result::Ok(Option::None);
            },
            Json::Arr(elems) => elems,
            _ => {
                return Result::Err(DecodeError::Shape);
            },
        },
    };
    let ghost evs = jv_seq(arr@);
    proof {
        lemma_jv_seq(arr@);
    }
    let n: usize = arr.len();
    let mut items: Vec<IResponse> = Vec::new();
    let mut i: usize = 0;
    while i < n
        invariant
            i <= n,
            n == arr@.len(),
            obj_get(jv_members(ms@), "data"@) == Some(JVal::Arr(evs)),
            evs == jv_seq(arr@),
            evs.len() == n,
            forall|k: int| 0 <= k < n ==> evs[k] == jv(#[trigger] arr@[k]),
            forall|k: int| 0 <= k < n ==> jwf(#[trigger] arr@[k]),
            items@.len() == i,
            forall|k: int| 0 <= k < i ==> IResponse::spec_ok(#[trigger] evs[k]),
            forall|k: int| 0 <= k < i ==> (#[trigger] items@[k]).matches_doc(evs[k]),
            forall|k: int| 0 <= k < items@.len() ==> (#[trigger] items@[k]).inv(),
        decreases n - i,
    {
        match IResponse::from_json(&arr[i]) {
            Result::Ok(it) => {
                items.push(it);
            },
            Result::Err(e) => {
                proof {
                    let g = obj_get(jv_members(ms@), "data"@);
                    let gelems = g->0->Arr_0;
                    assert(gelems == evs);
                    assert(!(forall|k: int| 0 <= k < gelems.len()
                        ==> IResponse::spec_ok(#[trigger] gelems[k]))) by {
                        assert(!IResponse::spec_ok(gelems[i as int]));
                    }
                }
                return Result::Err(e);
            },
        }
        i = i + 1;
    }
    Result::Ok(Option::Some(items))
}

/// The path of this endpoint under the API root.
pub open spec fn defi_swaps_url() -> Seq<char> {
    root_url() + "/defi/swaps"@
}

/// Prepares one call: the fixed URL, the three fixed headers with the
/// caller's bearer token, and — when a request is given — the canonical
/// serialization of its sentinel-filtered fields.
pub fn defi_swaps(request: Option<&DefiSwapsRequest>, api_key: &str) -> (r: PreparedCall)
    ensures
        r.url@ == defi_swaps_url(),
        headers_model(r.headers@) == spec_headers(api_key@),
        match request {
            Option::None => r.body is None,
            Option::Some(req) => r.body matches Option::Some(b)
                && b@ == ser_val(JVal::Obj(req.spec_members())),
        },
{
    let url = hellomoon_root_url().to_owned().concat("/defi/swaps");
    prepare_call(url, api_key, request)
}

impl crate::decode::ResponseEnvelope for DefiSwapsResponse {
    open spec fn env_ok(v: JVal) -> bool {
        DefiSwapsResponse::spec_ok(v)
    }

    open spec fn env_matches(self, v: JVal) -> bool {
        self.matches_doc(v)
    }

    fn env_from_json(doc: &Json) -> Result<Self, DecodeError> {
        DefiSwapsResponse::from_json(doc)
    }

    proof fn lemma_empty_envelope() {
        let ms = crate::decode::empty_envelope()->Obj_0;
        reveal_strlit("data");
        reveal_strlit("paginationToken");
        assert("data"@.len() == 4);
        assert("paginationToken"@.len() == 15);
        crate::fields::lemma_obj_get_index(ms, 0);
        crate::fields::lemma_obj_get_index(ms, 1);
    }
}

/// Decodes one response body: `Syntax` when the body is not valid JSON,
/// `Shape` when it does not fit the envelope, the typed response
/// otherwise.
pub fn defi_swaps_decode(body: &str) -> (r: Result<DefiSwapsResponse, DecodeError>)
    ensures
        match spec_parse(body@) {
            Option::None => r == Result::<DefiSwapsResponse, DecodeError>::Err(DecodeError::Syntax),
            Option::Some(v) => match r {
                Result::Ok(resp) => DefiSwapsResponse::spec_ok(v) && resp.matches_doc(v),
                Result::Err(e) => e == DecodeError::Shape && !DefiSwapsResponse::spec_ok(v),
            },
        },
{
    crate::decode::decode_body::<DefiSwapsResponse>(body)
}

} // verus!
