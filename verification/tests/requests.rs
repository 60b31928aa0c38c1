//! Request serialization: sentinel fields are omitted, everything else is
//! written under its wire name, and prepared calls carry the fixed URL,
//! the three fixed headers and the canonical body.

use hellomoon::defi::defi_swaps::{
    defi_swaps, AggregatorName, BlockTimeType, DefiSwapsRequest, Operator, SourceAmount,
};
use hellomoon::defi::lending;
use hellomoon::defi::lp_balances::LpBalanceRequest;
use hellomoon::nft::collection_candlesticks::{
    collection_candlesticks, CollectionCandlesticksRequest, Granularity,
};
use hellomoon::nft::nft_listings::{nft_listings, Market, NftListingsRequest};
use hellomoon::render::render;

#[test]
fn default_request_serializes_to_empty_object() {
    let request = CollectionCandlesticksRequest::default();
    assert_eq!(render(&request.to_json()), "{}");
    let request = DefiSwapsRequest::default();
    assert_eq!(render(&request.to_json()), "{}");
    let request = lending::Request::default();
    assert_eq!(render(&request.to_json()), "{}");
}

#[test]
fn sentinel_fields_are_absent_and_set_fields_present() {
    let mut request = CollectionCandlesticksRequest::default();
    request.hello_moon_collection_id = "040de757c0d2b75dcee999ddd47689c4".to_string();
    request.limit = 1;
    // start_time, granularity, page and pagination_token stay sentinel
    assert_eq!(
        render(&request.to_json()),
        "{\"helloMoonCollectionId\":\"040de757c0d2b75dcee999ddd47689c4\",\"limit\":1}"
    );
}

#[test]
fn a_zero_count_cannot_be_transmitted() {
    // zero is the sentinel: setting limit to zero is the same as not
    // setting it at all
    let mut with_zero = CollectionCandlesticksRequest::default();
    with_zero.limit = 0;
    let unset = CollectionCandlesticksRequest::default();
    assert_eq!(render(&with_zero.to_json()), render(&unset.to_json()));
}

#[test]
fn enum_fields_serialize_to_their_wire_names() {
    let mut request = CollectionCandlesticksRequest::default();
    request.granularity = Some(Granularity::OneWeek);
    assert_eq!(render(&request.to_json()), "{\"granularity\":\"ONE_WEEK\"}");

    let mut request = NftListingsRequest::default();
    request.market = Some(Market::Smb);
    request.block_id = Some(17);
    assert_eq!(render(&request.to_json()), "{\"blockId\":17,\"market\":\"SMB\"}");
}

#[test]
fn tagged_enum_fields_serialize_to_variant_objects() {
    let mut request = DefiSwapsRequest::default();
    request.aggregator_name = Some(AggregatorName::JupiterV4);
    request.source_amount = Some(SourceAmount::Option1 {
        operator: ">".to_string(),
        value: 1000000,
    });
    request.block_time = Some(BlockTimeType::Comparator {
        value: 1673831466,
        operator: Operator::Less,
    });
    assert_eq!(
        render(&request.to_json()),
        "{\"aggregatorName\":\"Jupiter v4\",\"sourceAmount\":{\"Option1\":{\"operator\":\">\",\"value\":1000000}},\"blockTime\":{\"Comparator\":{\"value\":1673831466,\"operator\":\"Less\"}}}"
    );

    let mut request = DefiSwapsRequest::default();
    request.source_amount = Some(SourceAmount::Option2(42));
    assert_eq!(render(&request.to_json()), "{\"sourceAmount\":{\"Option2\":42}}");
}

#[test]
fn fields_keep_declaration_order() {
    let mut request = LpBalanceRequest::default();
    request.pool_address = "p1".to_string();
    request.mint_token_b = "b".to_string();
    request.mint_token_a = "a".to_string();
    request.page = 2;
    assert_eq!(
        render(&request.to_json()),
        "{\"poolAddress\":\"p1\",\"mintTokenA\":\"a\",\"mintTokenB\":\"b\",\"page\":2}"
    );
}

#[test]
fn prepared_call_without_request_has_no_body() {
    let call = collection_candlesticks("demo-key", None);
    assert_eq!(call.url, "https://rest-api.hellomoon.io/v0/collection/listing/candlesticks");
    assert!(call.body.is_none());
    assert_eq!(call.headers.len(), 3);
    assert_eq!(call.headers[0].0, "accept");
    assert_eq!(call.headers[0].1, "application/json");
    assert_eq!(call.headers[1].0, "authorization");
    assert_eq!(call.headers[1].1, "Bearer demo-key");
    assert_eq!(call.headers[2].0, "content-type");
    assert_eq!(call.headers[2].1, "application/json");
}

#[test]
fn prepared_call_body_is_the_canonical_serialization() {
    let mut request = CollectionCandlesticksRequest::default();
    request.hello_moon_collection_id = "040de757c0d2b75dcee999ddd47689c4".to_string();
    request.limit = 1;
    let expected = render(&request.to_json());
    let call = collection_candlesticks("k", Some(&request));
    assert_eq!(call.body.as_deref(), Some(expected.as_str()));
}

#[test]
fn endpoint_urls_follow_the_root() {
    let request = DefiSwapsRequest::default();
    let call = defi_swaps(Some(&request), "k");
    assert_eq!(call.url, "https://rest-api.hellomoon.io/v0/defi/swaps");
    let call = nft_listings("k", None);
    assert_eq!(call.url, "https://rest-api.hellomoon.io/v0/nft/listings");
}

#[test]
fn serialized_request_is_read_back_by_outside_parser() {
    // the body our renderer writes is exactly what an outside JSON reader
    // sees, field for field
    let mut request = lending::Request::default();
    request.program_id = "prog".to_string();
    request.action_type = Some(lending::ActionType::Repay);
    request.user_account = "acct".to_string();
    request.limit = 10;
    let body = render(&request.to_json());
    let v: serde_json::Value = serde_json::from_str(&body).unwrap();
    assert_eq!(v["programId"], serde_json::Value::from("prog"));
    assert_eq!(v["actionType"], serde_json::Value::from("repay"));
    assert_eq!(v["userAccount"], serde_json::Value::from("acct"));
    assert_eq!(v["limit"], serde_json::Value::from(10u64));
    assert!(v.get("mint").is_none());
    assert!(v.get("paginationToken").is_none());
    assert_eq!(v.as_object().unwrap().len(), 4);
}

#[test]
fn sentinel_helpers_answer_exactly_at_zero() {
    assert!(hellomoon::limit_is_zero(&0));
    assert!(!hellomoon::limit_is_zero(&1));
    assert!(hellomoon::page_is_zero(&0));
    assert!(!hellomoon::page_is_zero(&7));
    assert!(hellomoon::is_zero(&0));
    assert!(!hellomoon::is_zero(&usize::MAX));
}
