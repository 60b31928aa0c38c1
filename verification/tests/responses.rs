//! Response decoding: the shared envelope, absent and null fields, shape
//! errors, syntax errors, and the serialize-then-deserialize round trip.

use hellomoon::decode::{DecodeError, NumVal};
use hellomoon::defi::defi_swaps::defi_swaps_decode;
use hellomoon::defi::lending;
use hellomoon::defi::lp_balances::lp_balance_decode;
use hellomoon::defi::lp_withdrawal_deposit::lp_withdrawal_deposit_decode;
use hellomoon::nft::collection_candlesticks::{
    collection_candlesticks_decode, CollectionCandlesticks, CollectionCandlesticksResponse,
};
use hellomoon::nft::collection_name_mapping::collection_name_mapping_decode;
use hellomoon::nft::metaplex_metadata as meta;
use hellomoon::nft::metaplex_metadata::metaplex_metadata_decode;
use hellomoon::nft::mints_by_owner as mbo;
use hellomoon::nft::mints_by_owner::mints_by_owners_decode;
use hellomoon::parse_exec::parse;
use hellomoon::render::render;

#[test]
fn null_data_and_null_token_decode_to_an_empty_response() {
    let resp = collection_candlesticks_decode("{\"data\": null, \"paginationToken\": null}").unwrap();
    assert!(resp.data.is_none());
    assert!(resp.pagination_token.is_none());
}

#[test]
fn missing_optional_fields_decode_as_absent() {
    let resp = collection_candlesticks_decode("{}").unwrap();
    assert!(resp.data.is_none());
    assert!(resp.pagination_token.is_none());

    let resp = collection_candlesticks_decode("{\"data\": [{}]}").unwrap();
    let items = resp.data.unwrap();
    assert_eq!(items.len(), 1);
    assert!(items[0].hello_moon_collection_id.is_none());
    assert!(items[0].lastblockid.is_none());
}

#[test]
fn invalid_json_is_a_syntax_error_never_a_success() {
    for bad in ["", "not json", "{\"data\": [}", "{\"data\": 01}", "<html>"] {
        assert_eq!(collection_candlesticks_decode(bad), Err(DecodeError::Syntax));
        assert_eq!(lending::example_decode(bad), Err(DecodeError::Syntax));
        assert_eq!(defi_swaps_decode(bad), Err(DecodeError::Syntax));
    }
}

#[test]
fn wrong_shapes_are_shape_errors() {
    assert_eq!(collection_candlesticks_decode("[]"), Err(DecodeError::Shape));
    assert_eq!(collection_candlesticks_decode("\"text\""), Err(DecodeError::Shape));
    assert_eq!(collection_candlesticks_decode("{\"data\": 5}"), Err(DecodeError::Shape));
    assert_eq!(
        collection_candlesticks_decode("{\"paginationToken\": 7}"),
        Err(DecodeError::Shape)
    );
    assert_eq!(
        collection_candlesticks_decode("{\"data\": [{\"lastblockid\": \"txt\"}]}"),
        Err(DecodeError::Shape)
    );
}

#[test]
fn unknown_members_are_ignored() {
    let resp = collection_candlesticks_decode(
        "{\"data\": null, \"paginationToken\": \"t\", \"somethingElse\": [1, 2]}",
    )
    .unwrap();
    assert_eq!(resp.pagination_token.as_deref(), Some("t"));
}

#[test]
fn a_full_record_decodes_field_by_field() {
    let body = "{\"data\": [{\"helloMoonCollectionId\": \"040de757c0d2b75dcee999ddd47689c4\",\"granularity\": \"ONE_DAY\",\"lastblockid\": 170898324,\"startTime\": 1673831466,\"high\": \"19.5\",\"low\": \"11\",\"open\": \"12.3\",\"close\": \"18\",\"volume\": \"140\"}], \"paginationToken\": \"next-page\"}";
    let resp = collection_candlesticks_decode(body).unwrap();
    let items = resp.data.unwrap();
    assert_eq!(items.len(), 1);
    let it = &items[0];
    assert_eq!(it.hello_moon_collection_id.as_deref(), Some("040de757c0d2b75dcee999ddd47689c4"));
    assert_eq!(it.granularity.as_deref(), Some("ONE_DAY"));
    assert_eq!(it.lastblockid, Some(170898324));
    assert_eq!(it.start_time, Some(1673831466));
    assert_eq!(it.high.as_deref(), Some("19.5"));
    assert_eq!(it.low.as_deref(), Some("11"));
    assert_eq!(it.open_price.as_deref(), Some("12.3"));
    assert_eq!(it.close_price.as_deref(), Some("18"));
    assert_eq!(it.volume.as_deref(), Some("140"));
    assert_eq!(resp.pagination_token.as_deref(), Some("next-page"));
}

#[test]
fn serializing_then_deserializing_a_response_gives_it_back() {
    let left = CollectionCandlesticksResponse {
        data: Some(vec![
            CollectionCandlesticks {
                hello_moon_collection_id: Some("id-1".to_string()),
                granularity: Some("ONE_MIN".to_string()),
                lastblockid: Some(5),
                start_time: None,
                high: Some("9.9".to_string()),
                low: None,
                open_price: Some("1".to_string()),
                close_price: None,
                volume: Some("3".to_string()),
            },
            CollectionCandlesticks {
                hello_moon_collection_id: None,
                granularity: None,
                lastblockid: None,
                start_time: Some(7),
                high: None,
                low: None,
                open_price: None,
                close_price: None,
                volume: None,
            },
        ]),
        pagination_token: Some("tok".to_string()),
    };
    let text = render(&left.to_json());
    let right = collection_candlesticks_decode(&text).unwrap();
    assert_eq!(left, right);
}

#[test]
fn an_empty_response_round_trips_too() {
    let left = CollectionCandlesticksResponse { data: None, pagination_token: None };
    let text = render(&left.to_json());
    assert_eq!(text, "{\"data\":null,\"paginationToken\":null}");
    let right = collection_candlesticks_decode(&text).unwrap();
    assert_eq!(left, right);
}

#[test]
fn decimal_fields_keep_their_wire_text() {
    let body = "{\"data\": [{\"poolAddress\": \"pp\",\"balanceTokenA\": 1.25,\"balanceTokenB\": 3}]}";
    let resp = lp_balance_decode(body).unwrap();
    let items = resp.data.unwrap();
    assert_eq!(items[0].pool_address.as_deref(), Some("pp"));
    assert_eq!(items[0].balance_token_a, Some(NumVal::Text("1.25".to_string())));
    assert_eq!(items[0].balance_token_b, Some(NumVal::UInt(3)));
}

#[test]
fn signed_counts_decode_with_their_sign() {
    let body = "{\"data\": [{\"subInstructionPosition\": -1, \"instructionPosition\": 2}]}";
    let resp = lending::example_decode(body).unwrap();
    let items = resp.data.unwrap();
    assert_eq!(items[0].sub_instruction_position, Some(-1));
    assert_eq!(items[0].instruction_position, Some(2));
}

#[test]
fn required_fields_must_be_present() {
    // this endpoint's records have no optional fields: an empty record is
    // a shape error
    assert_eq!(
        lp_withdrawal_deposit_decode("{\"data\": [{}]}"),
        Err(DecodeError::Shape)
    );
    let body = "{\"data\": [{\"actionType\": \"addLiquidity\",\"amountTokenA\": 10,\"amountTokenB\": 20,\"instructionId\": \"i\",\"instructionName\": \"n\",\"instructionOrdinal\": 0,\"instructionposition\": 1,\"programId\": \"p\",\"subinstructionposition\": -2,\"tokenMintA\": \"a\",\"tokenMintB\": \"b\",\"transactionId\": \"t\",\"userAccount\": \"u\"}]}";
    let resp = lp_withdrawal_deposit_decode(body).unwrap();
    let items = resp.data.unwrap();
    assert_eq!(items[0].action_type, "addLiquidity");
    assert_eq!(items[0].amount_token_a, 10);
    assert_eq!(items[0].sub_instruction_position, -2);
}

#[test]
fn empty_record_endpoints_accept_any_record_object() {
    let resp = defi_swaps_decode("{\"data\": [{\"whatever\": 1}, {}], \"paginationToken\": null}").unwrap();
    assert_eq!(resp.data.unwrap().len(), 2);
    assert_eq!(defi_swaps_decode("{\"data\": [3]}"), Err(DecodeError::Shape));
}

#[test]
fn name_mapping_decodes() {
    let body = "{\"data\": [{\"collectionName\": \"Famous Collection\",\"helloMoonCollectionId\": \"040de757c0d2b75dcee999ddd47689c4\",\"currentVolumeSOL\": \"123456\"}],\"paginationToken\": \"p2\"}";
    let resp = collection_name_mapping_decode(body).unwrap();
    let items = resp.data.unwrap();
    assert_eq!(items[0].collection_name.as_deref(), Some("Famous Collection"));
    assert_eq!(items[0].current_volume_sol.as_deref(), Some("123456"));
    assert_eq!(resp.pagination_token.as_deref(), Some("p2"));
}

#[test]
fn untyped_decoding_yields_the_raw_document() {
    // the untyped mode of the executor: parse without a declared shape
    let doc = parse("{\"data\": null, \"paginationToken\": \"x\"}").unwrap();
    match doc {
        hellomoon::json::Json::Obj(members) => {
            assert_eq!(members.len(), 2);
            assert_eq!(members[0].0, "data");
            assert_eq!(members[1].0, "paginationToken");
        },
        _ => panic!("expected an object"),
    }
}

#[test]
fn independent_decodes_do_not_interfere() {
    // the executor holds no state: equal inputs give equal results, in
    // any order and any number of times
    let body = "{\"data\": null, \"paginationToken\": \"t\"}";
    let first = collection_candlesticks_decode(body).unwrap();
    let _other = lp_balance_decode("{\"data\": [{}]}").unwrap();
    let second = collection_candlesticks_decode(body).unwrap();
    assert_eq!(first, second);
}

#[test]
fn nested_metadata_decodes() {
    let body = "{\"data\": [{\"nftMint\": \"m1\", \"nftMetadataAdress\": \"a1\", \"nftMetadataJson\": {\"name\": \"N\", \"symbol\": \"S\", \"uri\": \"u://x\", \"sellerFeeBasisPoints\": 550, \"creators\": [{\"address\": \"c1\", \"verified\": true, \"share\": 100}]}, \"nftCollectionMint\": null, \"nftVerifiedCreatorsArray\": [\"c1\", \"c2\"]}], \"paginationToken\": \"p\"}";
    let resp = metaplex_metadata_decode(body).unwrap();
    let data = resp.data.unwrap();
    assert_eq!(data.len(), 1);
    let it = &data[0];
    assert_eq!(it.nft_mint, "m1");
    assert_eq!(it.nft_metadata_json.name, "N");
    assert_eq!(it.nft_metadata_json.seller_fee_basis_points, 550);
    let creators = it.nft_metadata_json.creators.as_ref().unwrap();
    assert_eq!(creators[0].address, "c1");
    assert!(creators[0].verified);
    assert_eq!(creators[0].share, 100);
    assert_eq!(
        it.nft_verified_creators_array.as_ref().unwrap(),
        &vec!["c1".to_string(), "c2".to_string()]
    );
    assert_eq!(resp.pagination_token.as_deref(), Some("p"));
}

#[test]
fn metaplex_shares_the_common_envelope() {
    // the envelope is the same for every endpoint: a null/null body is an
    // empty success, though the record itself has required fields
    let resp = metaplex_metadata_decode("{\"data\": null, \"paginationToken\": null}").unwrap();
    assert!(resp.data.is_none());
    assert!(resp.pagination_token.is_none());
    let resp = metaplex_metadata_decode("{}").unwrap();
    assert!(resp.data.is_none());
    // a record missing its required fields is still a shape error
    assert_eq!(metaplex_metadata_decode("{\"data\": [{}]}"), Err(DecodeError::Shape));
}

#[test]
fn mints_by_owner_decodes_with_optional_nesting() {
    let body = "{\"data\": [{\"nftMint\": \"m\", \"metadataJson\": {\"name\": \"X\", \"collection\": {\"verified\": false, \"key\": \"kk\"}}, \"verifiedCreators\": [\"v1\"]}], \"paginationToken\": null}";
    let resp = mints_by_owners_decode(body).unwrap();
    let items = resp.data.unwrap();
    let meta = items[0].metadata_json.as_ref().unwrap();
    assert_eq!(meta.name.as_deref(), Some("X"));
    assert!(meta.creators.is_none());
    let col = meta.collection.as_ref().unwrap();
    assert_eq!(col.verified, Some(false));
    assert_eq!(col.key.as_deref(), Some("kk"));
    assert_eq!(items[0].verified_creators.as_ref().unwrap(), &vec!["v1".to_string()]);
    // a bad nested creator is a shape error
    let bad = "{\"data\": [{\"metadataJson\": {\"creators\": [{\"share\": \"not a count\"}]}}]}";
    assert_eq!(mints_by_owners_decode(bad), Err(DecodeError::Shape));
}

#[test]
fn nested_responses_round_trip() {
    let left = meta::MetaplexMetadataResponse {
        data: Some(vec![meta::MetaplexMetadata {
            nft_mint: "m".to_string(),
            nft_metadata_adress: "a".to_string(),
            nft_metadata_json: meta::NftMetadataJson {
                name: "N".to_string(),
                symbol: "S".to_string(),
                uri: "u".to_string(),
                seller_fee_basis_points: 550,
                creators: Some(vec![meta::Creator {
                    address: "c".to_string(),
                    verified: true,
                    share: 100,
                }]),
            },
            nft_collection_mint: None,
            nft_verified_creators_array: Some(vec!["c".to_string()]),
        }]),
        pagination_token: Some("p".to_string()),
    };
    let text = render(&left.to_json());
    let right = metaplex_metadata_decode(&text).unwrap();
    assert_eq!(left, right);

    let left = mbo::MintsByOwnerResponse {
        data: Some(vec![mbo::MintsByOwner {
            nft_mint: Some("m".to_string()),
            token_account: None,
            owner_account: Some("o".to_string()),
            metadata_address: None,
            metadata_json: Some(mbo::MetadataJson {
                name: Some("X".to_string()),
                symbol: None,
                uri: None,
                seller_fee_basis_points: Some(1),
                creators: Some(vec![mbo::Creator {
                    address: Some("c".to_string()),
                    verified: Some(false),
                    share: None,
                }]),
                collection: Some(mbo::Collection { verified: Some(true), key: None }),
            }),
            nft_collection_mint: None,
            verified_creators: Some(vec!["v1".to_string(), "v2".to_string()]),
            hello_moon_collection_id: None,
        }]),
        pagination_token: None,
    };
    let text = render(&left.to_json());
    let right = mints_by_owners_decode(&text).unwrap();
    assert_eq!(left, right);
}

#[test]
fn the_generic_decoder_serves_every_envelope() {
    // one decoder, many envelope types: the same empty body reads as an
    // empty success everywhere
    let body = "{\"data\": null, \"paginationToken\": null}";
    let r: Result<CollectionCandlesticksResponse, DecodeError> = hellomoon::decode::decode_body(body);
    assert!(r.unwrap().data.is_none());
    let r: Result<meta::MetaplexMetadataResponse, DecodeError> = hellomoon::decode::decode_body(body);
    assert!(r.unwrap().data.is_none());
    let r: Result<mbo::MintsByOwnerResponse, DecodeError> = hellomoon::decode::decode_body(body);
    assert!(r.unwrap().data.is_none());
    let r: Result<lending::Response, DecodeError> = hellomoon::decode::decode_body("not json");
    assert_eq!(r, Err(DecodeError::Syntax));
}
