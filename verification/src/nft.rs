//! NFT endpoints: collection data, mints, metadata, listings and sales.

pub mod collection_candlesticks;
pub mod collection_mint_mapping;
pub mod collection_name_mapping;
pub mod metaplex_metadata;
pub mod mints_by_owner;
pub mod nft_listings;
pub mod secondary_sales;
