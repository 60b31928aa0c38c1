//! DeFi endpoints: lending, swaps and liquidity pools.

pub mod defi_lending;
pub mod defi_swaps;
pub mod lending;
pub mod lp_balances;
pub mod lp_emissions;
pub mod lp_metadata;
pub mod lp_withdrawal_deposit;
