//! The stablecoin engine: ledger, collateral, price stabilisation,
//! multi-signature authorisation and voting.

pub mod collateralization;
pub mod decimal;
pub mod events;
pub mod governance;
pub mod multi_sig_wallet;
pub mod pi_coin;
pub mod smart_contract;
pub mod utils;
