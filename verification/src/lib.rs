//! Credit escrow and the gated crossing from credits to fiat spend.

pub mod fiat;
mod keys;
pub mod ledger;
pub mod text;
