//! A marketplace of NFT series on NEAR: categories, administrators, token
//! series, minting, a resale market, reviews and the views over them.
//!
//! The contract's state and its rules live here as plain values; the
//! blockchain environment (signer, deposits, storage, the NFT ledger of the
//! token standard, transfers) stays with the caller, which hands the library
//! what it read and performs what the library decides.

pub mod text;
pub mod account;
pub mod types;
pub mod strmap;
pub mod error;
pub mod contract;
pub mod series;
pub mod mint;
pub mod market;
pub mod activity;
pub mod views;
pub mod catalog;
pub mod payment;
pub mod laws;

pub use contract::Contract;
pub use error::ContractError;
pub use types::{
    CategoriesObjet, CategoriesJson, MarketJson, MarketView, TransactionJson, OperationHistory, TokenSeries,
    Review, TokenSeriesJson, TokenMetadata, NFTContractMetadata, Token, Profile, ProfileJson,
};
