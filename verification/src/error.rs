//! Why the contract refuses a request.

use vstd::prelude::*;

verus! {

#[derive(Clone, Copy, Debug, PartialEq, Eq, Structural)]
pub enum ContractError {
    /// The contract metadata does not follow NEP-177.
    InvalidMetadata,
    /// The signer is not an administrator.
    NotAdministrator,
    /// The account is an administrator already.
    AlreadyAdministrator,
    /// The account is not an administrator.
    NotInAdministrators,
    /// No category has this id.
    CategoryNotFound,
    /// A series with the new id exists already.
    DuplicateSeries,
    /// The series metadata has no title.
    TitleRequired,
    /// A royalty goes to an invalid account id.
    InvalidRoyaltyAccount,
    /// The royalties add up past the range of `u32`.
    RoyaltyOverflow,
    /// More than 10 accounts receive royalties.
    TooManyRoyaltyAccounts,
    /// The royalties add up to more than 9000.
    RoyaltyTooHigh,
    /// The price is not below the maximum price.
    PriceTooHigh,
    /// No series has this id.
    SeriesNotFound,
    /// The caller is not the creator of the series.
    NotCreator,
    /// The series can no longer be minted.
    NotMintable,
    /// All copies of the series are minted.
    SupplyMaxed,
    /// The call requires a deposit of exactly one yoctoNEAR.
    NotOneYocto,
    /// The id has more than one ':'.
    InvalidTokenId,
    /// No token has this id.
    TokenNotFound,
    /// The series has no price.
    NotForSale,
    /// The attached deposit is less than the price.
    InsufficientDeposit,
    /// The seller has no profile.
    ProfileNotFound,
    /// The market holds no offer under this id.
    NotInMarket,
    /// The caller does not own the token.
    NotTokenOwner,
    /// The start index is not below the number of items.
    OutOfBounds,
    /// The limit is zero.
    ZeroLimit,
    /// A profile lacks one of its fields.
    ProfileIncomplete,
    /// The token has no metadata.
    TokenMetadataMissing,
    /// The attached deposit does not cover the storage.
    StorageNotCovered,
    /// A count or an amount passes the range of its type.
    ArithmeticOverflow,
}

/// A short text that describes `e`.
pub open spec fn error_message(e: ContractError) -> Seq<char> {
    match e {
        ContractError::InvalidMetadata => "Invalid contract metadata"@,
        ContractError::NotAdministrator => "Only administrators can set categories"@,
        ContractError::AlreadyAdministrator => "the user is already in the list of administrators"@,
        ContractError::NotInAdministrators => "the user is not in the list of administrators"@,
        ContractError::CategoryNotFound => "Category does not exist"@,
        ContractError::DuplicateSeries => "duplicate token_series_id"@,
        ContractError::TitleRequired => "token_metadata.title is required"@,
        ContractError::InvalidRoyaltyAccount => "Not valid account_id for royalty"@,
        ContractError::RoyaltyOverflow => "attempt to add with overflow"@,
        ContractError::TooManyRoyaltyAccounts => "royalty exceeds 10 accounts"@,
        ContractError::RoyaltyTooHigh => "Exceeds maximum royalty -> 9000"@,
        ContractError::PriceTooHigh => "price higher than MAX_PRICE"@,
        ContractError::SeriesNotFound => "Token series not exist"@,
        ContractError::NotCreator => "not creator"@,
        ContractError::NotMintable => "Token series is not mintable"@,
        ContractError::SupplyMaxed => "Series supply maxed"@,
        ContractError::NotOneYocto => "Requires attached deposit of exactly 1 yoctoNEAR"@,
        ContractError::InvalidTokenId => "token_series_id invalid"@,
        ContractError::TokenNotFound => "Token not exist"@,
        ContractError::NotForSale => "not for sale"@,
        ContractError::InsufficientDeposit => "attached deposit is less than price"@,
        ContractError::ProfileNotFound => "Profile does not exist"@,
        ContractError::NotInMarket => "Token not for sale"@,
        ContractError::NotTokenOwner => "You must own a token from this series to be able to leave a review"@,
        ContractError::OutOfBounds => "Out of bounds, please use a smaller from_index."@,
        ContractError::ZeroLimit => "Cannot provide limit of 0."@,
        ContractError::ProfileIncomplete => "called `Option::unwrap()` on a `None` value"@,
        ContractError::TokenMetadataMissing => "called `Option::unwrap()` on a `None` value"@,
        ContractError::StorageNotCovered => "Must attach enough yoctoNEAR to cover storage"@,
        ContractError::ArithmeticOverflow => "arithmetic overflow"@,
    }
}

impl ContractError {
    /// A short text that describes the error.
    pub fn message(&self) -> (m: &'static str)
        ensures
            m@ == error_message(*self),
    {
        match self {
            ContractError::InvalidMetadata => "Invalid contract metadata",
            ContractError::NotAdministrator => "Only administrators can set categories",
            ContractError::AlreadyAdministrator => "the user is already in the list of administrators",
            ContractError::NotInAdministrators => "the user is not in the list of administrators",
            ContractError::CategoryNotFound => "Category does not exist",
            ContractError::DuplicateSeries => "duplicate token_series_id",
            ContractError::TitleRequired => "token_metadata.title is required",
            ContractError::InvalidRoyaltyAccount => "Not valid account_id for royalty",
            ContractError::RoyaltyOverflow => "attempt to add with overflow",
            ContractError::TooManyRoyaltyAccounts => "royalty exceeds 10 accounts",
            ContractError::RoyaltyTooHigh => "Exceeds maximum royalty -> 9000",
            ContractError::PriceTooHigh => "price higher than MAX_PRICE",
            ContractError::SeriesNotFound => "Token series not exist",
            ContractError::NotCreator => "not creator",
            ContractError::NotMintable => "Token series is not mintable",
            ContractError::SupplyMaxed => "Series supply maxed",
            ContractError::NotOneYocto => "Requires attached deposit of exactly 1 yoctoNEAR",
            ContractError::InvalidTokenId => "token_series_id invalid",
            ContractError::TokenNotFound => "Token not exist",
            ContractError::NotForSale => "not for sale",
            ContractError::InsufficientDeposit => "attached deposit is less than price",
            ContractError::ProfileNotFound => "Profile does not exist",
            ContractError::NotInMarket => "Token not for sale",
            ContractError::NotTokenOwner => "You must own a token from this series to be able to leave a review",
            ContractError::OutOfBounds => "Out of bounds, please use a smaller from_index.",
            ContractError::ZeroLimit => "Cannot provide limit of 0.",
            ContractError::ProfileIncomplete => "called `Option::unwrap()` on a `None` value",
            ContractError::TokenMetadataMissing => "called `Option::unwrap()` on a `None` value",
            ContractError::StorageNotCovered => "Must attach enough yoctoNEAR to cover storage",
            ContractError::ArithmeticOverflow => "arithmetic overflow",
        }
    }
}

} // verus!
