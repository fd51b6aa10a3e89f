//! The values that the contract stores and hands out, each with its model:
//! the same record with every string as its characters and every vector as
//! a sequence.

use vstd::prelude::*;

verus! {

/// Copying a value so that the copy has the same model.
pub trait Duplicate: DeepView + Sized {
    fn duplicate(&self) -> (r: Self)
        ensures
            r.deep_view() == self.deep_view(),
    ;
}

impl Duplicate for String {
    fn duplicate(&self) -> (r: Self) {
        self.clone()
    }
}

impl Duplicate for u32 {
    fn duplicate(&self) -> (r: Self) {
        *self
    }
}

impl Duplicate for u64 {
    fn duplicate(&self) -> (r: Self) {
        *self
    }
}

impl Duplicate for u8 {
    fn duplicate(&self) -> (r: Self) {
        *self
    }
}

impl Duplicate for i128 {
    fn duplicate(&self) -> (r: Self) {
        *self
    }
}

impl<T: Duplicate> Duplicate for Option<T> {
    fn duplicate(&self) -> (r: Self) {
        match self {
            Some(x) => Some(x.duplicate()),
            None => None,
        }
    }
}

impl<A: Duplicate, B: Duplicate> Duplicate for (A, B) {
    fn duplicate(&self) -> (r: Self) {
        (self.0.duplicate(), self.1.duplicate())
    }
}

impl<T: Duplicate> Duplicate for Vec<T> {
    fn duplicate(&self) -> (r: Self) {
        let mut r: Vec<T> = Vec::new();
        let mut i: usize = 0;
        while i < self.len()
            invariant
                i <= self.len(),
                r.len() == i,
                forall|j: int| 0 <= j < i ==> #[trigger] r@[j].deep_view() == self@[j].deep_view(),
            decreases self.len() - i,
        {
            r.push(self[i].duplicate());
            i = i + 1;
        }
        assert(r.deep_view() =~= self.deep_view());
        r
    }
}

/// A category as a series records it.
#[derive(Clone, Debug)]
pub struct CategoriesObjet {
    pub name: String,
    pub img: String,
}

pub struct CategoriesObjetModel {
    pub name: Seq<char>,
    pub img: Seq<char>,
}

impl DeepView for CategoriesObjet {
    type V = CategoriesObjetModel;

    open spec fn deep_view(&self) -> CategoriesObjetModel {
        CategoriesObjetModel { name: self.name@, img: self.img@ }
    }
}

impl Duplicate for CategoriesObjet {
    fn duplicate(&self) -> (r: Self) {
        CategoriesObjet { name: self.name.clone(), img: self.img.clone() }
    }
}

/// A category with its id, as the contract lists them.
#[derive(Clone, Debug)]
pub struct CategoriesJson {
    pub id: i128,
    pub name: String,
    pub img: String,
}

pub struct CategoriesJsonModel {
    pub id: i128,
    pub name: Seq<char>,
    pub img: Seq<char>,
}

impl DeepView for CategoriesJson {
    type V = CategoriesJsonModel;

    open spec fn deep_view(&self) -> CategoriesJsonModel {
        CategoriesJsonModel { id: self.id, name: self.name@, img: self.img@ }
    }
}

impl Duplicate for CategoriesJson {
    fn duplicate(&self) -> (r: Self) {
        CategoriesJson { id: self.id, name: self.name.clone(), img: self.img.clone() }
    }
}

/// The metadata of one token (NEP-177), hashes as raw bytes.
#[derive(Clone, Debug)]
pub struct TokenMetadata {
    pub title: Option<String>,
    pub description: Option<String>,
    pub media: Option<String>,
    pub media_hash: Option<Vec<u8>>,
    pub copies: Option<u64>,
    pub issued_at: Option<String>,
    pub expires_at: Option<String>,
    pub starts_at: Option<String>,
    pub updated_at: Option<String>,
    pub extra: Option<String>,
    pub reference: Option<String>,
    pub reference_hash: Option<Vec<u8>>,
}

pub struct TokenMetadataModel {
    pub title: Option<Seq<char>>,
    pub description: Option<Seq<char>>,
    pub media: Option<Seq<char>>,
    pub media_hash: Option<Seq<u8>>,
    pub copies: Option<u64>,
    pub issued_at: Option<Seq<char>>,
    pub expires_at: Option<Seq<char>>,
    pub starts_at: Option<Seq<char>>,
    pub updated_at: Option<Seq<char>>,
    pub extra: Option<Seq<char>>,
    pub reference: Option<Seq<char>>,
    pub reference_hash: Option<Seq<u8>>,
}

impl DeepView for TokenMetadata {
    type V = TokenMetadataModel;

    open spec fn deep_view(&self) -> TokenMetadataModel {
        TokenMetadataModel {
            title: self.title.deep_view(),
            description: self.description.deep_view(),
            media: self.media.deep_view(),
            media_hash: self.media_hash.deep_view(),
            copies: self.copies,
            issued_at: self.issued_at.deep_view(),
            expires_at: self.expires_at.deep_view(),
            starts_at: self.starts_at.deep_view(),
            updated_at: self.updated_at.deep_view(),
            extra: self.extra.deep_view(),
            reference: self.reference.deep_view(),
            reference_hash: self.reference_hash.deep_view(),
        }
    }
}

impl Duplicate for TokenMetadata {
    fn duplicate(&self) -> (r: Self) {
        TokenMetadata {
            title: self.title.duplicate(),
            description: self.description.duplicate(),
            media: self.media.duplicate(),
            media_hash: self.media_hash.duplicate(),
            copies: self.copies,
            issued_at: self.issued_at.duplicate(),
            expires_at: self.expires_at.duplicate(),
            starts_at: self.starts_at.duplicate(),
            updated_at: self.updated_at.duplicate(),
            extra: self.extra.duplicate(),
            reference: self.reference.duplicate(),
            reference_hash: self.reference_hash.duplicate(),
        }
    }
}

/// The metadata of the contract itself (NEP-177).
#[derive(Clone, Debug)]
pub struct NFTContractMetadata {
    pub spec: String,
    pub name: String,
    pub symbol: String,
    pub icon: Option<String>,
    pub base_uri: Option<String>,
    pub reference: Option<String>,
    pub reference_hash: Option<Vec<u8>>,
}

pub struct NFTContractMetadataModel {
    pub spec: Seq<char>,
    pub name: Seq<char>,
    pub symbol: Seq<char>,
    pub icon: Option<Seq<char>>,
    pub base_uri: Option<Seq<char>>,
    pub reference: Option<Seq<char>>,
    pub reference_hash: Option<Seq<u8>>,
}

impl DeepView for NFTContractMetadata {
    type V = NFTContractMetadataModel;

    open spec fn deep_view(&self) -> NFTContractMetadataModel {
        NFTContractMetadataModel {
            spec: self.spec@,
            name: self.name@,
            symbol: self.symbol@,
            icon: self.icon.deep_view(),
            base_uri: self.base_uri.deep_view(),
            reference: self.reference.deep_view(),
            reference_hash: self.reference_hash.deep_view(),
        }
    }
}

impl Duplicate for NFTContractMetadata {
    fn duplicate(&self) -> (r: Self) {
        NFTContractMetadata {
            spec: self.spec.clone(),
            name: self.name.clone(),
            symbol: self.symbol.clone(),
            icon: self.icon.duplicate(),
            base_uri: self.base_uri.duplicate(),
            reference: self.reference.duplicate(),
            reference_hash: self.reference_hash.duplicate(),
        }
    }
}

/// A review that the owner of a token leaves on its series.
#[derive(Clone, Debug)]
pub struct Review {
    pub user_id: String,
    pub review: String,
    pub critics: i8,
}

pub struct ReviewModel {
    pub user_id: Seq<char>,
    pub review: Seq<char>,
    pub critics: i8,
}

impl DeepView for Review {
    type V = ReviewModel;

    open spec fn deep_view(&self) -> ReviewModel {
        ReviewModel { user_id: self.user_id@, review: self.review@, critics: self.critics }
    }
}

impl Duplicate for Review {
    fn duplicate(&self) -> (r: Self) {
        Review { user_id: self.user_id.clone(), review: self.review.clone(), critics: self.critics }
    }
}

/// The profile of an account, with the number of its sales.
#[derive(Clone, Debug)]
pub struct Profile {
    pub name: Option<String>,
    pub last_name: Option<String>,
    pub pen_name: Option<String>,
    pub bio: Option<String>,
    pub website: Option<String>,
    pub twitter: Option<String>,
    pub avatar: Option<String>,
    pub sales: u64,
}

pub struct ProfileModel {
    pub name: Option<Seq<char>>,
    pub last_name: Option<Seq<char>>,
    pub pen_name: Option<Seq<char>>,
    pub bio: Option<Seq<char>>,
    pub website: Option<Seq<char>>,
    pub twitter: Option<Seq<char>>,
    pub avatar: Option<Seq<char>>,
    pub sales: u64,
}

impl DeepView for Profile {
    type V = ProfileModel;

    open spec fn deep_view(&self) -> ProfileModel {
        ProfileModel {
            name: self.name.deep_view(),
            last_name: self.last_name.deep_view(),
            pen_name: self.pen_name.deep_view(),
            bio: self.bio.deep_view(),
            website: self.website.deep_view(),
            twitter: self.twitter.deep_view(),
            avatar: self.avatar.deep_view(),
            sales: self.sales,
        }
    }
}

impl Duplicate for Profile {
    fn duplicate(&self) -> (r: Self) {
        Profile {
            name: self.name.duplicate(),
            last_name: self.last_name.duplicate(),
            pen_name: self.pen_name.duplicate(),
            bio: self.bio.duplicate(),
            website: self.website.duplicate(),
            twitter: self.twitter.duplicate(),
            avatar: self.avatar.duplicate(),
            sales: self.sales,
        }
    }
}

/// A complete profile as the list of best sellers shows it.
#[derive(Clone, Debug)]
pub struct ProfileJson {
    pub user_id: String,
    pub name: String,
    pub last_name: String,
    pub pen_name: String,
    pub bio: String,
    pub website: String,
    pub twitter: String,
    pub sales: u64,
    pub avatar: String,
}

pub struct ProfileJsonModel {
    pub user_id: Seq<char>,
    pub name: Seq<char>,
    pub last_name: Seq<char>,
    pub pen_name: Seq<char>,
    pub bio: Seq<char>,
    pub website: Seq<char>,
    pub twitter: Seq<char>,
    pub sales: u64,
    pub avatar: Seq<char>,
}

impl DeepView for ProfileJson {
    type V = ProfileJsonModel;

    open spec fn deep_view(&self) -> ProfileJsonModel {
        ProfileJsonModel {
            user_id: self.user_id@,
            name: self.name@,
            last_name: self.last_name@,
            pen_name: self.pen_name@,
            bio: self.bio@,
            website: self.website@,
            twitter: self.twitter@,
            sales: self.sales,
            avatar: self.avatar@,
        }
    }
}

/// One recorded operation on a series: who, at what price, when.
#[derive(Clone, Debug)]
pub struct OperationHistory {
    pub owner_id: String,
    pub price: u128,
    pub date: u64,
}

pub struct OperationHistoryModel {
    pub owner_id: Seq<char>,
    pub price: u128,
    pub date: u64,
}

impl DeepView for OperationHistory {
    type V = OperationHistoryModel;

    open spec fn deep_view(&self) -> OperationHistoryModel {
        OperationHistoryModel { owner_id: self.owner_id@, price: self.price, date: self.date }
    }
}

impl Duplicate for OperationHistory {
    fn duplicate(&self) -> (r: Self) {
        OperationHistory { owner_id: self.owner_id.clone(), price: self.price, date: self.date }
    }
}

/// The operations and sales recorded for a series.
#[derive(Clone, Debug)]
pub struct TransactionJson {
    pub token_id: String,
    pub operations: i128,
    pub sales: i128,
    pub operation_history: Vec<OperationHistory>,
}

pub struct TransactionJsonModel {
    pub token_id: Seq<char>,
    pub operations: i128,
    pub sales: i128,
    pub operation_history: Seq<OperationHistoryModel>,
}

impl DeepView for TransactionJson {
    type V = TransactionJsonModel;

    open spec fn deep_view(&self) -> TransactionJsonModel {
        TransactionJsonModel {
            token_id: self.token_id@,
            operations: self.operations,
            sales: self.sales,
            operation_history: self.operation_history.deep_view(),
        }
    }
}

impl Duplicate for TransactionJson {
    fn duplicate(&self) -> (r: Self) {
        TransactionJson {
            token_id: self.token_id.clone(),
            operations: self.operations,
            sales: self.sales,
            operation_history: self.operation_history.duplicate(),
        }
    }
}

/// An offer of the market: a series (or one token of it) at a price.
#[derive(Clone, Debug)]
pub struct MarketJson {
    pub token_series_id: String,
    pub metadata: TokenMetadata,
    pub owner_id: String,
    pub creator_id: String,
    pub price: u128,
    pub category: Vec<(i128, CategoriesObjet)>,
    pub royalty: Vec<(String, u32)>,
}

pub struct MarketJsonModel {
    pub token_series_id: Seq<char>,
    pub metadata: TokenMetadataModel,
    pub owner_id: Seq<char>,
    pub creator_id: Seq<char>,
    pub price: u128,
    pub category: Seq<(i128, CategoriesObjetModel)>,
    pub royalty: Seq<(Seq<char>, u32)>,
}

impl DeepView for MarketJson {
    type V = MarketJsonModel;

    open spec fn deep_view(&self) -> MarketJsonModel {
        MarketJsonModel {
            token_series_id: self.token_series_id@,
            metadata: self.metadata.deep_view(),
            owner_id: self.owner_id@,
            creator_id: self.creator_id@,
            price: self.price,
            category: self.category.deep_view(),
            royalty: self.royalty.deep_view(),
        }
    }
}

impl Duplicate for MarketJson {
    fn duplicate(&self) -> (r: Self) {
        MarketJson {
            token_series_id: self.token_series_id.clone(),
            metadata: self.metadata.duplicate(),
            owner_id: self.owner_id.clone(),
            creator_id: self.creator_id.clone(),
            price: self.price,
            category: self.category.duplicate(),
            royalty: self.royalty.duplicate(),
        }
    }
}

/// An offer of the market together with the reviews of its series.
#[derive(Clone, Debug)]
pub struct MarketView {
    pub token_series_id: String,
    pub metadata: TokenMetadata,
    pub owner_id: String,
    pub creator_id: String,
    pub price: u128,
    pub category: Vec<(i128, CategoriesObjet)>,
    pub royalty: Vec<(String, u32)>,
    pub reviews: Vec<Review>,
}

pub struct MarketViewModel {
    pub token_series_id: Seq<char>,
    pub metadata: TokenMetadataModel,
    pub owner_id: Seq<char>,
    pub creator_id: Seq<char>,
    pub price: u128,
    pub category: Seq<(i128, CategoriesObjetModel)>,
    pub royalty: Seq<(Seq<char>, u32)>,
    pub reviews: Seq<ReviewModel>,
}

impl DeepView for MarketView {
    type V = MarketViewModel;

    open spec fn deep_view(&self) -> MarketViewModel {
        MarketViewModel {
            token_series_id: self.token_series_id@,
            metadata: self.metadata.deep_view(),
            owner_id: self.owner_id@,
            creator_id: self.creator_id@,
            price: self.price,
            category: self.category.deep_view(),
            royalty: self.royalty.deep_view(),
            reviews: self.reviews.deep_view(),
        }
    }
}

impl Duplicate for MarketView {
    fn duplicate(&self) -> (r: Self) {
        MarketView {
            token_series_id: self.token_series_id.clone(),
            metadata: self.metadata.duplicate(),
            owner_id: self.owner_id.clone(),
            creator_id: self.creator_id.clone(),
            price: self.price,
            category: self.category.duplicate(),
            royalty: self.royalty.duplicate(),
            reviews: self.reviews.duplicate(),
        }
    }
}

/// A series of tokens that share metadata, its minted tokens, its price,
/// categories, royalties and reviews.
#[derive(Clone, Debug)]
pub struct TokenSeries {
    pub metadata: TokenMetadata,
    pub creator_id: String,
    pub tokens: Vec<String>,
    pub price: Option<u128>,
    pub is_mintable: bool,
    pub category: Vec<(i128, CategoriesObjet)>,
    pub royalty: Vec<(String, u32)>,
    pub reviews: Vec<Review>,
}

pub struct TokenSeriesModel {
    pub metadata: TokenMetadataModel,
    pub creator_id: Seq<char>,
    pub tokens: Seq<Seq<char>>,
    pub price: Option<u128>,
    pub is_mintable: bool,
    pub category: Seq<(i128, CategoriesObjetModel)>,
    pub royalty: Seq<(Seq<char>, u32)>,
    pub reviews: Seq<ReviewModel>,
}

impl DeepView for TokenSeries {
    type V = TokenSeriesModel;

    open spec fn deep_view(&self) -> TokenSeriesModel {
        TokenSeriesModel {
            metadata: self.metadata.deep_view(),
            creator_id: self.creator_id@,
            tokens: self.tokens.deep_view(),
            price: self.price,
            is_mintable: self.is_mintable,
            category: self.category.deep_view(),
            royalty: self.royalty.deep_view(),
            reviews: self.reviews.deep_view(),
        }
    }
}

impl Duplicate for TokenSeries {
    fn duplicate(&self) -> (r: Self) {
        TokenSeries {
            metadata: self.metadata.duplicate(),
            creator_id: self.creator_id.clone(),
            tokens: self.tokens.duplicate(),
            price: self.price,
            is_mintable: self.is_mintable,
            category: self.category.duplicate(),
            royalty: self.royalty.duplicate(),
            reviews: self.reviews.duplicate(),
        }
    }
}

/// A series as the views show it.
#[derive(Clone, Debug)]
pub struct TokenSeriesJson {
    pub token_series_id: String,
    pub metadata: TokenMetadata,
    pub creator_id: String,
    pub royalty: Vec<(String, u32)>,
}

pub struct TokenSeriesJsonModel {
    pub token_series_id: Seq<char>,
    pub metadata: TokenMetadataModel,
    pub creator_id: Seq<char>,
    pub royalty: Seq<(Seq<char>, u32)>,
}

impl DeepView for TokenSeriesJson {
    type V = TokenSeriesJsonModel;

    open spec fn deep_view(&self) -> TokenSeriesJsonModel {
        TokenSeriesJsonModel {
            token_series_id: self.token_series_id@,
            metadata: self.metadata.deep_view(),
            creator_id: self.creator_id@,
            royalty: self.royalty.deep_view(),
        }
    }
}

impl Duplicate for TokenSeriesJson {
    fn duplicate(&self) -> (r: Self) {
        TokenSeriesJson {
            token_series_id: self.token_series_id.clone(),
            metadata: self.metadata.duplicate(),
            creator_id: self.creator_id.clone(),
            royalty: self.royalty.duplicate(),
        }
    }
}

/// A token as NEP-171 describes it: id, owner, metadata and approvals.
#[derive(Clone, Debug)]
pub struct Token {
    pub token_id: String,
    pub owner_id: String,
    pub metadata: Option<TokenMetadata>,
    pub approved_account_ids: Option<Vec<(String, u64)>>,
}

pub struct TokenModel {
    pub token_id: Seq<char>,
    pub owner_id: Seq<char>,
    pub metadata: Option<TokenMetadataModel>,
    pub approved_account_ids: Option<Seq<(Seq<char>, u64)>>,
}

impl DeepView for Token {
    type V = TokenModel;

    open spec fn deep_view(&self) -> TokenModel {
        TokenModel {
            token_id: self.token_id@,
            owner_id: self.owner_id@,
            metadata: self.metadata.deep_view(),
            approved_account_ids: self.approved_account_ids.deep_view(),
        }
    }
}

} // verus!
