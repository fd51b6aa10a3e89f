//! The contract's state, its well-formedness, its construction, and the
//! administration of administrators and categories.

use vstd::prelude::*;
use vstd::string::*;
use crate::types::{
    OperationHistoryModel, NFTContractMetadata, NFTContractMetadataModel, TokenSeries, TokenSeriesModel, CategoriesJson,
    CategoriesJsonModel, MarketJson, MarketJsonModel, TransactionJson, TransactionJsonModel,
    Profile, ProfileModel, Duplicate,
};
use crate::strmap::{StrMap, keys_distinct, int_keys_distinct, has_key};
use crate::error::ContractError;
use crate::text::{count_colons, first_part, decimal};

verus! {

/// Separates the series id from the copy number in a token id.
pub const TOKEN_DELIMETER: char = ':';

/// Separates the series title from the series id and copy number in a token title.
pub const TITLE_DELIMETER: &'static str = " #";

/// The vault's share of a sale, in hundredths of a percent.
pub const VAULT_FEE: u128 = 500;

/// Prices must stay below 10^9 NEAR (in yoctoNEAR).
pub const MAX_PRICE: u128 = 1_000_000_000_000_000_000_000_000_000_000_000u128;

/// The version of the metadata standard that the contract follows.
pub const NFT_METADATA_SPEC: &'static str = "nft-1.0.0";

pub const DATA_IMAGE_SVG_NEAR_ICON: &'static str = "data:image/svg+xml,%3Csvg xmlns='http://www.w3.org/2000/svg' viewBox='0 0 288 288'%3E%3Cg id='l' data-name='l'%3E%3Cpath d='M187.58,79.81l-30.1,44.69a3.2,3.2,0,0,0,4.75,4.2L191.86,103a1.2,1.2,0,0,1,2,.91v80.46a1.2,1.2,0,0,1-2.12.77L102.18,77.93A15.35,15.35,0,0,0,90.47,72.5H87.34A15.34,15.34,0,0,0,72,87.84V201.16A15.34,15.34,0,0,0,87.34,216.5h0a15.35,15.35,0,0,0,13.08-7.31l30.1-44.69a3.2,3.2,0,0,0-4.75-4.2L96.14,186a1.2,1.2,0,0,1-2-.91V104.61a1.2,1.2,0,0,1,2.12-.77l89.55,107.23a15.35,15.35,0,0,0,11.71,5.43h3.13A15.34,15.34,0,0,0,216,201.16V87.84A15.34,15.34,0,0,0,200.66,72.5h0A15.35,15.35,0,0,0,187.58,79.81Z'/%3E%3C/g%3E%3C/svg%3E";

/// The state of the marketplace contract. The ledger of minted tokens
/// (owners, token metadata, approvals) belongs to the NFT standard's
/// component and is kept by the caller.
pub struct Contract {
    pub owner_id: String,
    pub metadata: NFTContractMetadata,
    pub token_series_by_id: StrMap<TokenSeries>,
    pub vault_id: String,
    pub categories: Vec<CategoriesJson>,
    pub marketplace: StrMap<MarketJson>,
    pub transaction: StrMap<TransactionJson>,
    pub administrators: Vec<String>,
    pub profile: StrMap<Profile>,
}

pub struct ContractModel {
    pub owner_id: Seq<char>,
    pub metadata: NFTContractMetadataModel,
    pub token_series_by_id: Seq<(Seq<char>, TokenSeriesModel)>,
    pub vault_id: Seq<char>,
    pub categories: Seq<CategoriesJsonModel>,
    pub marketplace: Seq<(Seq<char>, MarketJsonModel)>,
    pub transaction: Seq<(Seq<char>, TransactionJsonModel)>,
    pub administrators: Seq<Seq<char>>,
    pub profile: Seq<(Seq<char>, ProfileModel)>,
}

impl View for Contract {
    type V = ContractModel;

    open spec fn view(&self) -> ContractModel {
        ContractModel {
            owner_id: self.owner_id@,
            metadata: self.metadata.deep_view(),
            token_series_by_id: self.token_series_by_id.deep_view(),
            vault_id: self.vault_id@,
            categories: self.categories.deep_view(),
            marketplace: self.marketplace.deep_view(),
            transaction: self.transaction.deep_view(),
            administrators: self.administrators.deep_view(),
            profile: self.profile.deep_view(),
        }
    }
}

/// How many copies a series allows: its `copies`, or no limit below `u64::MAX`.
pub open spec fn copies_limit(s: TokenSeriesModel) -> u64 {
    match s.metadata.copies {
        Some(c) => c,
        None => u64::MAX,
    }
}

/// The id of the copy numbered `k`: the series id, ':' and `k`.
pub open spec fn copy_token_id(series_id: Seq<char>, k: nat) -> Seq<char> {
    series_id + seq![':'] + decimal(k)
}

/// A series always has a title; a price below the maximum only while it
/// can be minted; no token twice; no more tokens than its copies; no review
/// twice; and no category id or royalty account twice.
pub open spec fn series_wf(s: TokenSeriesModel) -> bool {
    &&& s.metadata.title is Some
    &&& (s.price matches Some(p) ==> p < MAX_PRICE && s.is_mintable)
    &&& s.tokens.no_duplicates()
    &&& s.tokens.len() <= copies_limit(s)
    &&& s.reviews.no_duplicates()
    &&& int_keys_distinct(s.category)
    &&& keys_distinct(s.royalty)
}

/// A stored series is well formed and its copies are numbered 1, 2, ...
/// in the order they were minted.
pub open spec fn series_entry_wf(e: (Seq<char>, TokenSeriesModel)) -> bool {
    &&& series_wf(e.1)
    &&& forall|i: int| 0 <= i < e.1.tokens.len() ==> #[trigger] e.1.tokens[i] == copy_token_id(e.0, (i + 1) as nat)
}

/// The NEP-177 conditions on contract metadata.
pub open spec fn valid_contract_metadata(m: NFTContractMetadataModel) -> bool {
    &&& m.spec == NFT_METADATA_SPEC@
    &&& (m.reference is Some) == (m.reference_hash is Some)
    &&& (m.reference_hash matches Some(h) ==> h.len() == 32)
}

/// The number of operations in `h` made at a positive price.
pub open spec fn priced_count(h: Seq<OperationHistoryModel>) -> int
    decreases h.len(),
{
    if h.len() == 0 {
        0
    } else {
        priced_count(h.drop_last()) + if h.last().price > 0 { 1int } else { 0int }
    }
}

/// An operation record is stored under its own series id, counts the
/// entries of its history and, as sales, those made at a positive price.
pub open spec fn transaction_entry_wf(e: (Seq<char>, TransactionJsonModel)) -> bool {
    &&& e.1.token_id == e.0
    &&& e.1.operations == e.1.operation_history.len()
    &&& e.1.sales == priced_count(e.1.operation_history)
}

impl ContractModel {
    /// An offer is stored under its own id, below the maximum price, and its
    /// id names an existing series, alone or followed by ':' and a copy
    /// number; no category id or royalty account occurs twice in it.
    pub open spec fn market_entry_wf(self, e: (Seq<char>, MarketJsonModel)) -> bool {
        &&& e.1.token_series_id == e.0
        &&& e.1.price < MAX_PRICE
        &&& count_colons(e.0) <= 1
        &&& has_key(self.token_series_by_id, first_part(e.0))
        &&& int_keys_distinct(e.1.category)
        &&& keys_distinct(e.1.royalty)
    }

    pub open spec fn wf(self) -> bool {
        &&& keys_distinct(self.token_series_by_id)
        &&& keys_distinct(self.marketplace)
        &&& keys_distinct(self.transaction)
        &&& keys_distinct(self.profile)
        &&& self.administrators.no_duplicates()
        &&& forall|i: int| 0 <= i < self.categories.len() ==> #[trigger] self.categories[i].id == i + 1
        &&& forall|i: int| 0 <= i < self.token_series_by_id.len() ==> series_entry_wf(#[trigger] self.token_series_by_id[i])
        &&& forall|i: int| 0 <= i < self.token_series_by_id.len() ==> #[trigger] self.token_series_by_id[i].0 == decimal((i + 1) as nat)
        &&& forall|i: int| 0 <= i < self.transaction.len() ==> transaction_entry_wf(#[trigger] self.transaction[i])
        &&& forall|i: int| 0 <= i < self.marketplace.len() ==> self.market_entry_wf(#[trigger] self.marketplace[i])
    }

    pub open spec fn is_admin(self, account: Seq<char>) -> bool {
        self.administrators.contains(account)
    }
}

impl Contract {
    pub open spec fn wf(&self) -> bool {
        &&& self@.wf()
        &&& self.token_series_by_id.wf()
        &&& self.marketplace.wf()
        &&& self.transaction.wf()
        &&& self.profile.wf()
    }
}

/// The administrators that a new contract starts with.
pub open spec fn initial_administrators() -> Seq<Seq<char>> {
    seq!["mintick.testnet"@, "min.mintick.testnet"@]
}

/// The state of a new contract.
pub open spec fn initial_model(owner_id: Seq<char>, vault_id: Seq<char>, metadata: NFTContractMetadataModel) -> ContractModel {
    ContractModel {
        owner_id,
        metadata,
        token_series_by_id: Seq::empty(),
        vault_id,
        categories: Seq::empty(),
        marketplace: Seq::empty(),
        transaction: Seq::empty(),
        administrators: initial_administrators(),
        profile: Seq::empty(),
    }
}

/// The contract metadata of MinTick.
pub open spec fn default_metadata_model() -> NFTContractMetadataModel {
    NFTContractMetadataModel {
        spec: NFT_METADATA_SPEC@,
        name: "MinTick"@,
        symbol: "MinTick"@,
        icon: Some(DATA_IMAGE_SVG_NEAR_ICON@),
        base_uri: None,
        reference: None,
        reference_hash: None,
    }
}

/// The categories with id `id`: the one at position `id - 1`, if any.
pub open spec fn categories_with_id(cats: Seq<CategoriesJsonModel>, id: i128) -> Seq<CategoriesJsonModel> {
    if 1 <= id <= cats.len() {
        seq![cats[id - 1]]
    } else {
        Seq::empty()
    }
}

/// The position of `x` in `s` (meaningful when `x` occurs).
pub open spec fn position_of(s: Seq<Seq<char>>, x: Seq<char>) -> int {
    choose|i: int| 0 <= i < s.len() && s[i] == x
}

/// The first position of `s` in `v`.
pub fn find_string(v: &Vec<String>, s: &String) -> (r: Option<usize>)
    ensures
        r is None <==> !v.deep_view().contains(s@),
        r matches Some(i) ==> i < v.len() && v.deep_view()[i as int] == s@
            && forall|j: int| 0 <= j < i ==> v.deep_view()[j] != s@,
{
    let mut i: usize = 0;
    while i < v.len()
        invariant
            i <= v.len(),
            forall|j: int| 0 <= j < i ==> v.deep_view()[j] != s@,
        decreases v.len() - i,
    {
        if v[i] == *s {
            assert(v.deep_view()[i as int] == s@);
            return Some(i);
        }
        i = i + 1;
    }
    None
}

/// The first position of a category with id `id`.
pub fn find_category(v: &Vec<CategoriesJson>, id: i128) -> (r: Option<usize>)
    ensures
        r is None <==> forall|j: int| 0 <= j < v.len() ==> v.deep_view()[j].id != id,
        r matches Some(i) ==> i < v.len() && v.deep_view()[i as int].id == id,
{
    let mut i: usize = 0;
    while i < v.len()
        invariant
            i <= v.len(),
            forall|j: int| 0 <= j < i ==> v.deep_view()[j].id != id,
        decreases v.len() - i,
    {
        if v[i].id == id {
            assert(v.deep_view()[i as int].id == id);
            return Some(i);
        }
        i = i + 1;
    }
    None
}

/// Whether `s` occurs in `v`.
pub fn contains_string(v: &Vec<String>, s: &String) -> (b: bool)
    ensures
        b == v.deep_view().contains(s@),
{
    let mut i: usize = 0;
    while i < v.len()
        invariant
            i <= v.len(),
            forall|j: int| 0 <= j < i ==> v.deep_view()[j] != s@,
        decreases v.len() - i,
    {
        if v[i] == *s {
            assert(v.deep_view()[i as int] == s@);
            return true;
        }
        i = i + 1;
    }
    false
}


impl Contract {
    fn build(owner_id: String, vault_id: String, metadata: NFTContractMetadata) -> (c: Contract)
        ensures
            c.wf(),
            c@ == initial_model(owner_id@, vault_id@, metadata.deep_view()),
    {
        let mut administrators: Vec<String> = Vec::new();
        administrators.push(String::from_str("mintick.testnet"));
        administrators.push(String::from_str("min.mintick.testnet"));
        let c = Contract {
            owner_id,
            metadata,
            token_series_by_id: StrMap::new(),
            vault_id,
            categories: Vec::new(),
            marketplace: StrMap::new(),
            transaction: StrMap::new(),
            administrators,
            profile: StrMap::new(),
        };
        proof {
            reveal_strlit("mintick.testnet");
            reveal_strlit("min.mintick.testnet");
            assert(c.administrators.deep_view() =~= initial_administrators());
            assert(c.categories.deep_view() =~= Seq::<CategoriesJsonModel>::empty());
            assert(c@.administrators[0].len() == 15);
            assert(c@.administrators[1].len() == 19);
        }
        c
    }

    /// Initializes the contract with MinTick's metadata.
    pub fn new_default_meta(owner_id: String, vault_id: String) -> (c: Contract)
        ensures
            c.wf(),
            c@ == initial_model(owner_id@, vault_id@, default_metadata_model()),
    {
        let metadata = NFTContractMetadata {
            spec: String::from_str(NFT_METADATA_SPEC),
            name: String::from_str("MinTick"),
            symbol: String::from_str("MinTick"),
            icon: Some(String::from_str(DATA_IMAGE_SVG_NEAR_ICON)),
            base_uri: None,
            reference: None,
            reference_hash: None,
        };
        Contract::build(owner_id, vault_id, metadata)
    }

    /// Initializes the contract with the given metadata, which must follow NEP-177.
    pub fn new(owner_id: String, vault_id: String, metadata: NFTContractMetadata) -> (r: Result<Contract, ContractError>)
        ensures
            r is Ok <==> valid_contract_metadata(metadata.deep_view()),
            r matches Ok(c) ==> c.wf() && c@ == initial_model(owner_id@, vault_id@, metadata.deep_view()),
            r matches Err(e) ==> e == ContractError::InvalidMetadata,
    {
        let spec_ok = metadata.spec == String::from_str(NFT_METADATA_SPEC);
        let refs_ok = metadata.reference.is_some() == metadata.reference_hash.is_some();
        let hash_ok = match &metadata.reference_hash {
            Some(h) => h.len() == 32,
            None => true,
        };
        if spec_ok && refs_ok && hash_ok {
            Ok(Contract::build(owner_id, vault_id, metadata))
        } else {
            Err(ContractError::InvalidMetadata)
        }
    }

    /// The contract metadata.
    pub fn nft_metadata(&self) -> (m: NFTContractMetadata)
        ensures
            m.deep_view() == self@.metadata,
    {
        self.metadata.duplicate()
    }

    /// Adds `user_id` to the administrators; only an administrator may.
    pub fn set_admin(&mut self, signer: &String, user_id: String) -> (r: Result<(), ContractError>)
        requires
            old(self).wf(),
        ensures
            final(self).wf(),
            !old(self)@.is_admin(signer@) ==> r == Err::<(), ContractError>(ContractError::NotAdministrator),
            old(self)@.is_admin(signer@) && old(self)@.is_admin(user_id@)
                ==> r == Err::<(), ContractError>(ContractError::AlreadyAdministrator),
            old(self)@.is_admin(signer@) && !old(self)@.is_admin(user_id@) ==> r is Ok
                && final(self)@ == (ContractModel { administrators: old(self)@.administrators.push(user_id@), ..old(self)@ }),
            r is Err ==> final(self)@ == old(self)@,
    {
        if !contains_string(&self.administrators, signer) {
            return Err(ContractError::NotAdministrator);
        }
        if contains_string(&self.administrators, &user_id) {
            return Err(ContractError::AlreadyAdministrator);
        }
        let ghost old_admins = self@.administrators;
        let ghost u = user_id@;
        self.administrators.push(user_id);
        assert(self@.administrators =~= old_admins.push(u));
        assert(self@ == (ContractModel { administrators: old_admins.push(u), ..old(self)@ }));
        Ok(())
    }

    /// Removes `user_id` from the administrators; only an administrator may.
    pub fn delete_admin(&mut self, signer: &String, user_id: String) -> (r: Result<(), ContractError>)
        requires
            old(self).wf(),
        ensures
            final(self).wf(),
            !old(self)@.is_admin(signer@) ==> r == Err::<(), ContractError>(ContractError::NotAdministrator),
            old(self)@.is_admin(signer@) && !old(self)@.is_admin(user_id@)
                ==> r == Err::<(), ContractError>(ContractError::NotInAdministrators),
            old(self)@.is_admin(signer@) && old(self)@.is_admin(user_id@) ==> r is Ok
                && final(self)@ == (ContractModel {
                    administrators: old(self)@.administrators.remove(position_of(old(self)@.administrators, user_id@)),
                    ..old(self)@
                }),
            r is Err ==> final(self)@ == old(self)@,
    {
        if !contains_string(&self.administrators, signer) {
            return Err(ContractError::NotAdministrator);
        }
        let i = match find_string(&self.administrators, &user_id) {
            Some(i) => i,
            None => {
                return Err(ContractError::NotInAdministrators);
            },
        };
        let ghost old_admins = self@.administrators;
        proof {
            assert(old_admins[i as int] == user_id@);
            let p = position_of(old_admins, user_id@);
            assert(old_admins[p] == user_id@);
            assert(p == i);
        }
        self.administrators.remove(i);
        assert(self@.administrators =~= old_admins.remove(i as int));
        proof {
            assert forall|a: int, b: int| 0 <= a < self@.administrators.len() && 0 <= b < self@.administrators.len() && a != b
                implies self@.administrators[a] != self@.administrators[b] by {
                let sa = if a < i { a } else { a + 1 };
                let sb = if b < i { b } else { b + 1 };
                assert(self@.administrators[a] == old_admins[sa]);
                assert(self@.administrators[b] == old_admins[sb]);
            }
        }
        Ok(())
    }

    /// Adds a category with the next id; only an administrator may.
    pub fn set_category(&mut self, signer: &String, name: String, img: String) -> (r: Result<CategoriesJson, ContractError>)
        requires
            old(self).wf(),
        ensures
            final(self).wf(),
            !old(self)@.is_admin(signer@) ==> r == Err::<CategoriesJson, ContractError>(ContractError::NotAdministrator),
            old(self)@.is_admin(signer@) ==> r is Ok,
            r matches Ok(c) ==> c.deep_view() == (CategoriesJsonModel { id: (old(self)@.categories.len() + 1) as i128, name: name@, img: img@ })
                && final(self)@ == (ContractModel { categories: old(self)@.categories.push(c.deep_view()), ..old(self)@ }),
            r is Err ==> final(self)@ == old(self)@,
    {
        if !contains_string(&self.administrators, signer) {
            return Err(ContractError::NotAdministrator);
        }
        let category_id: i128 = (self.categories.len() as i128) + 1;
        let data = CategoriesJson { id: category_id, name: name.clone(), img: img.clone() };
        let ghost old_cats = self@.categories;
        self.categories.push(data.duplicate());
        assert(self@.categories =~= old_cats.push(data.deep_view()));
        Ok(data)
    }

    /// Renames a category and changes its image; only an administrator may.
    pub fn put_category(&mut self, signer: &String, category_id: i128, name: String, img: String) -> (r: Result<CategoriesJson, ContractError>)
        requires
            old(self).wf(),
        ensures
            final(self).wf(),
            !old(self)@.is_admin(signer@) ==> r == Err::<CategoriesJson, ContractError>(ContractError::NotAdministrator),
            old(self)@.is_admin(signer@) && !(1 <= category_id <= old(self)@.categories.len())
                ==> r == Err::<CategoriesJson, ContractError>(ContractError::CategoryNotFound),
            old(self)@.is_admin(signer@) && 1 <= category_id <= old(self)@.categories.len() ==> r is Ok,
            r matches Ok(c) ==> c.deep_view() == (CategoriesJsonModel { id: category_id, name: name@, img: img@ })
                && final(self)@ == (ContractModel {
                    categories: old(self)@.categories.update(category_id - 1, c.deep_view()),
                    ..old(self)@
                }),
            r is Err ==> final(self)@ == old(self)@,
    {
        if !contains_string(&self.administrators, signer) {
            return Err(ContractError::NotAdministrator);
        }
        let i = match find_category(&self.categories, category_id) {
            Some(i) => i,
            None => {
                proof {
                    if 1 <= category_id <= self@.categories.len() {
                        assert(self@.categories[category_id - 1].id == category_id);
                    }
                }
                return Err(ContractError::CategoryNotFound);
            },
        };
        assert(self@.categories[i as int].id == i + 1);
        let ghost old_cats = self@.categories;
        let data = CategoriesJson { id: category_id, name: name.clone(), img: img.clone() };
        self.categories.set(i, data.duplicate());
        assert(self@.categories =~= old_cats.update(category_id - 1, data.deep_view()));
        Ok(data)
    }

    /// All categories, or the one with the given id.
    pub fn get_category(&self, category_id: Option<i128>) -> (r: Vec<CategoriesJson>)
        requires
            self.wf(),
        ensures
            category_id is None ==> r.deep_view() == self@.categories,
            category_id matches Some(id) ==> r.deep_view() == categories_with_id(self@.categories, id),
    {
        match category_id {
            None => self.categories.duplicate(),
            Some(id) => {
                let mut r: Vec<CategoriesJson> = Vec::new();
                let mut i: usize = 0;
                while i < self.categories.len()
                    invariant
                        self@.wf(),
                        i <= self.categories.len(),
                        r.deep_view() == (if 1 <= id <= i { seq![self@.categories[id - 1]] } else {
                            Seq::<CategoriesJsonModel>::empty()
                        }),
                    decreases self.categories.len() - i,
                {
                    assert(self@.categories[i as int].id == i + 1);
                    if self.categories[i].id == id {
                        let c = self.categories[i].duplicate();
                        r.push(c);
                        assert(r.deep_view() =~= seq![self@.categories[id - 1]]);
                    }
                    i = i + 1;
                }
                r
            },
        }
    }
}

} // verus!
