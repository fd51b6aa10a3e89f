//! Creating series: royalties, categories, and the series itself.

use vstd::prelude::*;
use crate::types::{CategoriesJson, CategoriesJsonModel, CategoriesObjet, CategoriesObjetModel, TokenMetadata, TokenMetadataModel, TokenSeries, TokenSeriesModel, TokenSeriesJson, TokenSeriesJsonModel, MarketJson, MarketJsonModel, Duplicate};
use crate::strmap::{has_key, upsert, lemma_upsert_distinct, lookup};
use crate::error::ContractError;
use crate::account::{valid_account_id, is_valid_account_id};
use crate::text::{decimal, u64_to_decimal, lemma_decimal_no_colon, first_part};
use crate::contract::{Contract, ContractModel, MAX_PRICE, contains_string, find_category};

verus! {

/// The first refusal met when the royalties are checked in order, each
/// account id before its share is added to the running total `acc`.
pub open spec fn royalty_error(r: Seq<(Seq<char>, u32)>, acc: int) -> Option<ContractError>
    decreases r.len(),
{
    if r.len() == 0 {
        None
    } else if !valid_account_id(r[0].0) {
        Some(ContractError::InvalidRoyaltyAccount)
    } else if acc + r[0].1 > u32::MAX {
        Some(ContractError::RoyaltyOverflow)
    } else {
        royalty_error(r.drop_first(), acc + r[0].1)
    }
}

/// A royalty list is refused only for a bad account or an overflowing sum.
pub proof fn lemma_royalty_error_kinds(r: Seq<(Seq<char>, u32)>, acc: int)
    ensures
        royalty_error(r, acc) is None
            || royalty_error(r, acc) == Some(ContractError::InvalidRoyaltyAccount)
            || royalty_error(r, acc) == Some(ContractError::RoyaltyOverflow),
    decreases r.len(),
{
    if r.len() > 0 && valid_account_id(r[0].0) && acc + r[0].1 <= u32::MAX {
        lemma_royalty_error_kinds(r.drop_first(), acc + r[0].1);
    }
}

/// The sum of the royalty shares.
pub open spec fn royalty_sum(r: Seq<(Seq<char>, u32)>) -> int
    decreases r.len(),
{
    if r.len() == 0 {
        0
    } else {
        royalty_sum(r.drop_last()) + r.last().1
    }
}

/// Checks the royalties in order and sums them.
pub fn scan_royalty(r: &Vec<(String, u32)>) -> (res: Result<u32, ContractError>)
    ensures
        res matches Ok(t) ==> royalty_error(r.deep_view(), 0) is None && t == royalty_sum(r.deep_view()),
        res matches Err(e) ==> royalty_error(r.deep_view(), 0) == Some(e),
{
    let ghost s = r.deep_view();
    let mut total: u32 = 0;
    let mut i: usize = 0;
    assert(s.skip(0) =~= s);
    assert(s.take(0) =~= Seq::<(Seq<char>, u32)>::empty());
    while i < r.len()
        invariant
            s == r.deep_view(),
            i <= r.len(),
            total == royalty_sum(s.take(i as int)),
            royalty_error(s, 0) == royalty_error(s.skip(i as int), total as int),
        decreases r.len() - i,
    {
        let ghost t = s.skip(i as int);
        assert(t[0] == s[i as int]);
        assert(t.drop_first() =~= s.skip(i + 1));
        assert(s.take(i + 1).drop_last() =~= s.take(i as int));
        if !is_valid_account_id(&r[i].0) {
            return Err(ContractError::InvalidRoyaltyAccount);
        }
        if total > u32::MAX - r[i].1 {
            return Err(ContractError::RoyaltyOverflow);
        }
        total = total + r[i].1;
        i = i + 1;
    }
    assert(s.take(i as int) =~= s);
    Ok(total)
}

/// Whether some entry of `m` has the key `x`.
pub open spec fn has_int_key<M>(m: Seq<(i128, M)>, x: i128) -> bool {
    exists|j: int| 0 <= j < m.len() && #[trigger] m[j].0 == x
}

/// The category of id `x`, as a series records it.
pub open spec fn category_object(cats: Seq<CategoriesJsonModel>, x: i128) -> CategoriesObjetModel {
    CategoriesObjetModel { name: cats[x - 1].name, img: cats[x - 1].img }
}

/// The categories named by `ids`, each once, in the order of first mention.
pub open spec fn category_map(cats: Seq<CategoriesJsonModel>, ids: Seq<i128>) -> Seq<(i128, CategoriesObjetModel)>
    decreases ids.len(),
{
    if ids.len() == 0 {
        Seq::empty()
    } else {
        let m = category_map(cats, ids.drop_last());
        if has_int_key(m, ids.last()) {
            m
        } else {
            m.push((ids.last(), category_object(cats, ids.last())))
        }
    }
}

/// Each category id occurs at most once in a category map.
pub proof fn lemma_category_map_distinct(cats: Seq<CategoriesJsonModel>, ids: Seq<i128>)
    ensures
        crate::strmap::int_keys_distinct(category_map(cats, ids)),
    decreases ids.len(),
{
    if ids.len() > 0 {
        lemma_category_map_distinct(cats, ids.drop_last());
        let m = category_map(cats, ids.drop_last());
        if !has_int_key(m, ids.last()) {
            let m2 = m.push((ids.last(), category_object(cats, ids.last())));
            assert forall|i: int, j: int| 0 <= i < m2.len() && 0 <= j < m2.len() && i != j implies #[trigger] m2[i].0 != #[trigger] m2[j].0 by {
                if i < m.len() && j < m.len() {
                    assert(m2[i] == m[i] && m2[j] == m[j]);
                } else if i < m.len() {
                    assert(m2[i] == m[i]);
                } else {
                    assert(m2[j] == m[j]);
                }
            }
        }
    }
}

/// Some id of `ids` names no category.
pub open spec fn some_category_missing(cats: Seq<CategoriesJsonModel>, ids: Seq<i128>) -> bool {
    exists|i: int| 0 <= i < ids.len() && !(1 <= #[trigger] ids[i] <= cats.len())
}

/// Whether the categories `m` hold the id `x`.
pub fn has_category(m: &Vec<(i128, CategoriesObjet)>, x: i128) -> (b: bool)
    ensures
        b == has_int_key(m.deep_view(), x),
{
    let mut j: usize = 0;
    while j < m.len()
        invariant
            j <= m.len(),
            forall|k: int| 0 <= k < j ==> m.deep_view()[k].0 != x,
        decreases m.len() - j,
    {
        if m[j].0 == x {
            assert(m.deep_view()[j as int].0 == x);
            return true;
        }
        j = j + 1;
    }
    false
}

/// Looks up the categories named by `ids`.
pub fn build_category_map(cats: &Vec<CategoriesJson>, ids: &Vec<i128>) -> (res: Result<Vec<(i128, CategoriesObjet)>, ContractError>)
    requires
        forall|i: int| 0 <= i < cats.len() ==> #[trigger] cats.deep_view()[i].id == i + 1,
    ensures
        res is Err <==> some_category_missing(cats.deep_view(), ids.deep_view()),
        res matches Err(e) ==> e == ContractError::CategoryNotFound,
        res matches Ok(m) ==> m.deep_view() == category_map(cats.deep_view(), ids.deep_view()),
{
    let ghost c = cats.deep_view();
    let ghost s = ids.deep_view();
    let mut m: Vec<(i128, CategoriesObjet)> = Vec::new();
    let mut i: usize = 0;
    assert(m.deep_view() =~= category_map(c, s.take(0)));
    while i < ids.len()
        invariant
            c == cats.deep_view(),
            s == ids.deep_view(),
            forall|k: int| 0 <= k < cats.len() ==> #[trigger] c[k].id == k + 1,
            i <= ids.len(),
            forall|k: int| 0 <= k < i ==> 1 <= #[trigger] s[k] <= c.len(),
            m.deep_view() == category_map(c, s.take(i as int)),
        decreases ids.len() - i,
    {
        let x = ids[i];
        let idx = match find_category(cats, x) {
            Some(idx) => idx,
            None => {
                proof {
                    if 1 <= x <= c.len() {
                        assert(c[x - 1].id == x);
                    }
                    assert(!(1 <= s[i as int] <= c.len()));
                }
                return Err(ContractError::CategoryNotFound);
            },
        };
        assert(c[idx as int].id == idx + 1);
        assert(s.take(i + 1).drop_last() =~= s.take(i as int));
        assert(s.take(i + 1).last() == x);
        if !has_category(&m, x) {
            let obj = CategoriesObjet { name: cats[idx].name.clone(), img: cats[idx].img.clone() };
            let ghost before = m.deep_view();
            m.push((x, obj));
            assert(m.deep_view() =~= before.push((x, category_object(c, x))));
        }
        i = i + 1;
    }
    assert(s.take(i as int) =~= s);
    Ok(m)
}


/// The royalties a request names (none when it names no map).
pub open spec fn royalty_of(royalty: Option<Seq<(Seq<char>, u32)>>) -> Seq<(Seq<char>, u32)> {
    match royalty {
        Some(r) => r,
        None => Seq::empty(),
    }
}

/// The id that the next series receives: one more than the number of series.
pub open spec fn next_series_id(m: ContractModel) -> Seq<char> {
    decimal((m.token_series_by_id.len() + 1) as nat)
}

/// Why creating a series is refused, checked in this order.
pub open spec fn nft_series_error(
    m: ContractModel,
    signer: Seq<char>,
    metadata: TokenMetadataModel,
    category: Seq<i128>,
    price: Option<u128>,
    royalty: Option<Seq<(Seq<char>, u32)>>,
) -> Option<ContractError> {
    let r = royalty_of(royalty);
    if !m.is_admin(signer) {
        Some(ContractError::NotAdministrator)
    } else if m.token_series_by_id.len() + 1 > u64::MAX {
        Some(ContractError::ArithmeticOverflow)
    } else if has_key(m.token_series_by_id, next_series_id(m)) {
        Some(ContractError::DuplicateSeries)
    } else if metadata.title is None {
        Some(ContractError::TitleRequired)
    } else if royalty_error(r, 0) is Some {
        royalty_error(r, 0)
    } else if r.len() > 10 {
        Some(ContractError::TooManyRoyaltyAccounts)
    } else if royalty_sum(r) > 9000 {
        Some(ContractError::RoyaltyTooHigh)
    } else if price matches Some(p) && p >= MAX_PRICE {
        Some(ContractError::PriceTooHigh)
    } else if some_category_missing(m.categories, category) {
        Some(ContractError::CategoryNotFound)
    } else {
        None
    }
}

/// The series that a successful request creates.
pub open spec fn new_series(
    m: ContractModel,
    signer: Seq<char>,
    metadata: TokenMetadataModel,
    category: Seq<i128>,
    price: Option<u128>,
    royalty: Option<Seq<(Seq<char>, u32)>>,
) -> TokenSeriesModel {
    TokenSeriesModel {
        metadata,
        creator_id: signer,
        tokens: Seq::empty(),
        price,
        is_mintable: true,
        category: category_map(m.categories, category),
        royalty: royalty_of(royalty),
        reviews: Seq::empty(),
    }
}

/// The state after a successful request: the series stored under the next
/// id and, when it has a price, offered on the market by its creator.
pub open spec fn nft_series_model(
    m: ContractModel,
    signer: Seq<char>,
    metadata: TokenMetadataModel,
    category: Seq<i128>,
    price: Option<u128>,
    royalty: Option<Seq<(Seq<char>, u32)>>,
) -> ContractModel {
    let id = next_series_id(m);
    let cat = category_map(m.categories, category);
    let r = royalty_of(royalty);
    ContractModel {
        token_series_by_id: upsert(m.token_series_by_id, id, new_series(m, signer, metadata, category, price, royalty)),
        marketplace: match price {
            Some(p) => upsert(m.marketplace, id, MarketJsonModel {
                token_series_id: id,
                metadata,
                owner_id: signer,
                creator_id: signer,
                price: p,
                category: cat,
                royalty: r,
            }),
            None => m.marketplace,
        },
        ..m
    }
}

/// Adding an entry keeps every key present.
pub proof fn lemma_upsert_keeps_keys<M>(s: Seq<(Seq<char>, M)>, k: Seq<char>, v: M, k2: Seq<char>)
    requires
        crate::strmap::keys_distinct(s),
        has_key(s, k2),
    ensures
        has_key(upsert(s, k, v), k2),
{
    lemma_upsert_distinct(s, k, v);
    if k2 != k {
        assert(lookup(upsert(s, k, v), k2) == lookup(s, k2));
    }
}

impl Contract {
    /// Creates a series (administrators only) under the next id, with
    /// validated royalties, a price below the maximum, and existing
    /// categories; a priced series is offered on the market at once.
    pub fn nft_series(
        &mut self,
        signer: &String,
        token_metadata: TokenMetadata,
        category: Vec<i128>,
        price: Option<u128>,
        royalty: Option<Vec<(String, u32)>>,
    ) -> (r: Result<TokenSeriesJson, ContractError>)
        requires
            old(self).wf(),
            royalty matches Some(v) ==> crate::strmap::keys_distinct(v.deep_view()),
        ensures
            final(self).wf(),
            r is Err <==> nft_series_error(old(self)@, signer@, token_metadata.deep_view(), category.deep_view(), price, royalty.deep_view()) is Some,
            r matches Err(e) ==> nft_series_error(old(self)@, signer@, token_metadata.deep_view(), category.deep_view(), price, royalty.deep_view()) == Some(e)
                && final(self)@ == old(self)@,
            r matches Ok(j) ==> final(self)@ == nft_series_model(old(self)@, signer@, token_metadata.deep_view(), category.deep_view(), price, royalty.deep_view())
                && j.deep_view() == (TokenSeriesJsonModel {
                    token_series_id: next_series_id(old(self)@),
                    metadata: token_metadata.deep_view(),
                    creator_id: signer@,
                    royalty: royalty_of(royalty.deep_view()),
                }),
    {
        let ghost m = self@;
        if !contains_string(&self.administrators, signer) {
            return Err(ContractError::NotAdministrator);
        }
        let n = self.token_series_by_id.len();
        if n as u64 == u64::MAX {
            return Err(ContractError::ArithmeticOverflow);
        }
        let token_series_id = u64_to_decimal(n as u64 + 1);
        if self.token_series_by_id.get(&token_series_id).is_some() {
            return Err(ContractError::DuplicateSeries);
        }
        if token_metadata.title.is_none() {
            return Err(ContractError::TitleRequired);
        }
        let royalty_res: Vec<(String, u32)> = match royalty {
            Some(v) => v,
            None => Vec::new(),
        };
        assert(royalty_res.deep_view() =~= royalty_of(royalty.deep_view()));
        let total_perpetual = match scan_royalty(&royalty_res) {
            Ok(t) => t,
            Err(e) => {
                return Err(e);
            },
        };
        if royalty_res.len() > 10 {
            return Err(ContractError::TooManyRoyaltyAccounts);
        }
        if total_perpetual > 9000 {
            return Err(ContractError::RoyaltyTooHigh);
        }
        match price {
            Some(p) => {
                if p >= MAX_PRICE {
                    return Err(ContractError::PriceTooHigh);
                }
            },
            None => {},
        }
        let categorys = match build_category_map(&self.categories, &category) {
            Ok(c) => c,
            Err(e) => {
                return Err(e);
            },
        };
        let ghost id = token_series_id@;
        proof {
            lemma_decimal_no_colon((n + 1) as nat);
            lemma_category_map_distinct(m.categories, category.deep_view());
        }
        match price {
            Some(p) => {
                let offer = MarketJson {
                    token_series_id: token_series_id.clone(),
                    metadata: token_metadata.duplicate(),
                    owner_id: signer.clone(),
                    creator_id: signer.clone(),
                    price: p,
                    category: categorys.duplicate(),
                    royalty: royalty_res.duplicate(),
                };
                self.marketplace.insert(token_series_id.clone(), offer);
            },
            None => {},
        }
        let series = TokenSeries {
            metadata: token_metadata.duplicate(),
            creator_id: signer.clone(),
            tokens: Vec::new(),
            price,
            is_mintable: true,
            category: categorys,
            royalty: royalty_res.duplicate(),
            reviews: Vec::new(),
        };
        assert(series.tokens.deep_view() =~= Seq::<Seq<char>>::empty());
        assert(series.reviews.deep_view() =~= Seq::<crate::types::ReviewModel>::empty());
        assert(series.deep_view() == new_series(m, signer@, token_metadata.deep_view(), category.deep_view(), price, royalty.deep_view()));
        self.token_series_by_id.insert(token_series_id.clone(), series);
        proof {
            let s2 = self@.token_series_by_id;
            lemma_upsert_distinct(m.token_series_by_id, id, new_series(m, signer@, token_metadata.deep_view(), category.deep_view(), price, royalty.deep_view()));
            assert(self@ == nft_series_model(m, signer@, token_metadata.deep_view(), category.deep_view(), price, royalty.deep_view()));
            assert forall|i: int| 0 <= i < s2.len() implies crate::contract::series_entry_wf(#[trigger] s2[i]) by {
                if i < m.token_series_by_id.len() {
                    assert(s2[i] == m.token_series_by_id[i]);
                }
            }
            assert(!has_key(m.token_series_by_id, id));
            assert(s2 == m.token_series_by_id.push((id, s2[s2.len() - 1].1)));
            assert forall|i: int| 0 <= i < s2.len() implies #[trigger] s2[i].0 == decimal((i + 1) as nat) by {
                if i < m.token_series_by_id.len() {
                    assert(s2[i] == m.token_series_by_id[i]);
                }
            }
            let mk = self@.marketplace;
            assert forall|i: int| 0 <= i < mk.len() implies self@.market_entry_wf(#[trigger] mk[i]) by {
                if i < m.marketplace.len() && mk[i] == m.marketplace[i] {
                    assert(m.market_entry_wf(m.marketplace[i]));
                    lemma_upsert_keeps_keys(m.token_series_by_id, id, s2[s2.len() - 1].1, first_part(mk[i].0));
                } else {
                    assert(mk[i].0 == id);
                    assert(has_key(s2, id)) by {
                        assert(s2[s2.len() - 1].0 == id);
                    }
                }
            }
        }
        Ok(TokenSeriesJson {
            token_series_id,
            metadata: token_metadata,
            creator_id: signer.clone(),
            royalty: royalty_res,
        })
    }
}

} // verus!
