//! Properties that relate the contract's operations to one another.

use vstd::prelude::*;
use crate::types::{TokenSeriesModel, MarketViewModel, CategoriesJsonModel, ReviewModel, TokenMetadataModel, MarketJsonModel, TokenSeriesJsonModel};
use crate::strmap::{has_key, lookup, upsert, swap_delete, keys_distinct, key_index, lemma_upsert_distinct, lemma_swap_delete_distinct, lemma_key_index_unique};
use crate::error::ContractError;
use crate::text::{count_colons, first_part, decimal, lemma_decimal_injective, lemma_decimal_no_colon, lemma_no_colon, lemma_copy_id_parts};
use crate::contract::{ContractModel, TITLE_DELIMETER, priced_count, transaction_entry_wf, MAX_PRICE, categories_with_id, position_of, copies_limit, copy_token_id};
use crate::series::{nft_series_error, nft_series_model, new_series, next_series_id, royalty_of, category_map};
use crate::mint::{mint_error, mint_model, set_insert};
use crate::market::{price_error, price_model, sale_payouts, vault_fee, buy_error, buy_model, buy_outcome, with_sale};
use crate::activity::{review_error, review_model, transaction_model};
use crate::views::{page, reviews_of, market_views, market_filter_holds, MarketFilter, start_of, limit_of, get_market_model};
use crate::catalog::{series_json, token_view, token_error, is_series_copy};

verus! {

/// A category that was just added is what asking for its id gives back.
pub proof fn law_new_category_is_found(m: ContractModel, name: Seq<char>, img: Seq<char>)
    requires
        m.wf(),
        m.categories.len() < usize::MAX,
    ensures
        ({
            let c = CategoriesJsonModel { id: (m.categories.len() + 1) as i128, name, img };
            categories_with_id(m.categories.push(c), c.id) == seq![c]
        }),
{
    let c = CategoriesJsonModel { id: (m.categories.len() + 1) as i128, name, img };
    assert(c.id == m.categories.len() + 1);
    assert(categories_with_id(m.categories.push(c), c.id) =~= seq![c]);
}

/// A category that was just changed is what asking for its id gives back.
pub proof fn law_changed_category_is_found(m: ContractModel, id: i128, name: Seq<char>, img: Seq<char>)
    requires
        m.wf(),
        1 <= id <= m.categories.len(),
    ensures
        ({
            let c = CategoriesJsonModel { id, name, img };
            categories_with_id(m.categories.update(id - 1, c), id) == seq![c]
        }),
{
}

/// Adding an administrator and then removing the same account restores the list.
pub proof fn law_admin_add_then_remove(m: ContractModel, user: Seq<char>)
    requires
        m.wf(),
        !m.is_admin(user),
    ensures
        ({
            let a = m.administrators.push(user);
            a.remove(position_of(a, user)) == m.administrators
        }),
{
    let a = m.administrators.push(user);
    let p = position_of(a, user);
    assert(a[m.administrators.len() as int] == user);
    assert(a[p] == user);
    if p < m.administrators.len() {
        assert(m.administrators[p] == user);
        assert(m.administrators.contains(user));
    }
    assert(a.remove(p) =~= m.administrators);
}

/// A series that was just created is found under the next id with the
/// requested metadata, creator, royalties and price, no tokens and no
/// reviews; a priced series is on the market under the same id, owned and
/// created by its creator, at that price.
pub proof fn law_new_series_is_found(
    m: ContractModel,
    signer: Seq<char>,
    metadata: TokenMetadataModel,
    category: Seq<i128>,
    price: Option<u128>,
    royalty: Option<Seq<(Seq<char>, u32)>>,
)
    requires
        m.wf(),
        nft_series_error(m, signer, metadata, category, price, royalty) is None,
    ensures
        ({
            let id = next_series_id(m);
            let m2 = nft_series_model(m, signer, metadata, category, price, royalty);
            let s = lookup(m2.token_series_by_id, id);
            &&& s == Some(new_series(m, signer, metadata, category, price, royalty))
            &&& s.unwrap().tokens.len() == 0 && s.unwrap().is_mintable && s.unwrap().price == price
            &&& series_json((id, s.unwrap())) == (TokenSeriesJsonModel {
                token_series_id: id,
                metadata,
                creator_id: signer,
                royalty: royalty_of(royalty),
            })
            &&& (price matches Some(p) ==> (lookup(m2.marketplace, id) matches Some(e)
                && e.price == p && e.owner_id == signer && e.creator_id == signer && e.token_series_id == id))
            &&& (price is None ==> m2.marketplace == m.marketplace)
        }),
{
    let id = next_series_id(m);
    lemma_upsert_distinct(m.token_series_by_id, id, new_series(m, signer, metadata, category, price, royalty));
    match price {
        Some(p) => {
            let e = MarketJsonModel {
                token_series_id: id,
                metadata,
                owner_id: signer,
                creator_id: signer,
                price: p,
                category: category_map(m.categories, category),
                royalty: royalty_of(royalty),
            };
            lemma_upsert_distinct(m.marketplace, id, e);
        },
        None => {},
    }
}

/// After a price is set on an id, the market's offer under that id has that
/// price; after the price is cleared, the market holds no offer under it.
pub proof fn law_price_is_what_was_set(
    m: ContractModel,
    predecessor: Seq<char>,
    id: Seq<char>,
    price: Option<u128>,
    token_owner: Option<Seq<char>>,
)
    requires
        m.wf(),
        price_error(m, predecessor, 1, id, price, token_owner) is None,
    ensures
        ({
            let m2 = price_model(m, id, price, token_owner);
            &&& (price matches Some(p) ==> (lookup(m2.marketplace, id) matches Some(e) && e.price == p))
            &&& (price is None ==> !has_key(m2.marketplace, id))
        }),
{
    let m2 = price_model(m, id, price, token_owner);
    match price {
        Some(p) => {
            let s = lookup(m.token_series_by_id, first_part(id)).unwrap();
            let owner = if count_colons(id) == 0 { s.creator_id } else { token_owner.unwrap() };
            match lookup(m.marketplace, id) {
                Some(e) => {
                    lemma_upsert_distinct(m.marketplace, id, MarketJsonModel { price: p, ..e });
                },
                None => {
                    lemma_upsert_distinct(m.marketplace, id, MarketJsonModel {
                        token_series_id: id,
                        metadata: s.metadata,
                        owner_id: owner,
                        creator_id: s.creator_id,
                        price: p,
                        category: s.category,
                        royalty: s.royalty,
                    });
                },
            }
        },
        None => {
            lemma_swap_delete_distinct(m.marketplace, id);
        },
    }
}

/// Minting never goes past a series' copies: a mint appends the next copy
/// "<series>:<n + 1>" to the series' tokens, the series then holds at most
/// its allowed copies, and once the last copy is minted the series is
/// closed, unpriced, and refuses further mints.
pub proof fn law_mint_respects_supply(m: ContractModel, id: Seq<char>)
    requires
        m.wf(),
        mint_error(m, id) is None,
    ensures
        ({
            let s = lookup(m.token_series_by_id, id).unwrap();
            let m2 = mint_model(m, id);
            let s2 = lookup(m2.token_series_by_id, id).unwrap();
            &&& s2.tokens == s.tokens.push(copy_token_id(id, s.tokens.len() + 1))
            &&& s2.tokens.len() <= copies_limit(s2)
            &&& (s.tokens.len() + 1 == copies_limit(s) ==> {
                &&& !s2.is_mintable
                &&& s2.price is None
                &&& mint_error(m2, id) == Some(ContractError::NotMintable)
            })
        }),
{
    let s = lookup(m.token_series_by_id, id).unwrap();
    lemma_upsert_distinct(m.token_series_by_id, id, crate::mint::minted_series(s, id));
    let i = crate::strmap::key_index(m.token_series_by_id, id);
    assert(crate::contract::series_entry_wf(m.token_series_by_id[i]));
    crate::mint::lemma_next_copy_is_new(id, s);
}

/// A sale splits the price exactly between the seller and the vault, and the
/// vault takes 5% of it, rounded down.
pub proof fn law_sale_splits_price(seller: Seq<char>, vault: Seq<char>, price: u128)
    requires
        price < MAX_PRICE,
    ensures
        ({
            let p = sale_payouts(seller, vault, price);
            &&& p[0].0 == seller && p[1].0 == vault
            &&& p[0].1 + p[1].1 == price
            &&& p[1].1 == price * 500 / 10_000
            &&& p[1].1 <= price
        }),
{
    assert(vault_fee(price) == price * 500 / 10_000);
    assert(0 <= price * 500 / 10_000 <= price) by (nonlinear_arith)
        requires
            price >= 0,
    ;
}

/// Buying a series gives the buyer its next copy, numbered one past the
/// copies minted so far, records it in the series, and pays its creator.
pub proof fn law_buying_a_series_mints_the_next_copy(m: ContractModel, attached_deposit: u128, id: Seq<char>, receiver: Seq<char>, issued_at: u64)
    requires
        m.wf(),
        count_colons(id) == 0,
        buy_error(m, attached_deposit, id) is None,
    ensures
        ({
            let s = lookup(m.token_series_by_id, id).unwrap();
            let o = buy_outcome(m, id, receiver, issued_at);
            let m2 = buy_model(m, id);
            &&& o.token_id == copy_token_id(id, s.tokens.len() + 1)
            &&& o.minted matches Some(t) && t.owner_id == receiver && t.token_id == o.token_id
            &&& lookup(m2.token_series_by_id, id).unwrap().tokens.contains(o.token_id)
            &&& o.payouts[0].0 == s.creator_id
            &&& o.deposit_spent == s.price.unwrap()
        }),
{
    let s = lookup(m.token_series_by_id, id).unwrap();
    let m1 = with_sale(m, s.creator_id);
    assert(lookup(m1.token_series_by_id, id) == lookup(m.token_series_by_id, id));
    assert(mint_error(m1, id) is None);
    let tid = copy_token_id(id, s.tokens.len() + 1);
    lemma_upsert_distinct(m1.token_series_by_id, id, crate::mint::minted_series(s, id));
    if !s.tokens.contains(tid) {
        assert(set_insert(s.tokens, tid)[s.tokens.len() as int] == tid);
    }
}

/// A review that was just left is among the reviews of the token's series.
pub proof fn law_review_is_found(m: ContractModel, signer: Seq<char>, token_id: Seq<char>, token_owner: Option<Seq<char>>, review: Seq<char>, critics: i8)
    requires
        m.wf(),
        review_error(m, signer, token_id, token_owner) is None,
    ensures
        ({
            let rv = ReviewModel { user_id: signer, review, critics };
            reviews_of(review_model(m, token_id, rv), token_id) matches Ok(rs) && rs.contains(rv)
        }),
{
    let rv = ReviewModel { user_id: signer, review, critics };
    let sid = first_part(token_id);
    let s = lookup(m.token_series_by_id, sid).unwrap();
    let s2 = crate::types::TokenSeriesModel { reviews: set_insert(s.reviews, rv), ..s };
    lemma_upsert_distinct(m.token_series_by_id, sid, s2);
    if !s.reviews.contains(rv) {
        assert(set_insert(s.reviews, rv)[s.reviews.len() as int] == rv);
    }
}

/// Recording an operation counts it, counts a sale exactly when the price
/// is positive, and appends it to the history of the series.
pub proof fn law_transaction_counts(m: ContractModel, token_id: Seq<char>, owner: Seq<char>, price: u128, date: u64)
    requires
        m.wf(),
        crate::activity::transaction_error(m, token_id, price) is None,
    ensures
        ({
            let t2 = lookup(transaction_model(m, token_id, owner, price, date).transaction, token_id).unwrap();
            let ops = match lookup(m.transaction, token_id) {
                Some(t) => t.operations as int,
                None => 0,
            };
            let sales = match lookup(m.transaction, token_id) {
                Some(t) => t.sales as int,
                None => 0,
            };
            let history_len = match lookup(m.transaction, token_id) {
                Some(t) => t.operation_history.len() as int,
                None => 0,
            };
            &&& t2.operations == ops + 1
            &&& t2.sales == sales + (if price > 0 { 1int } else { 0int })
            &&& t2.operation_history.len() == history_len + 1
            &&& t2.operation_history.last().owner_id == owner
            &&& t2.operation_history.last().price == price
            &&& t2.operation_history.last().date == date
        }),
{
    let m2 = transaction_model(m, token_id, owner, price, date);
    let t2 = lookup(m2.transaction, token_id).unwrap();
    match lookup(m.transaction, token_id) {
        Some(t) => {
            let sale: int = if price > 0 { 1 } else { 0 };
            let entry = crate::types::OperationHistoryModel { owner_id: owner, price, date };
            lemma_upsert_distinct(m.transaction, token_id, crate::types::TransactionJsonModel {
                operations: (t.operations + 1) as i128,
                sales: (t.sales + sale) as i128,
                operation_history: t.operation_history.push(entry),
                ..t
            });
        },
        None => {
            let sale: int = if price > 0 { 1 } else { 0 };
            let entry = crate::types::OperationHistoryModel { owner_id: owner, price, date };
            lemma_upsert_distinct(m.transaction, token_id, crate::types::TransactionJsonModel {
                token_id,
                operations: 1,
                sales: sale as i128,
                operation_history: seq![entry],
            });
        },
    }
}

/// A page holds the items from `start` on, in order, as many as the limit
/// allows and no more than remain.
pub proof fn law_page_is_a_window<T>(s: Seq<T>, start: nat, limit: nat)
    ensures
        ({
            let p = page(s, start, limit);
            &&& start < s.len() ==> p.len() == (if s.len() - start <= limit { s.len() - start } else { limit as int })
            &&& start >= s.len() ==> p.len() == 0
            &&& forall|i: int| 0 <= i < p.len() ==> p[i] == s[start + i]
        }),
{
}


/// A stored series is at the position of its id: the series at position
/// `i` has id `i + 1`.
proof fn lemma_series_key_position(m: ContractModel, k: Seq<char>)
    requires
        m.wf(),
        has_key(m.token_series_by_id, k),
    ensures
        m.token_series_by_id[key_index(m.token_series_by_id, k)].0 == k,
        k == decimal((key_index(m.token_series_by_id, k) + 1) as nat),
        count_colons(k) == 0,
{
    let j = key_index(m.token_series_by_id, k);
    assert(m.token_series_by_id[j].0 == decimal((j + 1) as nat));
    lemma_decimal_no_colon((j + 1) as nat);
}

/// Series are stored under "1", "2", ... in the order of their creation:
/// the series at position `i` has id `i + 1`; creating a series is never
/// refused as a duplicate; and it only appends the new series under the
/// next id, leaving the other series and every other part of the state as
/// it was.
pub proof fn law_series_ids_are_consecutive(
    m: ContractModel,
    signer: Seq<char>,
    metadata: TokenMetadataModel,
    category: Seq<i128>,
    price: Option<u128>,
    royalty: Option<Seq<(Seq<char>, u32)>>,
)
    requires
        m.wf(),
    ensures
        forall|i: int| 0 <= i < m.token_series_by_id.len() ==> #[trigger] m.token_series_by_id[i].0 == decimal((i + 1) as nat),
        nft_series_error(m, signer, metadata, category, price, royalty) != Some(ContractError::DuplicateSeries),
        nft_series_error(m, signer, metadata, category, price, royalty) is None ==> {
            let m2 = nft_series_model(m, signer, metadata, category, price, royalty);
            &&& m2.token_series_by_id == m.token_series_by_id.push(
                (next_series_id(m), new_series(m, signer, metadata, category, price, royalty)),
            )
            &&& next_series_id(m) == decimal((m.token_series_by_id.len() + 1) as nat)
            &&& count_colons(next_series_id(m)) == 0
            &&& m2.categories == m.categories
            &&& m2.administrators == m.administrators
            &&& m2.transaction == m.transaction
            &&& m2.profile == m.profile
            &&& m2.vault_id == m.vault_id
            &&& m2.metadata == m.metadata
        },
{
    let n = m.token_series_by_id.len();
    let id = next_series_id(m);
    if has_key(m.token_series_by_id, id) {
        lemma_series_key_position(m, id);
        let j = key_index(m.token_series_by_id, id);
        assert(0 <= j < n);
        lemma_decimal_injective((j + 1) as nat, (n + 1) as nat);
        assert(false);
    }
    crate::series::lemma_royalty_error_kinds(royalty_of(royalty), 0);
    lemma_decimal_no_colon((n + 1) as nat);
}

/// Storing `v` under a key that holds `v` already changes nothing.
proof fn lemma_upsert_same<M>(s: Seq<(Seq<char>, M)>, k: Seq<char>, v: M)
    requires
        keys_distinct(s),
        lookup(s, k) == Some(v),
    ensures
        upsert(s, k, v) == s,
{
    let i = key_index(s, k);
    assert(s[i].0 == k);
    assert(upsert(s, k, v) =~= s);
}

/// Setting the same price on the same id a second time is accepted, returns
/// the price again, and leaves the state as the first call left it.
pub proof fn law_same_price_twice(
    m: ContractModel,
    predecessor: Seq<char>,
    id: Seq<char>,
    price: Option<u128>,
    token_owner: Option<Seq<char>>,
)
    requires
        m.wf(),
        price_error(m, predecessor, 1, id, price, token_owner) is None,
    ensures
        ({
            let m1 = price_model(m, id, price, token_owner);
            &&& price_error(m1, predecessor, 1, id, price, token_owner) is None
            &&& price_model(m1, id, price, token_owner) == m1
        }),
{
    let m1 = price_model(m, id, price, token_owner);
    let sid = first_part(id);
    let s = lookup(m.token_series_by_id, sid).unwrap();
    if count_colons(id) == 0 {
        lemma_no_colon(id, 0);
        assert(id.subrange(0, id.len() as int) =~= id);
        assert(sid == id);
        let s1 = TokenSeriesModel { price, ..s };
        lemma_upsert_distinct(m.token_series_by_id, id, s1);
        assert(lookup(m1.token_series_by_id, id) == Some(s1));
        assert(TokenSeriesModel { price, ..s1 } == s1);
        lemma_upsert_same(m1.token_series_by_id, id, s1);
    } else {
        assert(m1.token_series_by_id == m.token_series_by_id);
    }
    let owner = if count_colons(id) == 0 { s.creator_id } else { token_owner.unwrap() };
    match price {
        None => {
            lemma_swap_delete_distinct(m.marketplace, id);
            assert(swap_delete(m1.marketplace, id) == m1.marketplace);
        },
        Some(p) => {
            let e1 = match lookup(m.marketplace, id) {
                Some(e) => MarketJsonModel { price: p, ..e },
                None => MarketJsonModel {
                    token_series_id: id,
                    metadata: s.metadata,
                    owner_id: owner,
                    creator_id: s.creator_id,
                    price: p,
                    category: s.category,
                    royalty: s.royalty,
                },
            };
            lemma_upsert_distinct(m.marketplace, id, e1);
            assert(lookup(m1.marketplace, id) == Some(e1));
            assert(MarketJsonModel { price: p, ..e1 } == e1);
            lemma_upsert_same(m1.marketplace, id, e1);
        },
    }
    assert(price_model(m1, id, price, token_owner) =~= m1);
}

/// Every operation record counts the entries of its history as operations
/// and those at a positive price as sales; recording an operation on an id
/// that names no series is refused.
pub proof fn law_operation_counters_match_history(m: ContractModel, k: Seq<char>, price: u128)
    requires
        m.wf(),
    ensures
        has_key(m.transaction, k) ==> {
            let t = lookup(m.transaction, k).unwrap();
            &&& t.token_id == k
            &&& t.operations == t.operation_history.len()
            &&& t.sales == priced_count(t.operation_history)
        },
        !has_key(m.token_series_by_id, k) ==> crate::activity::transaction_error(m, k, price) == Some(ContractError::SeriesNotFound),
{
    if has_key(m.transaction, k) {
        let i = key_index(m.transaction, k);
        assert(transaction_entry_wf(m.transaction[i]));
    }
}

/// With no start and no limit, the offers of a category are the market's
/// offers narrowed to that category, in the market's order.
pub proof fn law_category_market_is_narrowed_market(m: ContractModel, category: i128)
    requires
        m.wf(),
        m.marketplace.len() <= u64::MAX,
    ensures
        ({
            let kept = market_views(m).filter(|x: MarketViewModel| market_filter_holds(MarketFilter::Category(category), x));
            &&& page(kept, start_of(None), limit_of(None)) == kept
            &&& get_market_model(m, None, None, None, Some(category), None, None) == kept
        }),
{
    let all = market_views(m);
    let f = |x: MarketViewModel| market_filter_holds(MarketFilter::Category(category), x);
    let kept = all.filter(f);
    all.lemma_filter_len(f);
    assert(page(all, 0, u64::MAX as nat) =~= all);
    assert(page(kept, 0, u64::MAX as nat) =~= kept);
}

/// A page of series lists them in creation order: its `i`-th series has id
/// `start + i + 1` and is the series stored under that id.
pub proof fn law_series_pages_in_creation_order(m: ContractModel, start: nat, limit: nat)
    requires
        m.wf(),
    ensures
        ({
            let all = Seq::new(m.token_series_by_id.len(), |i: int| series_json(m.token_series_by_id[i]));
            let p = page(all, start, limit);
            forall|i: int| 0 <= i < p.len() ==> {
                &&& #[trigger] p[i].token_series_id == decimal((start + i + 1) as nat)
                &&& p[i] == series_json((decimal((start + i + 1) as nat), lookup(m.token_series_by_id, decimal((start + i + 1) as nat)).unwrap()))
            }
        }),
{
    let all = Seq::new(m.token_series_by_id.len(), |i: int| series_json(m.token_series_by_id[i]));
    let p = page(all, start, limit);
    assert forall|i: int| 0 <= i < p.len() implies {
        &&& #[trigger] p[i].token_series_id == decimal((start + i + 1) as nat)
        &&& p[i] == series_json((decimal((start + i + 1) as nat), lookup(m.token_series_by_id, decimal((start + i + 1) as nat)).unwrap()))
    } by {
        let j = start + i;
        assert(p[i] == all[j]);
        assert(m.token_series_by_id[j].0 == decimal((j + 1) as nat));
        lemma_key_index_unique(m.token_series_by_id, decimal((j + 1) as nat), j);
    }
}

/// The reviews looked up by a copy's id `<series>:<t>` are those of its
/// series, whether or not that copy exists.
pub proof fn law_reviews_of_copy_are_reviews_of_series(m: ContractModel, series_id: Seq<char>, t: Seq<char>)
    requires
        m.wf(),
        has_key(m.token_series_by_id, series_id),
        count_colons(t) == 0,
    ensures
        reviews_of(m, series_id + seq![':'] + t) == reviews_of(m, series_id),
{
    lemma_series_key_position(m, series_id);
    lemma_copy_id_parts(series_id, t);
    lemma_no_colon(series_id, 0);
    assert(series_id.subrange(0, series_id.len() as int) =~= series_id);
}

/// What is fixed of a series once it exists: it stays, with its metadata,
/// creator and royalties.
pub open spec fn series_identity_kept(m1: ContractModel, m2: ContractModel) -> bool {
    forall|k: Seq<char>| #[trigger] has_key(m1.token_series_by_id, k) ==> {
        &&& has_key(m2.token_series_by_id, k)
        &&& lookup(m2.token_series_by_id, k).unwrap().metadata == lookup(m1.token_series_by_id, k).unwrap().metadata
        &&& lookup(m2.token_series_by_id, k).unwrap().creator_id == lookup(m1.token_series_by_id, k).unwrap().creator_id
        &&& lookup(m2.token_series_by_id, k).unwrap().royalty == lookup(m1.token_series_by_id, k).unwrap().royalty
    }
}

proof fn lemma_upsert_keeps_identity(m: ContractModel, k: Seq<char>, v: TokenSeriesModel)
    requires
        m.wf(),
        has_key(m.token_series_by_id, k) ==> {
            let old = lookup(m.token_series_by_id, k).unwrap();
            v.metadata == old.metadata && v.creator_id == old.creator_id && v.royalty == old.royalty
        },
    ensures
        series_identity_kept(m, ContractModel { token_series_by_id: upsert(m.token_series_by_id, k, v), ..m }),
{
    lemma_upsert_distinct(m.token_series_by_id, k, v);
    let m2 = ContractModel { token_series_by_id: upsert(m.token_series_by_id, k, v), ..m };
    assert forall|k2: Seq<char>| #[trigger] has_key(m.token_series_by_id, k2) implies {
        &&& has_key(m2.token_series_by_id, k2)
        &&& lookup(m2.token_series_by_id, k2).unwrap().metadata == lookup(m.token_series_by_id, k2).unwrap().metadata
        &&& lookup(m2.token_series_by_id, k2).unwrap().creator_id == lookup(m.token_series_by_id, k2).unwrap().creator_id
        &&& lookup(m2.token_series_by_id, k2).unwrap().royalty == lookup(m.token_series_by_id, k2).unwrap().royalty
    } by {
        if k2 != k {
            assert(lookup(m2.token_series_by_id, k2) == lookup(m.token_series_by_id, k2));
        }
    }
}

/// Once a series exists, no operation removes it or changes its metadata,
/// creator or royalties: not creating another series, minting, pricing,
/// reviewing, buying, nor recording an operation (administrators and
/// categories leave the series untouched altogether).
pub proof fn law_series_identity_is_fixed(
    m: ContractModel,
    signer: Seq<char>,
    id: Seq<char>,
    metadata: TokenMetadataModel,
    category: Seq<i128>,
    price: Option<u128>,
    royalty: Option<Seq<(Seq<char>, u32)>>,
    token_owner: Option<Seq<char>>,
    review: ReviewModel,
    attached_deposit: u128,
    owner: Seq<char>,
    amount: u128,
    date: u64,
)
    requires
        m.wf(),
    ensures
        nft_series_error(m, signer, metadata, category, price, royalty) is None
            ==> series_identity_kept(m, nft_series_model(m, signer, metadata, category, price, royalty)),
        mint_error(m, id) is None ==> series_identity_kept(m, mint_model(m, id)),
        price_error(m, signer, 1, id, price, token_owner) is None ==> series_identity_kept(m, price_model(m, id, price, token_owner)),
        crate::activity::review_error(m, signer, id, token_owner) is None ==> series_identity_kept(m, review_model(m, id, review)),
        buy_error(m, attached_deposit, id) is None ==> series_identity_kept(m, buy_model(m, id)),
        series_identity_kept(m, transaction_model(m, id, owner, amount, date)),
{
    if nft_series_error(m, signer, metadata, category, price, royalty) is None {
        law_series_ids_are_consecutive(m, signer, metadata, category, price, royalty);
        lemma_upsert_keeps_identity(m, next_series_id(m), new_series(m, signer, metadata, category, price, royalty));
    }
    if mint_error(m, id) is None {
        let s = lookup(m.token_series_by_id, id).unwrap();
        lemma_upsert_keeps_identity(m, id, crate::mint::minted_series(s, id));
    }
    if price_error(m, signer, 1, id, price, token_owner) is None {
        if count_colons(id) == 0 {
            lemma_no_colon(id, 0);
            assert(id.subrange(0, id.len() as int) =~= id);
            let s = lookup(m.token_series_by_id, first_part(id)).unwrap();
            lemma_upsert_keeps_identity(m, id, TokenSeriesModel { price, ..s });
            let m1 = ContractModel { token_series_by_id: upsert(m.token_series_by_id, id, TokenSeriesModel { price, ..s }), ..m };
            assert(price_model(m, id, price, token_owner).token_series_by_id == m1.token_series_by_id);
        }
    }
    if crate::activity::review_error(m, signer, id, token_owner) is None {
        let sid = first_part(id);
        let s = lookup(m.token_series_by_id, sid).unwrap();
        lemma_upsert_keeps_identity(m, sid, TokenSeriesModel { reviews: set_insert(s.reviews, review), ..s });
    }
    if buy_error(m, attached_deposit, id) is None && count_colons(id) == 0 {
        let s = lookup(m.token_series_by_id, id).unwrap();
        let m1 = with_sale(m, s.creator_id);
        crate::market::lemma_with_sale_keeps_series(m, s.creator_id);
        assert(lookup(m1.token_series_by_id, id) == Some(s));
        lemma_upsert_keeps_identity(m1, id, crate::mint::minted_series(s, id));
    }
}


/// A state-changing request, with the values it is made with. The calls
/// on administrators and categories are taken together: they change the
/// administrators and the categories and nothing else.
pub enum Call {
    CreateSeries {
        signer: Seq<char>,
        metadata: TokenMetadataModel,
        category: Seq<i128>,
        price: Option<u128>,
        royalty: Option<Seq<(Seq<char>, u32)>>,
    },
    Mint { id: Seq<char> },
    SetPrice { signer: Seq<char>, deposit: u128, id: Seq<char>, price: Option<u128>, token_owner: Option<Seq<char>> },
    Review { signer: Seq<char>, id: Seq<char>, token_owner: Option<Seq<char>>, review: ReviewModel },
    Buy { deposit: u128, id: Seq<char> },
    Record { id: Seq<char>, owner: Seq<char>, amount: u128, date: u64 },
    Administration,
}

/// `m2` is what the request `c` leaves of `m`: its effect when it is
/// accepted, `m` itself when it is refused.
pub open spec fn call_result(m: ContractModel, c: Call, m2: ContractModel) -> bool {
    match c {
        Call::CreateSeries { signer, metadata, category, price, royalty } => m2 == (
            if nft_series_error(m, signer, metadata, category, price, royalty) is None {
                nft_series_model(m, signer, metadata, category, price, royalty)
            } else {
                m
            }),
        Call::Mint { id } => m2 == (if mint_error(m, id) is None { mint_model(m, id) } else { m }),
        Call::SetPrice { signer, deposit, id, price, token_owner } => m2 == (
            if price_error(m, signer, deposit, id, price, token_owner) is None {
                price_model(m, id, price, token_owner)
            } else {
                m
            }),
        Call::Review { signer, id, token_owner, review } => m2 == (
            if crate::activity::review_error(m, signer, id, token_owner) is None {
                review_model(m, id, review)
            } else {
                m
            }),
        Call::Buy { deposit, id } => m2 == (if buy_error(m, deposit, id) is None { buy_model(m, id) } else { m }),
        Call::Record { id, owner, amount, date } => m2 == (
            if crate::activity::transaction_error(m, id, amount) is None {
                transaction_model(m, id, owner, amount, date)
            } else {
                m
            }),
        Call::Administration => m2 == (ContractModel { administrators: m2.administrators, categories: m2.categories, ..m }),
    }
}

/// A run: each state is well formed (as every operation leaves it) and is
/// what the call before it left of the state before.
pub open spec fn is_run(states: Seq<ContractModel>, calls: Seq<Call>) -> bool {
    &&& states.len() == calls.len() + 1
    &&& forall|i: int| 0 <= i < states.len() ==> #[trigger] states[i].wf()
    &&& forall|i: int| 0 <= i < calls.len() ==> call_result(states[i], #[trigger] calls[i], states[i + 1])
}

proof fn lemma_identity_kept_refl(m: ContractModel)
    ensures
        series_identity_kept(m, m),
{
}

proof fn lemma_identity_kept_trans(m1: ContractModel, m2: ContractModel, m3: ContractModel)
    requires
        series_identity_kept(m1, m2),
        series_identity_kept(m2, m3),
    ensures
        series_identity_kept(m1, m3),
{
    assert forall|k: Seq<char>| #[trigger] has_key(m1.token_series_by_id, k) implies {
        &&& has_key(m3.token_series_by_id, k)
        &&& lookup(m3.token_series_by_id, k).unwrap().metadata == lookup(m1.token_series_by_id, k).unwrap().metadata
        &&& lookup(m3.token_series_by_id, k).unwrap().creator_id == lookup(m1.token_series_by_id, k).unwrap().creator_id
        &&& lookup(m3.token_series_by_id, k).unwrap().royalty == lookup(m1.token_series_by_id, k).unwrap().royalty
    } by {
        assert(has_key(m2.token_series_by_id, k));
    }
}

proof fn lemma_call_keeps_identity(m: ContractModel, c: Call, m2: ContractModel)
    requires
        m.wf(),
        call_result(m, c, m2),
    ensures
        series_identity_kept(m, m2),
{
    let e: Seq<char> = Seq::empty();
    let md = arbitrary::<TokenMetadataModel>();
    let rv = arbitrary::<ReviewModel>();
    match c {
        Call::CreateSeries { signer, metadata, category, price, royalty } => {
            law_series_identity_is_fixed(m, signer, e, metadata, category, price, royalty, None, rv, 0, e, 0, 0);
        },
        Call::Mint { id } => {
            law_series_identity_is_fixed(m, e, id, md, Seq::empty(), None, None, None, rv, 0, e, 0, 0);
        },
        Call::SetPrice { signer, deposit, id, price, token_owner } => {
            law_series_identity_is_fixed(m, signer, id, md, Seq::empty(), price, None, token_owner, rv, 0, e, 0, 0);
        },
        Call::Review { signer, id, token_owner, review } => {
            law_series_identity_is_fixed(m, signer, id, md, Seq::empty(), None, None, token_owner, review, 0, e, 0, 0);
        },
        Call::Buy { deposit, id } => {
            law_series_identity_is_fixed(m, e, id, md, Seq::empty(), None, None, None, rv, deposit, e, 0, 0);
        },
        Call::Record { id, owner, amount, date } => {
            law_series_identity_is_fixed(m, e, id, md, Seq::empty(), None, None, None, rv, 0, owner, amount, date);
        },
        Call::Administration => {},
    }
    if m2 == m {
        lemma_identity_kept_refl(m);
    }
}

proof fn lemma_run_keeps_identity(states: Seq<ContractModel>, calls: Seq<Call>, j: int)
    requires
        is_run(states, calls),
        0 <= j < states.len(),
    ensures
        series_identity_kept(states[0], states[j]),
    decreases j,
{
    if j == 0 {
        lemma_identity_kept_refl(states[0]);
    } else {
        lemma_run_keeps_identity(states, calls, j - 1);
        assert(states[j - 1].wf());
        assert(call_result(states[j - 1], calls[j - 1], states[j]));
        lemma_call_keeps_identity(states[j - 1], calls[j - 1], states[j]);
        lemma_identity_kept_trans(states[0], states[j - 1], states[j]);
    }
}

/// A series read back after any run of later calls is the series that its
/// creation returned: every series of the first state is still stored, with
/// the same metadata, creator and royalties, in the last; and when the first
/// call creates a series, the last state shows, under the returned id, the
/// same series view that creation returned.
pub proof fn law_series_read_back(states: Seq<ContractModel>, calls: Seq<Call>)
    requires
        is_run(states, calls),
    ensures
        series_identity_kept(states[0], states.last()),
        calls.len() > 0 ==> match calls[0] {
            Call::CreateSeries { signer, metadata, category, price, royalty } =>
                nft_series_error(states[0], signer, metadata, category, price, royalty) is None ==> {
                    let id = next_series_id(states[0]);
                    &&& has_key(states.last().token_series_by_id, id)
                    &&& series_json((id, lookup(states.last().token_series_by_id, id).unwrap())) == TokenSeriesJsonModel {
                        token_series_id: id,
                        metadata,
                        creator_id: signer,
                        royalty: royalty_of(royalty),
                    }
                },
            _ => true,
        },
{
    lemma_run_keeps_identity(states, calls, states.len() - 1);
    if calls.len() > 0 {
        match calls[0] {
            Call::CreateSeries { signer, metadata, category, price, royalty } => {
                if nft_series_error(states[0], signer, metadata, category, price, royalty) is None {
                    let m = states[0];
                    let id = next_series_id(m);
                    assert(call_result(states[0], calls[0], states[1]));
                    law_series_ids_are_consecutive(m, signer, metadata, category, price, royalty);
                    let s1 = states[1].token_series_by_id;
                    assert(s1[s1.len() - 1].0 == id);
                    assert(has_key(s1, id));
                    crate::strmap::lemma_key_index_unique(s1, id, s1.len() - 1);
                    let st = states.drop_first();
                    let cs = calls.drop_first();
                    assert forall|i: int| 0 <= i < st.len() implies #[trigger] st[i].wf() by {
                        assert(st[i] == states[i + 1]);
                    }
                    assert forall|i: int| 0 <= i < cs.len() implies call_result(st[i], #[trigger] cs[i], st[i + 1]) by {
                        assert(cs[i] == calls[i + 1]);
                        assert(call_result(states[i + 1], calls[i + 1], states[i + 2]));
                    }
                    lemma_run_keeps_identity(st, cs, st.len() - 1);
                    assert(states.drop_first()[0] == states[1]);
                    assert(states.drop_first().last() == states.last());
                }
            },
            _ => {},
        }
    }
}


/// A token shows the approvals that the ledger holds for it (none when it
/// holds none), its id and its owner; a token that is no copy of a stored
/// series is shown with the ledger's metadata as it is.
pub proof fn law_token_shows_ledger(
    m: ContractModel,
    token_id: Seq<char>,
    owner: Seq<char>,
    approvals: Option<Seq<(Seq<char>, u64)>>,
    token_metadata: Option<TokenMetadataModel>,
)
    ensures
        ({
            let t = token_view(m, token_id, owner, approvals, token_metadata);
            &&& t.token_id == token_id
            &&& t.owner_id == owner
            &&& t.approved_account_ids == Some(match approvals {
                Some(a) => a,
                None => Seq::<(Seq<char>, u64)>::empty(),
            })
            &&& !is_series_copy(m, token_id) ==> token_error(m, token_id, token_metadata) is None && t.metadata == token_metadata
        }),
{
}


/// A copy "<series>:<n>" of a stored series is titled with the series'
/// title, " #" and its own copy number `n`, and takes the series'
/// reference, media and copies; the rest of its metadata is the ledger's.
/// So two copies of one series with different numbers get different titles.
pub proof fn law_copy_title_names_its_copy(
    m: ContractModel,
    series_id: Seq<char>,
    n: Seq<char>,
    owner: Seq<char>,
    approvals: Option<Seq<(Seq<char>, u64)>>,
    md: TokenMetadataModel,
)
    requires
        m.wf(),
        has_key(m.token_series_by_id, series_id),
        count_colons(n) == 0,
    ensures
        ({
            let s = lookup(m.token_series_by_id, series_id).unwrap();
            let t = token_view(m, series_id + seq![':'] + n, owner, approvals, Some(md));
            &&& token_error(m, series_id + seq![':'] + n, Some(md)) is None
            &&& t.metadata matches Some(tm) && {
                &&& tm.title == Some(s.metadata.title.unwrap() + TITLE_DELIMETER@ + n)
                &&& tm.reference == s.metadata.reference
                &&& tm.media == s.metadata.media
                &&& tm.copies == s.metadata.copies
                &&& tm.description == md.description
                &&& tm.issued_at == md.issued_at
            }
        }),
{
    lemma_series_key_position(m, series_id);
    lemma_copy_id_parts(series_id, n);
}

/// Leaving a review keeps every review the series had and adds the new one:
/// the list grows by exactly that review when it is new, and is unchanged
/// when the same review was already there. No other series changes.
pub proof fn law_reviews_accumulate(
    m: ContractModel,
    signer: Seq<char>,
    token_id: Seq<char>,
    token_owner: Option<Seq<char>>,
    rv: ReviewModel,
)
    requires
        m.wf(),
        review_error(m, signer, token_id, token_owner) is None,
    ensures
        ({
            let m2 = review_model(m, token_id, rv);
            &&& reviews_of(m, token_id) matches Ok(before)
            &&& reviews_of(m2, token_id) matches Ok(after)
            &&& forall|r: ReviewModel| before.contains(r) ==> after.contains(r)
            &&& after.contains(rv)
            &&& forall|r: ReviewModel| after.contains(r) ==> before.contains(r) || r == rv
            &&& !before.contains(rv) ==> after.len() == before.len() + 1 && after.subrange(0, before.len() as int) == before
            &&& before.contains(rv) ==> after == before
            &&& forall|k: Seq<char>| k != first_part(token_id) ==> lookup(m2.token_series_by_id, k) == lookup(m.token_series_by_id, k)
        }),
{
    let sid = first_part(token_id);
    let s = lookup(m.token_series_by_id, sid).unwrap();
    let s2 = TokenSeriesModel { reviews: set_insert(s.reviews, rv), ..s };
    lemma_upsert_distinct(m.token_series_by_id, sid, s2);
    let before = s.reviews;
    let after = s2.reviews;
    if !before.contains(rv) {
        assert(after == before.push(rv));
        assert(after[before.len() as int] == rv);
        assert(after.subrange(0, before.len() as int) =~= before);
        assert forall|r: ReviewModel| before.contains(r) implies after.contains(r) by {
            let i = choose|i: int| 0 <= i < before.len() && before[i] == r;
            assert(after[i] == r);
        }
        assert forall|r: ReviewModel| after.contains(r) implies before.contains(r) || r == rv by {
            let i = choose|i: int| 0 <= i < after.len() && after[i] == r;
            if i < before.len() {
                assert(before[i] == r);
            }
        }
    }
}

proof fn lemma_refine_keeps_owner(s: Seq<MarketViewModel>, f: Option<MarketFilter>, st: nat, l: nat, o: Seq<char>)
    requires
        forall|i: int| 0 <= i < s.len() ==> #[trigger] s[i].owner_id == o,
    ensures
        ({
            let r = crate::views::refine(s, f, st, l);
            forall|i: int| 0 <= i < r.len() ==> #[trigger] r[i].owner_id == o
        }),
{
    match f {
        Some(g) => {
            let pred = |v: MarketViewModel| market_filter_holds(g, v);
            let fs = s.filter(pred);
            assert forall|i: int| 0 <= i < fs.len() implies #[trigger] fs[i].owner_id == o by {
                assert(fs.contains(fs[i]));
                s.lemma_filter_contains_rev(pred, fs[i]);
                let j = choose|j: int| 0 <= j < s.len() && s[j] == fs[i];
                assert(s[j].owner_id == o);
            }
            let r = page(fs, st, l);
            law_page_is_a_window(fs, st, l);
            assert forall|i: int| 0 <= i < r.len() implies #[trigger] r[i].owner_id == o by {
                assert(r[i] == fs[st + i]);
            }
        },
        None => {},
    }
}

/// Asking the market for the offers of owner `o` gives only offers whose
/// owner is `o`, whatever else narrows the request; with nothing else
/// narrowing it and no paging, it gives exactly the offers whose owner is
/// `o`, in the market's order.
pub proof fn law_owner_filter_gives_owners_offers(
    m: ContractModel,
    token: Option<String>,
    o: String,
    creator_id: Option<String>,
    category: Option<i128>,
    from_index: Option<u128>,
    limit: Option<u64>,
)
    ensures
        ({
            let r = get_market_model(m, token, Some(o), creator_id, category, from_index, limit);
            forall|i: int| 0 <= i < r.len() ==> #[trigger] r[i].owner_id == o@
        }),
        m.marketplace.len() <= u64::MAX ==> get_market_model(m, None, Some(o), None, None, None, None)
            == market_views(m).filter(|v: MarketViewModel| v.owner_id == o@),
{
    let st = start_of(from_index);
    let l = limit_of(limit);
    let r0 = page(market_views(m), st, l);
    let r1 = crate::views::refine(r0, crate::views::token_filter(token), st, l);
    let pred = |v: MarketViewModel| market_filter_holds(MarketFilter::Owner(o), v);
    let fs = r1.filter(pred);
    assert forall|i: int| 0 <= i < fs.len() implies #[trigger] fs[i].owner_id == o@ by {
        r1.lemma_filter_pred(pred, i);
    }
    let r2 = page(fs, st, l);
    law_page_is_a_window(fs, st, l);
    assert forall|i: int| 0 <= i < r2.len() implies #[trigger] r2[i].owner_id == o@ by {
        assert(r2[i] == fs[st + i]);
    }
    let r3 = crate::views::refine(r2, crate::views::creator_filter(creator_id), st, l);
    lemma_refine_keeps_owner(r2, crate::views::creator_filter(creator_id), st, l, o@);
    lemma_refine_keeps_owner(r3, crate::views::category_filter(category), st, l, o@);
    if m.marketplace.len() <= u64::MAX {
        let all = market_views(m);
        let q = |v: MarketViewModel| v.owner_id == o@;
        assert(pred =~= q);
        all.lemma_filter_len(q);
        assert(page(all, 0, u64::MAX as nat) =~= all);
        assert(page(all.filter(q), 0, u64::MAX as nat) =~= all.filter(q));
    }
}

/// A minted copy of series `id` is the copy numbered one more than the
/// copies so far; its id is "<id>:<number>" and its title is the series'
/// title, " #", the series id, " #" and the copy number, that is, the two
/// parts of its own id in order.
pub proof fn law_minted_copy_title(m: ContractModel, id: Seq<char>, receiver: Seq<char>, issued_at: u64)
    requires
        m.wf(),
        mint_error(m, id) is None,
    ensures
        ({
            let s = lookup(m.token_series_by_id, id).unwrap();
            let k = decimal((s.tokens.len() + 1) as nat);
            let t = crate::mint::minted_token(m, id, receiver, issued_at);
            &&& t.token_id == id + seq![':'] + k
            &&& first_part(t.token_id) == id
            &&& crate::text::second_part(t.token_id) == k
            &&& t.owner_id == receiver
            &&& t.metadata.title == Some(s.metadata.title.unwrap() + TITLE_DELIMETER@ + id + TITLE_DELIMETER@ + k)
            &&& t.metadata.title == Some(
                s.metadata.title.unwrap() + TITLE_DELIMETER@ + first_part(t.token_id) + TITLE_DELIMETER@ + crate::text::second_part(t.token_id),
            )
            &&& t.metadata.issued_at == Some(decimal(issued_at as nat))
            &&& t.metadata.description == s.metadata.description
        }),
{
    lemma_series_key_position(m, id);
    let s = lookup(m.token_series_by_id, id).unwrap();
    lemma_decimal_no_colon((s.tokens.len() + 1) as nat);
    lemma_copy_id_parts(id, decimal((s.tokens.len() + 1) as nat));
}

/// The category ids a series is created with are exactly the ids given,
/// each once.
pub proof fn lemma_category_map_ids(cats: Seq<CategoriesJsonModel>, ids: Seq<i128>, c: i128)
    ensures
        crate::series::has_int_key(category_map(cats, ids), c) <==> ids.contains(c),
    decreases ids.len(),
{
    if ids.len() > 0 {
        lemma_category_map_ids(cats, ids.drop_last(), c);
        let m = category_map(cats, ids.drop_last());
        if ids.drop_last().contains(c) {
            let i = choose|i: int| 0 <= i < ids.drop_last().len() && ids.drop_last()[i] == c;
            assert(ids[i] == c);
        }
        if ids.contains(c) && !ids.drop_last().contains(c) {
            let i = choose|i: int| 0 <= i < ids.len() && ids[i] == c;
            if i < ids.len() - 1 {
                assert(ids.drop_last()[i] == c);
            }
            assert(ids.last() == c);
        }
        if ids.last() == c {
            assert(ids[ids.len() - 1] == c);
        }
        if !crate::series::has_int_key(m, ids.last()) {
            let m2 = m.push((ids.last(), crate::series::category_object(cats, ids.last())));
            assert(m2[m.len() as int].0 == ids.last());
            if crate::series::has_int_key(m, c) {
                let j = choose|j: int| 0 <= j < m.len() && m[j].0 == c;
                assert(m2[j].0 == c);
            }
            if crate::series::has_int_key(m2, c) && c != ids.last() {
                let j = choose|j: int| 0 <= j < m2.len() && m2[j].0 == c;
                assert(m[j].0 == c);
            }
        }
    }
}

/// Asking for the series of category `c` gives, in creation order, exactly
/// the series that have `c` among their category ids; and a series created
/// with `c` among the ids it was given is among them.
pub proof fn law_category_selection(
    m: ContractModel,
    c: i128,
    signer: Seq<char>,
    metadata: TokenMetadataModel,
    category: Seq<i128>,
    price: Option<u128>,
    royalty: Option<Seq<(Seq<char>, u32)>>,
)
    requires
        m.wf(),
    ensures
        crate::catalog::series_selected(m, crate::catalog::SeriesFilter::Category(c))
            == m.token_series_by_id.filter(
                |e: (Seq<char>, TokenSeriesModel)| exists|j: int| 0 <= j < e.1.category.len() && #[trigger] e.1.category[j].0 == c,
            ).map_values(|e: (Seq<char>, TokenSeriesModel)| series_json(e)),
        nft_series_error(m, signer, metadata, category, price, royalty) is None && category.contains(c) ==> {
            let m2 = nft_series_model(m, signer, metadata, category, price, royalty);
            crate::catalog::series_selected(m2, crate::catalog::SeriesFilter::Category(c)).contains(
                series_json((next_series_id(m), new_series(m, signer, metadata, category, price, royalty))),
            )
        },
{
    let p1 = |e: (Seq<char>, TokenSeriesModel)| crate::catalog::series_filter_holds(crate::catalog::SeriesFilter::Category(c), e);
    let p2 = |e: (Seq<char>, TokenSeriesModel)| exists|j: int| 0 <= j < e.1.category.len() && #[trigger] e.1.category[j].0 == c;
    assert(p1 =~= p2);
    if nft_series_error(m, signer, metadata, category, price, royalty) is None && category.contains(c) {
        let m2 = nft_series_model(m, signer, metadata, category, price, royalty);
        law_series_ids_are_consecutive(m, signer, metadata, category, price, royalty);
        let ns = new_series(m, signer, metadata, category, price, royalty);
        let e = (next_series_id(m), ns);
        let s2 = m2.token_series_by_id;
        assert(s2[s2.len() - 1] == e);
        lemma_category_map_ids(m.categories, category, c);
        assert(p1(e));
        s2.lemma_filter_contains(p1, s2.len() - 1);
        let fs = s2.filter(p1);
        let i = choose|i: int| 0 <= i < fs.len() && fs[i] == e;
        let g = |x: (Seq<char>, TokenSeriesModel)| series_json(x);
        assert(fs.map_values(g)[i] == series_json(e));
    }
}


proof fn lemma_refine_keeps(s: Seq<MarketViewModel>, f: Option<MarketFilter>, st: nat, l: nat, q: spec_fn(MarketViewModel) -> bool)
    requires
        forall|i: int| 0 <= i < s.len() ==> q(#[trigger] s[i]),
    ensures
        ({
            let r = crate::views::refine(s, f, st, l);
            forall|i: int| 0 <= i < r.len() ==> q(#[trigger] r[i])
        }),
{
    match f {
        Some(g) => {
            let pred = |v: MarketViewModel| market_filter_holds(g, v);
            let fs = s.filter(pred);
            assert forall|i: int| 0 <= i < fs.len() implies q(#[trigger] fs[i]) by {
                assert(fs.contains(fs[i]));
                s.lemma_filter_contains_rev(pred, fs[i]);
                let j = choose|j: int| 0 <= j < s.len() && s[j] == fs[i];
                assert(q(s[j]));
            }
            let r = page(fs, st, l);
            law_page_is_a_window(fs, st, l);
            assert forall|i: int| 0 <= i < r.len() implies q(#[trigger] r[i]) by {
                assert(r[i] == fs[st + i]);
            }
        },
        None => {},
    }
}

proof fn lemma_refine_meets(s: Seq<MarketViewModel>, g: MarketFilter, st: nat, l: nat)
    ensures
        ({
            let r = crate::views::refine(s, Some(g), st, l);
            forall|i: int| 0 <= i < r.len() ==> market_filter_holds(g, #[trigger] r[i])
        }),
{
    let pred = |v: MarketViewModel| market_filter_holds(g, v);
    let fs = s.filter(pred);
    assert forall|i: int| 0 <= i < fs.len() implies market_filter_holds(g, #[trigger] fs[i]) by {
        s.lemma_filter_pred(pred, i);
    }
    let r = page(fs, st, l);
    law_page_is_a_window(fs, st, l);
    assert forall|i: int| 0 <= i < r.len() implies market_filter_holds(g, #[trigger] r[i]) by {
        assert(r[i] == fs[st + i]);
    }
}

/// Every offer that a market request returns is an offer of the market, and
/// meets each condition the request gives: the token id asked for, the owner
/// asked for, the creator asked for, and the category asked for among its
/// category ids.
pub proof fn law_market_results_meet_every_filter(
    m: ContractModel,
    token: Option<String>,
    owner: Option<String>,
    creator_id: Option<String>,
    category: Option<i128>,
    from_index: Option<u128>,
    limit: Option<u64>,
)
    ensures
        ({
            let r = get_market_model(m, token, owner, creator_id, category, from_index, limit);
            &&& forall|i: int| 0 <= i < r.len() ==> market_views(m).contains(#[trigger] r[i])
            &&& token matches Some(t) ==> forall|i: int| 0 <= i < r.len() ==> #[trigger] r[i].token_series_id == t@
            &&& owner matches Some(o) ==> forall|i: int| 0 <= i < r.len() ==> #[trigger] r[i].owner_id == o@
            &&& creator_id matches Some(c) ==> forall|i: int| 0 <= i < r.len() ==> #[trigger] r[i].creator_id == c@
            &&& category matches Some(c) ==> forall|i: int| #![trigger r[i]] 0 <= i < r.len()
                ==> exists|j: int| 0 <= j < r[i].category.len() && #[trigger] r[i].category[j].0 == c
        }),
{
    let st = start_of(from_index);
    let l = limit_of(limit);
    let all = market_views(m);
    let r0 = page(all, st, l);
    let f1 = crate::views::token_filter(token);
    let f2 = crate::views::owner_filter(owner);
    let f3 = crate::views::creator_filter(creator_id);
    let f4 = crate::views::category_filter(category);
    let r1 = crate::views::refine(r0, f1, st, l);
    let r2 = crate::views::refine(r1, f2, st, l);
    let r3 = crate::views::refine(r2, f3, st, l);
    let r4 = crate::views::refine(r3, f4, st, l);
    let q0 = |v: MarketViewModel| all.contains(v);
    law_page_is_a_window(all, st, l);
    assert forall|i: int| 0 <= i < r0.len() implies q0(#[trigger] r0[i]) by {
        assert(r0[i] == all[st + i]);
    }
    lemma_refine_keeps(r0, f1, st, l, q0);
    lemma_refine_keeps(r1, f2, st, l, q0);
    lemma_refine_keeps(r2, f3, st, l, q0);
    lemma_refine_keeps(r3, f4, st, l, q0);
    if let Some(t) = token {
        let q = |v: MarketViewModel| market_filter_holds(MarketFilter::Token(t), v);
        lemma_refine_meets(r0, MarketFilter::Token(t), st, l);
        lemma_refine_keeps(r1, f2, st, l, q);
        lemma_refine_keeps(r2, f3, st, l, q);
        lemma_refine_keeps(r3, f4, st, l, q);
    }
    if let Some(o) = owner {
        let q = |v: MarketViewModel| market_filter_holds(MarketFilter::Owner(o), v);
        lemma_refine_meets(r1, MarketFilter::Owner(o), st, l);
        lemma_refine_keeps(r2, f3, st, l, q);
        lemma_refine_keeps(r3, f4, st, l, q);
    }
    if let Some(c) = creator_id {
        let q = |v: MarketViewModel| market_filter_holds(MarketFilter::Creator(c), v);
        lemma_refine_meets(r2, MarketFilter::Creator(c), st, l);
        lemma_refine_keeps(r3, f4, st, l, q);
    }
    if let Some(c) = category {
        lemma_refine_meets(r3, MarketFilter::Category(c), st, l);
    }
}

/// Asking for the series of creator `c` gives, in creation order, exactly
/// the series that `c` created.
pub proof fn law_creator_selection(m: ContractModel, c: String)
    ensures
        crate::catalog::series_selected(m, crate::catalog::SeriesFilter::Creator(c))
            == m.token_series_by_id.filter(|e: (Seq<char>, TokenSeriesModel)| e.1.creator_id == c@).map_values(
                |e: (Seq<char>, TokenSeriesModel)| series_json(e),
            ),
{
    let p1 = |e: (Seq<char>, TokenSeriesModel)| crate::catalog::series_filter_holds(crate::catalog::SeriesFilter::Creator(c), e);
    let p2 = |e: (Seq<char>, TokenSeriesModel)| e.1.creator_id == c@;
    assert(p1 =~= p2);
}


/// Buying a listed copy transfers that copy to the buyer (nothing is
/// minted), charges the offer's price, and pays the offer's owner the price
/// less the vault's fee and the vault the fee; the series and the market
/// stay as they were.
pub proof fn law_buying_a_listed_copy(m: ContractModel, attached_deposit: u128, id: Seq<char>, receiver: Seq<char>, issued_at: u64)
    requires
        m.wf(),
        count_colons(id) == 1,
        buy_error(m, attached_deposit, id) is None,
    ensures
        ({
            let e = lookup(m.marketplace, id).unwrap();
            let o = buy_outcome(m, id, receiver, issued_at);
            let m2 = buy_model(m, id);
            &&& has_key(m.marketplace, id)
            &&& o.token_id == id
            &&& o.minted is None
            &&& o.transfer_to == Some(receiver)
            &&& o.deposit_spent == e.price
            &&& e.price <= attached_deposit
            &&& o.payouts.len() == 2
            &&& o.payouts[0].0 == e.owner_id
            &&& o.payouts[1].0 == m.vault_id
            &&& o.payouts[0].1 + o.payouts[1].1 == e.price
            &&& m2.token_series_by_id == m.token_series_by_id
            &&& m2.marketplace == m.marketplace
        }),
{
    let e = lookup(m.marketplace, id).unwrap();
    law_sale_splits_price(e.owner_id, m.vault_id, e.price);
    let i = key_index(m.marketplace, id);
    assert(m.market_entry_wf(m.marketplace[i]));
}

/// A purchase counts one more sale for the seller (the series' creator, or
/// the owner of the listed copy) and leaves every other profile as it was.
pub proof fn law_sale_counts_for_the_seller(m: ContractModel, attached_deposit: u128, id: Seq<char>)
    requires
        m.wf(),
        buy_error(m, attached_deposit, id) is None,
    ensures
        ({
            let seller = if count_colons(id) == 0 {
                lookup(m.token_series_by_id, id).unwrap().creator_id
            } else {
                lookup(m.marketplace, id).unwrap().owner_id
            };
            let m2 = buy_model(m, id);
            &&& has_key(m2.profile, seller)
            &&& lookup(m2.profile, seller).unwrap().sales == lookup(m.profile, seller).unwrap().sales + 1
            &&& forall|k: Seq<char>| k != seller ==> lookup(m2.profile, k) == lookup(m.profile, k)
        }),
{
    let seller = if count_colons(id) == 0 {
        lookup(m.token_series_by_id, id).unwrap().creator_id
    } else {
        lookup(m.marketplace, id).unwrap().owner_id
    };
    let p = lookup(m.profile, seller).unwrap();
    lemma_upsert_distinct(m.profile, seller, crate::types::ProfileModel { sales: (p.sales + 1) as u64, ..p });
}


/// The best sellers are the profiles with at least one sale, in the
/// profiles' order, each shown under its own account with its own count.
pub proof fn law_best_sellers_have_sales(m: ContractModel)
    requires
        m.wf(),
    ensures
        crate::catalog::sellers(m) == m.profile.filter(|e: (Seq<char>, crate::types::ProfileModel)| e.1.sales > 0),
        ({
            let r = crate::catalog::sellers(m).map_values(|e: (Seq<char>, crate::types::ProfileModel)| crate::catalog::profile_json(e));
            forall|i: int| 0 <= i < r.len() ==> {
                &&& #[trigger] r[i].sales > 0
                &&& has_key(m.profile, r[i].user_id)
                &&& lookup(m.profile, r[i].user_id).unwrap().sales == r[i].sales
            }
        }),
{
    let q = |e: (Seq<char>, crate::types::ProfileModel)| e.1.sales > 0;
    let fs = m.profile.filter(q);
    let g = |e: (Seq<char>, crate::types::ProfileModel)| crate::catalog::profile_json(e);
    let r = fs.map_values(g);
    assert forall|i: int| 0 <= i < r.len() implies {
        &&& #[trigger] r[i].sales > 0
        &&& has_key(m.profile, r[i].user_id)
        &&& lookup(m.profile, r[i].user_id).unwrap().sales == r[i].sales
    } by {
        m.profile.lemma_filter_pred(q, i);
        assert(fs.contains(fs[i]));
        m.profile.lemma_filter_contains_rev(q, fs[i]);
        let j = choose|j: int| 0 <= j < m.profile.len() && m.profile[j] == fs[i];
        lemma_key_index_unique(m.profile, fs[i].0, j);
    }
}

/// The market's authors are the accounts with a profile that created some
/// offer of the market, in the profiles' order.
pub proof fn law_market_authors_created_offers(m: ContractModel)
    ensures
        crate::catalog::market_authors(m) == m.profile.filter(
            |e: (Seq<char>, crate::types::ProfileModel)|
                exists|j: int| 0 <= j < m.marketplace.len() && #[trigger] m.marketplace[j].1.creator_id == e.0,
        ).map_values(|e: (Seq<char>, crate::types::ProfileModel)| e.0),
{
    let p1 = |e: (Seq<char>, crate::types::ProfileModel)| crate::catalog::is_market_author(m, e.0);
    let p2 = |e: (Seq<char>, crate::types::ProfileModel)|
        exists|j: int| 0 <= j < m.marketplace.len() && #[trigger] m.marketplace[j].1.creator_id == e.0;
    assert(p1 =~= p2);
}

} // verus!
