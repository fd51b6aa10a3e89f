//! Read-only views: reviews, market offers, series, tokens and sellers.

use vstd::prelude::*;
use crate::types::{MarketJson, MarketJsonModel, MarketView, MarketViewModel, Review, ReviewModel, Duplicate};
use crate::strmap::{has_key, lookup, lemma_key_index_unique};
use crate::error::ContractError;
use crate::text::{count_colons, first_part, colon_count, split_first};
use crate::contract::{Contract, ContractModel};
use crate::series::{has_int_key, has_category};

verus! {

/// The items `start`, `start + 1`, ... of `s`, at most `limit` of them, as
/// `skip(start).take(limit)` gives them.
pub open spec fn page<T>(s: Seq<T>, start: nat, limit: nat) -> Seq<T> {
    if start >= s.len() {
        Seq::empty()
    } else if s.len() - start <= limit {
        s.subrange(start as int, s.len() as int)
    } else {
        s.subrange(start as int, (start + limit) as int)
    }
}

/// The page of `v` from `start`, at most `limit` items.
pub fn page_of<T: Duplicate>(v: &Vec<T>, start: usize, limit: u64) -> (r: Vec<T>)
    ensures
        r.deep_view() == page(v.deep_view(), start as nat, limit as nat),
{
    let mut r: Vec<T> = Vec::new();
    if start >= v.len() {
        assert(r.deep_view() =~= page(v.deep_view(), start as nat, limit as nat));
        return r;
    }
    let remaining = v.len() - start;
    let count: usize = if (remaining as u64) <= limit { remaining } else { limit as usize };
    let mut i: usize = 0;
    while i < count
        invariant
            start < v.len(),
            count <= v.len() - start,
            count == (if v.len() - start <= limit { v.len() - start } else { limit as int }),
            i <= count,
            r.len() == i,
            forall|j: int| 0 <= j < i ==> #[trigger] r@[j].deep_view() == v@[start + j].deep_view(),
        decreases count - i,
    {
        r.push(v[start + i].duplicate());
        i = i + 1;
    }
    assert(r.deep_view() =~= page(v.deep_view(), start as nat, limit as nat));
    r
}

/// The series that `token_id` belongs to: the id itself, or the part before ':'.
pub open spec fn series_of(token_id: Seq<char>) -> Seq<char> {
    first_part(token_id)
}

/// The reviews of the series of `token_id`, or why there are none.
pub open spec fn reviews_of(m: ContractModel, token_id: Seq<char>) -> Result<Seq<ReviewModel>, ContractError> {
    if count_colons(token_id) > 1 {
        Err(ContractError::InvalidTokenId)
    } else {
        match lookup(m.token_series_by_id, series_of(token_id)) {
            None => Err(ContractError::SeriesNotFound),
            Some(s) => Ok(s.reviews),
        }
    }
}

/// An offer with the reviews of its series.
pub open spec fn market_view(m: ContractModel, e: MarketJsonModel) -> MarketViewModel {
    MarketViewModel {
        token_series_id: e.token_series_id,
        metadata: e.metadata,
        owner_id: e.owner_id,
        creator_id: e.creator_id,
        price: e.price,
        category: e.category,
        royalty: e.royalty,
        reviews: reviews_of(m, e.token_series_id)->Ok_0,
    }
}

/// All offers, in the market's order, with their reviews.
pub open spec fn market_views(m: ContractModel) -> Seq<MarketViewModel> {
    Seq::new(m.marketplace.len(), |i: int| market_view(m, m.marketplace[i].1))
}

/// A condition on offers.
pub enum MarketFilter {
    Token(String),
    Owner(String),
    Creator(String),
    Category(i128),
}

pub open spec fn market_filter_holds(f: MarketFilter, v: MarketViewModel) -> bool {
    match f {
        MarketFilter::Token(t) => v.token_series_id == t@,
        MarketFilter::Owner(o) => v.owner_id == o@,
        MarketFilter::Creator(c) => v.creator_id == c@,
        MarketFilter::Category(c) => has_int_key(v.category, c),
    }
}

/// Keeps the offers that meet `f`, then takes the page from `start`.
pub open spec fn refine(s: Seq<MarketViewModel>, f: Option<MarketFilter>, start: nat, limit: nat) -> Seq<MarketViewModel> {
    match f {
        Some(f) => page(s.filter(|v: MarketViewModel| market_filter_holds(f, v)), start, limit),
        None => s,
    }
}

/// The limit a request gives, `u64::MAX` when it gives none.
pub open spec fn limit_of(limit: Option<u64>) -> nat {
    match limit {
        Some(l) => l as nat,
        None => u64::MAX as nat,
    }
}

/// The start index a request gives, 0 when it gives none.
pub open spec fn start_of(from_index: Option<u128>) -> nat {
    match from_index {
        Some(s) => s as nat,
        None => 0,
    }
}

/// Why a page from `from_index` with `limit` over `n` items is refused.
pub open spec fn paging_error(n: nat, from_index: Option<u128>, limit: Option<u64>) -> Option<ContractError> {
    if n <= start_of(from_index) {
        Some(ContractError::OutOfBounds)
    } else if limit_of(limit) == 0 {
        Some(ContractError::ZeroLimit)
    } else {
        None
    }
}

/// Whether `v` meets `f`.
pub fn market_filter_check(f: &MarketFilter, v: &MarketView) -> (b: bool)
    ensures
        b == market_filter_holds(*f, v.deep_view()),
{
    match f {
        MarketFilter::Token(t) => v.token_series_id == *t,
        MarketFilter::Owner(o) => v.owner_id == *o,
        MarketFilter::Creator(c) => v.creator_id == *c,
        MarketFilter::Category(c) => has_category(&v.category, *c),
    }
}

/// The offers of `v` that meet `f`.
pub fn filter_views(v: &Vec<MarketView>, f: &MarketFilter) -> (r: Vec<MarketView>)
    ensures
        r.deep_view() == v.deep_view().filter(|x: MarketViewModel| market_filter_holds(*f, x)),
{
    let ghost p = |x: MarketViewModel| market_filter_holds(*f, x);
    let ghost s = v.deep_view();
    let mut r: Vec<MarketView> = Vec::new();
    let mut i: usize = 0;
    proof {
        reveal_with_fuel(Seq::<_>::filter, 1);
        assert(s.take(0) =~= Seq::<MarketViewModel>::empty());
    }
    while i < v.len()
        invariant
            s == v.deep_view(),
            p == (|x: MarketViewModel| market_filter_holds(*f, x)),
            i <= v.len(),
            r.deep_view() == s.take(i as int).filter(p),
        decreases v.len() - i,
    {
        proof {
            reveal_with_fuel(Seq::<_>::filter, 1);
            assert(s.take(i + 1).drop_last() =~= s.take(i as int));
            assert(s.take(i + 1).last() == s[i as int]);
            assert(s.take(i + 1).filter(p) == (if p(s[i as int]) {
                s.take(i as int).filter(p).push(s[i as int])
            } else {
                s.take(i as int).filter(p)
            }));
        }
        if market_filter_check(f, &v[i]) {
            let ghost before = r.deep_view();
            let ghost raw = r@;
            let x = v[i].duplicate();
            r.push(x);
            assert(r@ == raw.push(x));
            assert(r.deep_view() =~= before.push(s[i as int]));
        }
        i = i + 1;
    }
    assert(s.take(i as int) =~= s);
    r
}

impl Contract {
    /// The reviews of the series of `token_id` (a series id, or a token id
    /// with one ':').
    pub fn nft_review(&self, token_id: &String) -> (r: Result<Vec<Review>, ContractError>)
        requires
            self.wf(),
        ensures
            r is Ok <==> reviews_of(self@, token_id@) is Ok,
            r matches Ok(v) ==> reviews_of(self@, token_id@) == Ok::<Seq<ReviewModel>, ContractError>(v.deep_view()),
            r matches Err(e) ==> reviews_of(self@, token_id@) == Err::<Seq<ReviewModel>, ContractError>(e),
    {
        let colons = colon_count(token_id.as_str());
        if colons > 1 {
            return Err(ContractError::InvalidTokenId);
        }
        let token = split_first(token_id.as_str());
        match self.token_series_by_id.get(&token) {
            Some(s) => Ok(s.reviews.duplicate()),
            None => Err(ContractError::SeriesNotFound),
        }
    }

    /// The offer `e` of the market with the reviews of its series.
    fn market_view_of(&self, e: &MarketJson) -> (r: MarketView)
        requires
            self.wf(),
            count_colons(e.token_series_id@) <= 1,
            has_key(self@.token_series_by_id, first_part(e.token_series_id@)),
        ensures
            r.deep_view() == market_view(self@, e.deep_view()),
    {
        let reviews = match self.nft_review(&e.token_series_id) {
            Ok(v) => v,
            Err(_) => Vec::new(),
        };
        MarketView {
            token_series_id: e.token_series_id.clone(),
            metadata: e.metadata.duplicate(),
            owner_id: e.owner_id.clone(),
            creator_id: e.creator_id.clone(),
            price: e.price,
            category: e.category.duplicate(),
            royalty: e.royalty.duplicate(),
            reviews,
        }
    }

    /// The offer under `token_series_id`, with its reviews.
    pub fn get_market_single(&self, token_series_id: &String) -> (r: Result<MarketView, ContractError>)
        requires
            self.wf(),
        ensures
            r is Err <==> !has_key(self@.marketplace, token_series_id@),
            r matches Err(e) ==> e == ContractError::NotInMarket,
            r matches Ok(v) ==> v.deep_view() == market_view(self@, lookup(self@.marketplace, token_series_id@).unwrap()),
    {
        match self.marketplace.find(token_series_id) {
            Some(i) => {
                proof {
                    lemma_key_index_unique(self@.marketplace, token_series_id@, i as int);
                    assert(self@.market_entry_wf(self@.marketplace[i as int]));
                }
                Ok(self.market_view_of(&self.marketplace.entries[i].1))
            },
            None => Err(ContractError::NotInMarket),
        }
    }

    /// All offers from `start` on, at most `count` of them, with their reviews.
    fn market_views_from(&self, start: usize, limit: u64) -> (r: Vec<MarketView>)
        requires
            self.wf(),
        ensures
            r.deep_view() == page(market_views(self@), start as nat, limit as nat),
    {
        let ghost all = market_views(self@);
        let mut r: Vec<MarketView> = Vec::new();
        let n = self.marketplace.len();
        if start >= n {
            assert(r.deep_view() =~= page(all, start as nat, limit as nat));
            return r;
        }
        let remaining = n - start;
        let count: usize = if (remaining as u64) <= limit { remaining } else { limit as usize };
        let mut i: usize = 0;
        while i < count
            invariant
                self.wf(),
                all == market_views(self@),
                n == self@.marketplace.len(),
                start < n,
                count <= n - start,
                count == (if n - start <= limit { n - start } else { limit as int }),
                i <= count,
                r.len() == i,
                forall|j: int| 0 <= j < i ==> #[trigger] r@[j].deep_view() == all[start + j],
            decreases count - i,
        {
            proof { assert(self@.market_entry_wf(self@.marketplace[start + i])); }
            let v = self.market_view_of(&self.marketplace.entries[start + i].1);
            r.push(v);
            i = i + 1;
        }
        assert(r.deep_view() =~= page(all, start as nat, limit as nat));
        r
    }

    /// Offers, optionally narrowed by token, owner, creator and category.
    /// The first page is taken from all offers; each narrowing then keeps
    /// the offers of the current page that meet it and takes the page from
    /// `from_index` again.
    pub fn get_market(
        &self,
        token: Option<String>,
        owner: Option<String>,
        creator_id: Option<String>,
        category: Option<i128>,
        from_index: Option<u128>,
        limit: Option<u64>,
    ) -> (r: Result<Vec<MarketView>, ContractError>)
        requires
            self.wf(),
        ensures
            r is Err <==> paging_error(self@.marketplace.len(), from_index, limit) is Some,
            r matches Err(e) ==> paging_error(self@.marketplace.len(), from_index, limit) == Some(e),
            r matches Ok(v) ==> v.deep_view() == get_market_model(self@, token, owner, creator_id, category, from_index, limit),
    {
        let start: u128 = match from_index {
            Some(s) => s,
            None => 0,
        };
        if (self.marketplace.len() as u128) <= start {
            return Err(ContractError::OutOfBounds);
        }
        let lim: u64 = match limit {
            Some(l) => l,
            None => u64::MAX,
        };
        if lim == 0 {
            return Err(ContractError::ZeroLimit);
        }
        let start = start as usize;
        let result = self.market_views_from(start, lim);
        let f1 = match token {
            Some(t) => Some(MarketFilter::Token(t)),
            None => None,
        };
        let result = narrow(result, f1, start, lim);
        let f2 = match owner {
            Some(o) => Some(MarketFilter::Owner(o)),
            None => None,
        };
        let result = narrow(result, f2, start, lim);
        let f3 = match creator_id {
            Some(c) => Some(MarketFilter::Creator(c)),
            None => None,
        };
        let result = narrow(result, f3, start, lim);
        let f4 = match category {
            Some(c) => Some(MarketFilter::Category(c)),
            None => None,
        };
        let result = narrow(result, f4, start, lim);
        Ok(result)
    }

    /// The offers in category `category`, paged.
    pub fn get_market_category(&self, category: i128, from_index: Option<u128>, limit: Option<u64>)
        -> (r: Result<Vec<MarketView>, ContractError>)
        requires
            self.wf(),
        ensures
            r is Err <==> paging_error(self@.marketplace.len(), from_index, limit) is Some,
            r matches Err(e) ==> paging_error(self@.marketplace.len(), from_index, limit) == Some(e),
            r matches Ok(v) ==> v.deep_view() == page(
                market_views(self@).filter(|x: MarketViewModel| market_filter_holds(MarketFilter::Category(category), x)),
                start_of(from_index),
                limit_of(limit),
            ),
    {
        let start: u128 = match from_index {
            Some(s) => s,
            None => 0,
        };
        if (self.marketplace.len() as u128) <= start {
            return Err(ContractError::OutOfBounds);
        }
        let lim: u64 = match limit {
            Some(l) => l,
            None => u64::MAX,
        };
        if lim == 0 {
            return Err(ContractError::ZeroLimit);
        }
        let all = self.market_views_from(0, u64::MAX);
        assert(all.deep_view() =~= market_views(self@));
        let f = MarketFilter::Category(category);
        let kept = filter_views(&all, &f);
        Ok(page_of(&kept, start as usize, lim))
    }
}

pub open spec fn token_filter(o: Option<String>) -> Option<MarketFilter> {
    match o {
        Some(t) => Some(MarketFilter::Token(t)),
        None => None,
    }
}

pub open spec fn owner_filter(o: Option<String>) -> Option<MarketFilter> {
    match o {
        Some(t) => Some(MarketFilter::Owner(t)),
        None => None,
    }
}

pub open spec fn creator_filter(o: Option<String>) -> Option<MarketFilter> {
    match o {
        Some(t) => Some(MarketFilter::Creator(t)),
        None => None,
    }
}

pub open spec fn category_filter(o: Option<i128>) -> Option<MarketFilter> {
    match o {
        Some(c) => Some(MarketFilter::Category(c)),
        None => None,
    }
}

/// The offers that `get_market` returns when the request is accepted.
pub open spec fn get_market_model(
    m: ContractModel,
    token: Option<String>,
    owner: Option<String>,
    creator_id: Option<String>,
    category: Option<i128>,
    from_index: Option<u128>,
    limit: Option<u64>,
) -> Seq<MarketViewModel> {
    let st = start_of(from_index);
    let l = limit_of(limit);
    let r0 = page(market_views(m), st, l);
    let r1 = refine(r0, token_filter(token), st, l);
    let r2 = refine(r1, owner_filter(owner), st, l);
    let r3 = refine(r2, creator_filter(creator_id), st, l);
    refine(r3, category_filter(category), st, l)
}

/// Keeps the offers that meet `f` (when there is one) and pages them.
pub fn narrow(v: Vec<MarketView>, f: Option<MarketFilter>, start: usize, limit: u64) -> (r: Vec<MarketView>)
    ensures
        r.deep_view() == refine(v.deep_view(), f, start as nat, limit as nat),
{
    match f {
        Some(f) => {
            let kept = filter_views(&v, &f);
            page_of(&kept, start, limit)
        },
        None => v,
    }
}

} // verus!
