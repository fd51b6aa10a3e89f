//! Views of series, tokens and sellers.

use vstd::prelude::*;
use vstd::string::*;
use crate::types::{TokenSeriesModel, TokenSeriesJson, TokenSeriesJsonModel, TokenMetadata, TokenMetadataModel, Token, TokenModel, Profile, ProfileModel, ProfileJson, ProfileJsonModel, Duplicate};
use crate::strmap::{has_key, lookup, key_index, lemma_key_index_unique};
use crate::error::ContractError;
use crate::text::{count_colons, first_part, second_part, colon_count, split_first, split_second};
use crate::contract::{Contract, ContractModel, TITLE_DELIMETER, series_entry_wf};
use crate::series::{has_int_key, has_category};
use crate::views::{page, page_of, paging_error, start_of, limit_of};

verus! {

/// A stored series as the views show it.
pub open spec fn series_json(e: (Seq<char>, TokenSeriesModel)) -> TokenSeriesJsonModel {
    TokenSeriesJsonModel { token_series_id: e.0, metadata: e.1.metadata, creator_id: e.1.creator_id, royalty: e.1.royalty }
}

/// A condition on series.
pub enum SeriesFilter {
    Creator(String),
    Category(i128),
}

pub open spec fn series_filter_holds(f: SeriesFilter, e: (Seq<char>, TokenSeriesModel)) -> bool {
    match f {
        SeriesFilter::Creator(c) => e.1.creator_id == c@,
        SeriesFilter::Category(c) => has_int_key(e.1.category, c),
    }
}

/// The series that meet `f`, in the order of their ids' creation.
pub open spec fn series_selected(m: ContractModel, f: SeriesFilter) -> Seq<TokenSeriesJsonModel> {
    m.token_series_by_id.filter(|e: (Seq<char>, TokenSeriesModel)| series_filter_holds(f, e)).map_values(
        |e: (Seq<char>, TokenSeriesModel)| series_json(e),
    )
}

/// A profile as the list of best sellers shows it; every field must be present.
pub open spec fn profile_json(e: (Seq<char>, ProfileModel)) -> ProfileJsonModel {
    ProfileJsonModel {
        user_id: e.0,
        name: e.1.name.unwrap(),
        last_name: e.1.last_name.unwrap(),
        pen_name: e.1.pen_name.unwrap(),
        bio: e.1.bio.unwrap(),
        website: e.1.website.unwrap(),
        twitter: e.1.twitter.unwrap(),
        sales: e.1.sales,
        avatar: e.1.avatar.unwrap(),
    }
}

pub open spec fn profile_complete(p: ProfileModel) -> bool {
    &&& p.name is Some
    &&& p.last_name is Some
    &&& p.pen_name is Some
    &&& p.bio is Some
    &&& p.website is Some
    &&& p.twitter is Some
    &&& p.avatar is Some
}

/// The profiles with at least one sale, in the profiles' order.
pub open spec fn sellers(m: ContractModel) -> Seq<(Seq<char>, ProfileModel)> {
    m.profile.filter(|e: (Seq<char>, ProfileModel)| e.1.sales > 0)
}

/// Whether some offer of the market was created by `account`.
pub open spec fn is_market_author(m: ContractModel, account: Seq<char>) -> bool {
    exists|j: int| 0 <= j < m.marketplace.len() && #[trigger] m.marketplace[j].1.creator_id == account
}

/// The accounts with a profile that created an offer of the market, in the profiles' order.
pub open spec fn market_authors(m: ContractModel) -> Seq<Seq<char>> {
    m.profile.filter(|e: (Seq<char>, ProfileModel)| is_market_author(m, e.0)).map_values(
        |e: (Seq<char>, ProfileModel)| e.0,
    )
}

/// Whether `token_id` is a copy of an existing series: "<series>:<n>"
/// with the series stored.
pub open spec fn is_series_copy(m: ContractModel, token_id: Seq<char>) -> bool {
    count_colons(token_id) > 0 && has_key(m.token_series_by_id, first_part(token_id))
}

/// Why the token `token_id` cannot be shown, given what the token ledger
/// holds for it: a copy of a series whose ledger entry has no metadata.
pub open spec fn token_error(m: ContractModel, token_id: Seq<char>, token_metadata: Option<TokenMetadataModel>) -> Option<ContractError> {
    if is_series_copy(m, token_id) && token_metadata is None {
        Some(ContractError::TokenMetadataMissing)
    } else {
        None
    }
}

/// The token as NEP-171 shows it. A copy of a series shows the ledger's
/// metadata titled "<series title> #<copy number>", with the series'
/// reference, media and copies; any other token shows the ledger's metadata
/// as it is. Approvals are those of the ledger, none when it has none.
pub open spec fn token_view(
    m: ContractModel,
    token_id: Seq<char>,
    owner: Seq<char>,
    approvals: Option<Seq<(Seq<char>, u64)>>,
    token_metadata: Option<TokenMetadataModel>,
) -> TokenModel {
    let s = lookup(m.token_series_by_id, first_part(token_id)).unwrap();
    TokenModel {
        token_id,
        owner_id: owner,
        metadata: if is_series_copy(m, token_id) {
            Some(TokenMetadataModel {
                title: Some(s.metadata.title.unwrap() + TITLE_DELIMETER@ + second_part(token_id)),
                reference: s.metadata.reference,
                media: s.metadata.media,
                copies: s.metadata.copies,
                ..token_metadata.unwrap()
            })
        } else {
            token_metadata
        },
        approved_account_ids: Some(match approvals {
            Some(a) => a,
            None => Seq::empty(),
        }),
    }
}

impl Contract {
    fn series_json_at(&self, i: usize) -> (j: TokenSeriesJson)
        requires
            self.wf(),
            i < self@.token_series_by_id.len(),
        ensures
            j.deep_view() == series_json(self@.token_series_by_id[i as int]),
    {
        let e = &self.token_series_by_id.entries[i];
        TokenSeriesJson {
            token_series_id: e.0.clone(),
            metadata: e.1.metadata.duplicate(),
            creator_id: e.1.creator_id.clone(),
            royalty: e.1.royalty.duplicate(),
        }
    }

    /// The series `token_series_id`.
    pub fn get_nft_series_single(&self, token_series_id: &String) -> (r: Result<TokenSeriesJson, ContractError>)
        requires
            self.wf(),
        ensures
            r is Err <==> !has_key(self@.token_series_by_id, token_series_id@),
            r matches Err(e) ==> e == ContractError::SeriesNotFound,
            r matches Ok(j) ==> j.deep_view() == series_json((token_series_id@, lookup(self@.token_series_by_id, token_series_id@).unwrap())),
    {
        match self.token_series_by_id.find(token_series_id) {
            Some(i) => {
                proof { lemma_key_index_unique(self@.token_series_by_id, token_series_id@, i as int); }
                Ok(self.series_json_at(i))
            },
            None => Err(ContractError::SeriesNotFound),
        }
    }

    fn all_series(&self) -> (r: Vec<TokenSeriesJson>)
        requires
            self.wf(),
        ensures
            r.deep_view() == Seq::new(self@.token_series_by_id.len(), |i: int| series_json(self@.token_series_by_id[i])),
    {
        let mut r: Vec<TokenSeriesJson> = Vec::new();
        let mut i: usize = 0;
        while i < self.token_series_by_id.len()
            invariant
                self.wf(),
                i <= self@.token_series_by_id.len(),
                r.len() == i,
                forall|j: int| 0 <= j < i ==> #[trigger] r@[j].deep_view() == series_json(self@.token_series_by_id[j]),
            decreases self@.token_series_by_id.len() - i,
        {
            r.push(self.series_json_at(i));
            i = i + 1;
        }
        assert(r.deep_view() =~= Seq::new(self@.token_series_by_id.len(), |i: int| series_json(self@.token_series_by_id[i])));
        r
    }

    fn selected_series(&self, f: &SeriesFilter) -> (r: Vec<TokenSeriesJson>)
        requires
            self.wf(),
        ensures
            r.deep_view() == series_selected(self@, *f),
    {
        let ghost s = self@.token_series_by_id;
        let ghost p = |e: (Seq<char>, TokenSeriesModel)| series_filter_holds(*f, e);
        let ghost g = |e: (Seq<char>, TokenSeriesModel)| series_json(e);
        let mut r: Vec<TokenSeriesJson> = Vec::new();
        let mut i: usize = 0;
        proof {
            reveal_with_fuel(Seq::<_>::filter, 1);
            assert(s.take(0) =~= Seq::<(Seq<char>, TokenSeriesModel)>::empty());
            assert(r.deep_view() =~= s.take(0).filter(p).map_values(g));
        }
        while i < self.token_series_by_id.len()
            invariant
                self.wf(),
                s == self@.token_series_by_id,
                p == (|e: (Seq<char>, TokenSeriesModel)| series_filter_holds(*f, e)),
                g == (|e: (Seq<char>, TokenSeriesModel)| series_json(e)),
                i <= s.len(),
                r.deep_view() == s.take(i as int).filter(p).map_values(g),
            decreases s.len() - i,
        {
            proof {
                reveal_with_fuel(Seq::<_>::filter, 1);
                assert(s.take(i + 1).drop_last() =~= s.take(i as int));
                assert(s.take(i + 1).last() == s[i as int]);
                assert(s.take(i + 1).filter(p) == (if p(s[i as int]) {
                    s.take(i as int).filter(p).push(s[i as int])
                } else {
                    s.take(i as int).filter(p)
                }));
            }
            let e = &self.token_series_by_id.entries[i];
            let keep = match f {
                SeriesFilter::Creator(c) => e.1.creator_id == *c,
                SeriesFilter::Category(c) => has_category(&e.1.category, *c),
            };
            assert(keep == p(s[i as int]));
            if keep {
                let ghost before = r.deep_view();
                let ghost raw = r@;
                let x = self.series_json_at(i);
                r.push(x);
                assert(r@ == raw.push(x));
                assert(r.deep_view() =~= before.push(g(s[i as int])));
                assert(s.take(i + 1).filter(p).map_values(g) =~= s.take(i as int).filter(p).map_values(g).push(g(s[i as int])));
            } else {
                assert(s.take(i + 1).filter(p).map_values(g) =~= s.take(i as int).filter(p).map_values(g));
            }
            i = i + 1;
        }
        assert(s.take(i as int) =~= s);
        r
    }

    /// The series, paged.
    pub fn get_nft_series(&self, from_index: Option<u128>, limit: Option<u64>) -> (r: Result<Vec<TokenSeriesJson>, ContractError>)
        requires
            self.wf(),
        ensures
            r is Err <==> paging_error(self@.token_series_by_id.len(), from_index, limit) is Some,
            r matches Err(e) ==> paging_error(self@.token_series_by_id.len(), from_index, limit) == Some(e),
            r matches Ok(v) ==> v.deep_view() == page(
                Seq::new(self@.token_series_by_id.len(), |i: int| series_json(self@.token_series_by_id[i])),
                start_of(from_index),
                limit_of(limit),
            ),
    {
        let (start, lim) = match check_paging(self.token_series_by_id.len(), from_index, limit) {
            Ok(p) => p,
            Err(e) => {
                return Err(e);
            },
        };
        let all = self.all_series();
        Ok(page_of(&all, start, lim))
    }

    /// The series created by `creator_id`, paged.
    pub fn get_nft_series_creator(&self, creator_id: String, from_index: Option<u128>, limit: Option<u64>)
        -> (r: Result<Vec<TokenSeriesJson>, ContractError>)
        requires
            self.wf(),
        ensures
            r is Err <==> paging_error(self@.token_series_by_id.len(), from_index, limit) is Some,
            r matches Err(e) ==> paging_error(self@.token_series_by_id.len(), from_index, limit) == Some(e),
            r matches Ok(v) ==> v.deep_view() == page(
                series_selected(self@, SeriesFilter::Creator(creator_id)),
                start_of(from_index),
                limit_of(limit),
            ),
    {
        let (start, lim) = match check_paging(self.token_series_by_id.len(), from_index, limit) {
            Ok(p) => p,
            Err(e) => {
                return Err(e);
            },
        };
        let f = SeriesFilter::Creator(creator_id);
        let kept = self.selected_series(&f);
        Ok(page_of(&kept, start, lim))
    }

    /// The series in category `category`, paged. The creator id plays no part.
    pub fn get_nft_series_category(&self, creator_id: String, category: i128, from_index: Option<u128>, limit: Option<u64>)
        -> (r: Result<Vec<TokenSeriesJson>, ContractError>)
        requires
            self.wf(),
        ensures
            r is Err <==> paging_error(self@.token_series_by_id.len(), from_index, limit) is Some,
            r matches Err(e) ==> paging_error(self@.token_series_by_id.len(), from_index, limit) == Some(e),
            r matches Ok(v) ==> v.deep_view() == page(
                series_selected(self@, SeriesFilter::Category(category)),
                start_of(from_index),
                limit_of(limit),
            ),
    {
        let (start, lim) = match check_paging(self.token_series_by_id.len(), from_index, limit) {
            Ok(p) => p,
            Err(e) => {
                return Err(e);
            },
        };
        let f = SeriesFilter::Category(category);
        let kept = self.selected_series(&f);
        Ok(page_of(&kept, start, lim))
    }

    /// The ids of the minted copies of series `token_series_id`, paged; the
    /// caller looks each of them up with `nft_token`.
    pub fn get_nft_series_copy(&self, token_series_id: &String, from_index: Option<u128>, limit: Option<u64>)
        -> (r: Result<Vec<String>, ContractError>)
        requires
            self.wf(),
        ensures
            !has_key(self@.token_series_by_id, token_series_id@)
                ==> r == Err::<Vec<String>, ContractError>(ContractError::SeriesNotFound),
            has_key(self@.token_series_by_id, token_series_id@) ==> {
                let tokens = lookup(self@.token_series_by_id, token_series_id@).unwrap().tokens;
                &&& (r is Err <==> paging_error(tokens.len(), from_index, limit) is Some)
                &&& (r matches Err(e) ==> paging_error(tokens.len(), from_index, limit) == Some(e))
                &&& (r matches Ok(v) ==> v.deep_view() == page(tokens, start_of(from_index), limit_of(limit)))
            },
    {
        let series = match self.token_series_by_id.get(token_series_id) {
            Some(s) => s,
            None => {
                return Err(ContractError::SeriesNotFound);
            },
        };
        let (start, lim) = match check_paging(series.tokens.len(), from_index, limit) {
            Ok(p) => p,
            Err(e) => {
                return Err(e);
            },
        };
        Ok(page_of(&series.tokens, start, lim))
    }

    /// The accounts with a profile that created an offer of the market.
    pub fn get_author_market(&self) -> (r: Vec<String>)
        requires
            self.wf(),
        ensures
            r.deep_view() == market_authors(self@),
    {
        let ghost m = self@;
        let ghost s = self@.profile;
        let ghost p = |e: (Seq<char>, ProfileModel)| is_market_author(m, e.0);
        let ghost g = |e: (Seq<char>, ProfileModel)| e.0;
        let mut r: Vec<String> = Vec::new();
        let mut i: usize = 0;
        proof {
            reveal_with_fuel(Seq::<_>::filter, 1);
            assert(s.take(0) =~= Seq::<(Seq<char>, ProfileModel)>::empty());
            assert(r.deep_view() =~= s.take(0).filter(p).map_values(g));
        }
        while i < self.profile.len()
            invariant
                m == self@,
                s == self@.profile,
                p == (|e: (Seq<char>, ProfileModel)| is_market_author(m, e.0)),
                g == (|e: (Seq<char>, ProfileModel)| e.0),
                i <= s.len(),
                r.deep_view() == s.take(i as int).filter(p).map_values(g),
            decreases s.len() - i,
        {
            proof {
                reveal_with_fuel(Seq::<_>::filter, 1);
                assert(s.take(i + 1).drop_last() =~= s.take(i as int));
                assert(s.take(i + 1).last() == s[i as int]);
                assert(s.take(i + 1).filter(p) == (if p(s[i as int]) {
                    s.take(i as int).filter(p).push(s[i as int])
                } else {
                    s.take(i as int).filter(p)
                }));
            }
            let k = &self.profile.entries[i].0;
            let mut found = false;
            let mut j: usize = 0;
            while j < self.marketplace.len()
                invariant
                    m == self@,
                    j <= m.marketplace.len(),
                    found == exists|q: int| 0 <= q < j && #[trigger] m.marketplace[q].1.creator_id == k@,
                decreases m.marketplace.len() - j,
            {
                if self.marketplace.entries[j].1.creator_id == *k {
                    assert(m.marketplace[j as int].1.creator_id == k@);
                    found = true;
                } else {
                    assert(m.marketplace[j as int].1.creator_id != k@);
                }
                j = j + 1;
            }
            assert(found == p(s[i as int]));
            if found {
                let ghost before = r.deep_view();
                let x = k.clone();
                r.push(x);
                assert(r.deep_view() =~= before.push(g(s[i as int])));
                assert(s.take(i + 1).filter(p).map_values(g) =~= s.take(i as int).filter(p).map_values(g).push(g(s[i as int])));
            } else {
                assert(s.take(i + 1).filter(p).map_values(g) =~= s.take(i as int).filter(p).map_values(g));
            }
            i = i + 1;
        }
        assert(s.take(i as int) =~= s);
        r
    }
}

/// Checks a page request over `n` items and gives its start and limit.
pub fn check_paging(n: usize, from_index: Option<u128>, limit: Option<u64>) -> (r: Result<(usize, u64), ContractError>)
    ensures
        r is Err <==> paging_error(n as nat, from_index, limit) is Some,
        r matches Err(e) ==> paging_error(n as nat, from_index, limit) == Some(e),
        r matches Ok(p) ==> p.0 == start_of(from_index) && p.1 == limit_of(limit),
{
    let start: u128 = match from_index {
        Some(s) => s,
        None => 0,
    };
    if (n as u128) <= start {
        return Err(ContractError::OutOfBounds);
    }
    let lim: u64 = match limit {
        Some(l) => l,
        None => u64::MAX,
    };
    if lim == 0 {
        return Err(ContractError::ZeroLimit);
    }
    Ok((start as usize, lim))
}

/// A profile that lacks a field.
pub open spec fn some_seller_incomplete(m: ContractModel) -> bool {
    exists|i: int| 0 <= i < m.profile.len() && #[trigger] m.profile[i].1.sales > 0 && !profile_complete(m.profile[i].1)
}

fn complete_profile_json(k: &String, p: &Profile) -> (r: Option<ProfileJson>)
    ensures
        r is Some <==> profile_complete(p.deep_view()),
        r matches Some(j) ==> j.deep_view() == profile_json((k@, p.deep_view())),
{
    match (&p.name, &p.last_name, &p.pen_name, &p.bio, &p.website, &p.twitter, &p.avatar) {
        (Some(name), Some(last_name), Some(pen_name), Some(bio), Some(website), Some(twitter), Some(avatar)) => Some(
            ProfileJson {
                user_id: k.clone(),
                name: name.clone(),
                last_name: last_name.clone(),
                pen_name: pen_name.clone(),
                bio: bio.clone(),
                website: website.clone(),
                twitter: twitter.clone(),
                sales: p.sales,
                avatar: avatar.clone(),
            },
        ),
        _ => None,
    }
}

impl Contract {
    /// The profiles with at least one sale; every such profile must be complete.
    #[allow(non_snake_case)]
    pub fn get_Best_sellers(&self) -> (r: Result<Vec<ProfileJson>, ContractError>)
        requires
            self.wf(),
        ensures
            r is Err <==> some_seller_incomplete(self@),
            r matches Err(e) ==> e == ContractError::ProfileIncomplete,
            r matches Ok(v) ==> v.deep_view() == sellers(self@).map_values(|e: (Seq<char>, ProfileModel)| profile_json(e)),
    {
        let ghost m = self@;
        let ghost s = self@.profile;
        let ghost p = |e: (Seq<char>, ProfileModel)| e.1.sales > 0;
        let ghost g = |e: (Seq<char>, ProfileModel)| profile_json(e);
        let mut r: Vec<ProfileJson> = Vec::new();
        let mut i: usize = 0;
        proof {
            reveal_with_fuel(Seq::<_>::filter, 1);
            assert(s.take(0) =~= Seq::<(Seq<char>, ProfileModel)>::empty());
            assert(r.deep_view() =~= s.take(0).filter(p).map_values(g));
        }
        while i < self.profile.len()
            invariant
                m == self@,
                s == self@.profile,
                p == (|e: (Seq<char>, ProfileModel)| e.1.sales > 0),
                g == (|e: (Seq<char>, ProfileModel)| profile_json(e)),
                i <= s.len(),
                r.deep_view() == s.take(i as int).filter(p).map_values(g),
                forall|j: int| 0 <= j < i ==> !(#[trigger] s[j].1.sales > 0 && !profile_complete(s[j].1)),
            decreases s.len() - i,
        {
            proof {
                reveal_with_fuel(Seq::<_>::filter, 1);
                assert(s.take(i + 1).drop_last() =~= s.take(i as int));
                assert(s.take(i + 1).last() == s[i as int]);
                assert(s.take(i + 1).filter(p) == (if p(s[i as int]) {
                    s.take(i as int).filter(p).push(s[i as int])
                } else {
                    s.take(i as int).filter(p)
                }));
            }
            let e = &self.profile.entries[i];
            if e.1.sales > 0 {
                let j = match complete_profile_json(&e.0, &e.1) {
                    Some(j) => j,
                    None => {
                        assert(s[i as int].1.sales > 0 && !profile_complete(s[i as int].1));
                        return Err(ContractError::ProfileIncomplete);
                    },
                };
                let ghost before = r.deep_view();
                r.push(j);
                assert(r.deep_view() =~= before.push(g(s[i as int])));
                assert(s.take(i + 1).filter(p).map_values(g) =~= s.take(i as int).filter(p).map_values(g).push(g(s[i as int])));
            } else {
                assert(s.take(i + 1).filter(p).map_values(g) =~= s.take(i as int).filter(p).map_values(g));
            }
            i = i + 1;
        }
        assert(s.take(i as int) =~= s);
        Ok(r)
    }

    /// The token `token_id` (NEP-171), built from what the token ledger holds
    /// for it: its owner (no owner, no token), approvals and metadata.
    pub fn nft_token(
        &self,
        token_id: String,
        owner: Option<String>,
        approvals: Option<Vec<(String, u64)>>,
        token_metadata: Option<TokenMetadata>,
    ) -> (r: Result<Option<Token>, ContractError>)
        requires
            self.wf(),
        ensures
            owner is None ==> r == Ok::<Option<Token>, ContractError>(None),
            owner matches Some(o) ==> {
                &&& (r is Err <==> token_error(self@, token_id@, token_metadata.deep_view()) is Some)
                &&& (r matches Err(e) ==> token_error(self@, token_id@, token_metadata.deep_view()) == Some(e))
                &&& (r matches Ok(t) ==> t is Some && t.unwrap().deep_view() == token_view(
                    self@,
                    token_id@,
                    o@,
                    approvals.deep_view(),
                    token_metadata.deep_view(),
                ))
            },
    {
        let owner_id = match owner {
            Some(o) => o,
            None => {
                return Ok(None);
            },
        };
        let approved: Vec<(String, u64)> = match approvals {
            Some(a) => a,
            None => Vec::new(),
        };
        assert(approved.deep_view() == (match approvals.deep_view() {
            Some(a) => a,
            None => Seq::<(Seq<char>, u64)>::empty(),
        }));
        if colon_count(token_id.as_str()) == 0 {
            return Ok(Some(Token { token_id, owner_id, metadata: token_metadata, approved_account_ids: Some(approved) }));
        }
        let series_id = split_first(token_id.as_str());
        let series = match self.token_series_by_id.get(&series_id) {
            Some(s) => s,
            None => {
                return Ok(Some(Token { token_id, owner_id, metadata: token_metadata, approved_account_ids: Some(approved) }));
            },
        };
        proof {
            let i = key_index(self@.token_series_by_id, series_id@);
            assert(series_entry_wf(self@.token_series_by_id[i]));
        }
        let mut metadata = match token_metadata {
            Some(t) => t,
            None => {
                return Err(ContractError::TokenMetadataMissing);
            },
        };
        let number = split_second(token_id.as_str());
        let mut title = match &series.metadata.title {
            Some(t) => t.clone(),
            None => String::new(),
        };
        title.append(TITLE_DELIMETER);
        title.append(number.as_str());
        metadata.title = Some(title);
        metadata.reference = series.metadata.reference.duplicate();
        metadata.media = series.metadata.media.duplicate();
        metadata.copies = series.metadata.copies;
        Ok(Some(Token { token_id, owner_id, metadata: Some(metadata), approved_account_ids: Some(approved) }))
    }
}

} // verus!
