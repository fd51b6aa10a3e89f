//! Minting a copy of a series.

use vstd::prelude::*;
use vstd::string::*;
use crate::types::{TokenMetadata, TokenMetadataModel, TokenSeriesModel, Duplicate};
use crate::strmap::{has_key, upsert, lookup, lemma_upsert_distinct, key_index};
use crate::error::ContractError;
use crate::text::{decimal, u64_to_decimal};
use crate::contract::{Contract, ContractModel, TITLE_DELIMETER, series_entry_wf, copies_limit, copy_token_id};
use crate::series::lemma_upsert_keeps_keys;

verus! {

/// A token that a mint creates: the caller records it in the token ledger
/// (owner, metadata, tokens per owner).
#[derive(Clone, Debug)]
pub struct MintedToken {
    pub token_id: String,
    pub owner_id: String,
    pub metadata: TokenMetadata,
}

pub struct MintedTokenModel {
    pub token_id: Seq<char>,
    pub owner_id: Seq<char>,
    pub metadata: TokenMetadataModel,
}

impl DeepView for MintedToken {
    type V = MintedTokenModel;

    open spec fn deep_view(&self) -> MintedTokenModel {
        MintedTokenModel { token_id: self.token_id@, owner_id: self.owner_id@, metadata: self.metadata.deep_view() }
    }
}

/// Adds `x` to a sequence used as a set.
pub open spec fn set_insert<T>(s: Seq<T>, x: T) -> Seq<T> {
    if s.contains(x) {
        s
    } else {
        s.push(x)
    }
}

/// Why minting from series `id` is refused.
pub open spec fn mint_error(m: ContractModel, id: Seq<char>) -> Option<ContractError> {
    match lookup(m.token_series_by_id, id) {
        None => Some(ContractError::SeriesNotFound),
        Some(s) => if !s.is_mintable {
            Some(ContractError::NotMintable)
        } else if s.tokens.len() >= copies_limit(s) {
            Some(ContractError::SupplyMaxed)
        } else {
            None
        },
    }
}

/// The series after its next copy is minted: the copy joins its tokens, and
/// once the last allowed copy is minted the series is closed and unpriced.
pub open spec fn minted_series(s: TokenSeriesModel, id: Seq<char>) -> TokenSeriesModel {
    let n = s.tokens.len();
    let closes = n + 1 >= copies_limit(s);
    TokenSeriesModel {
        tokens: set_insert(s.tokens, copy_token_id(id, n + 1)),
        is_mintable: if closes { false } else { s.is_mintable },
        price: if closes { None } else { s.price },
        ..s
    }
}

/// The metadata of the copy: the series metadata, titled
/// "<series title> #<series id> #<copy number>" and issued at `issued_at`.
pub open spec fn minted_metadata(s: TokenSeriesModel, id: Seq<char>, issued_at: u64) -> TokenMetadataModel {
    let n = s.tokens.len();
    TokenMetadataModel {
        title: Some(s.metadata.title.unwrap() + TITLE_DELIMETER@ + id + TITLE_DELIMETER@ + decimal(n + 1)),
        issued_at: Some(decimal(issued_at as nat)),
        ..s.metadata
    }
}

/// The state after minting the next copy of series `id`.
pub open spec fn mint_model(m: ContractModel, id: Seq<char>) -> ContractModel {
    ContractModel {
        token_series_by_id: upsert(m.token_series_by_id, id, minted_series(lookup(m.token_series_by_id, id).unwrap(), id)),
        ..m
    }
}

/// The token that minting the next copy of series `id` creates.
pub open spec fn minted_token(m: ContractModel, id: Seq<char>, receiver: Seq<char>, issued_at: u64) -> MintedTokenModel {
    let s = lookup(m.token_series_by_id, id).unwrap();
    MintedTokenModel {
        token_id: copy_token_id(id, s.tokens.len() + 1),
        owner_id: receiver,
        metadata: minted_metadata(s, id, issued_at),
    }
}

/// Copies with different numbers have different ids.
pub proof fn lemma_copy_token_id_injective(id: Seq<char>, a: nat, b: nat)
    requires
        copy_token_id(id, a) == copy_token_id(id, b),
    ensures
        a == b,
{
    let x = copy_token_id(id, a);
    let y = copy_token_id(id, b);
    assert(x.subrange((id.len() + 1) as int, x.len() as int) =~= decimal(a));
    assert(y.subrange((id.len() + 1) as int, y.len() as int) =~= decimal(b));
    crate::text::lemma_decimal_injective(a, b);
}

/// In a well-formed series the next copy's id is not among its tokens.
pub proof fn lemma_next_copy_is_new(id: Seq<char>, s: TokenSeriesModel)
    requires
        series_entry_wf((id, s)),
    ensures
        !s.tokens.contains(copy_token_id(id, s.tokens.len() + 1)),
{
    if s.tokens.contains(copy_token_id(id, s.tokens.len() + 1)) {
        let j = choose|j: int| 0 <= j < s.tokens.len() && s.tokens[j] == copy_token_id(id, s.tokens.len() + 1);
        assert(s.tokens[j] == copy_token_id(id, (j + 1) as nat));
        lemma_copy_token_id_injective(id, (j + 1) as nat, s.tokens.len() + 1);
    }
}

/// Replacing one entry keeps the other entries' keys and the market well formed.
pub proof fn lemma_series_update_wf(m: ContractModel, id: Seq<char>, s: TokenSeriesModel)
    requires
        m.wf(),
        has_key(m.token_series_by_id, id),
        series_entry_wf((id, s)),
    ensures
        (ContractModel { token_series_by_id: upsert(m.token_series_by_id, id, s), ..m }).wf(),
{
    let m2 = ContractModel { token_series_by_id: upsert(m.token_series_by_id, id, s), ..m };
    let t = m2.token_series_by_id;
    lemma_upsert_distinct(m.token_series_by_id, id, s);
    let i = key_index(m.token_series_by_id, id);
    assert forall|j: int| 0 <= j < t.len() implies series_entry_wf(#[trigger] t[j]) by {
        if j != i {
            assert(t[j] == m.token_series_by_id[j]);
        } else {
            assert(t[j] == (id, s));
        }
    }
    assert forall|j: int| 0 <= j < t.len() implies #[trigger] t[j].0 == crate::text::decimal((j + 1) as nat) by {
        assert(m.token_series_by_id[j].0 == crate::text::decimal((j + 1) as nat));
        if j != i {
            assert(t[j] == m.token_series_by_id[j]);
        } else {
            assert(m.token_series_by_id[i].0 == id);
        }
    }
    assert forall|j: int| 0 <= j < m2.marketplace.len() implies m2.market_entry_wf(#[trigger] m2.marketplace[j]) by {
        assert(m.market_entry_wf(m.marketplace[j]));
        lemma_upsert_keeps_keys(m.token_series_by_id, id, s, crate::text::first_part(m.marketplace[j].0));
    }
}

impl Contract {
    /// Mints the next copy of series `token_series_id` for `receiver_id`,
    /// issued at `block_timestamp`.
    pub(crate) fn _nft_mint_series(&mut self, token_series_id: &String, receiver_id: String, block_timestamp: u64)
        -> (r: Result<MintedToken, ContractError>)
        requires
            old(self).wf(),
        ensures
            final(self).wf(),
            r is Err <==> mint_error(old(self)@, token_series_id@) is Some,
            r matches Err(e) ==> mint_error(old(self)@, token_series_id@) == Some(e) && final(self)@ == old(self)@,
            r matches Ok(t) ==> final(self)@ == mint_model(old(self)@, token_series_id@)
                && t.deep_view() == minted_token(old(self)@, token_series_id@, receiver_id@, block_timestamp),
    {
        let ghost m = self@;
        let ghost id = token_series_id@;
        let mut token_series = match self.token_series_by_id.get(token_series_id) {
            Some(s) => s.duplicate(),
            None => {
                return Err(ContractError::SeriesNotFound);
            },
        };
        let ghost s0 = token_series.deep_view();
        proof {
            let i = key_index(m.token_series_by_id, id);
            assert(series_entry_wf(m.token_series_by_id[i]));
        }
        if !token_series.is_mintable {
            return Err(ContractError::NotMintable);
        }
        let num_tokens = token_series.tokens.len() as u64;
        let max_copies = match token_series.metadata.copies {
            Some(c) => c,
            None => u64::MAX,
        };
        if num_tokens >= max_copies {
            return Err(ContractError::SupplyMaxed);
        }
        if num_tokens + 1 >= max_copies {
            token_series.is_mintable = false;
            token_series.price = None;
        }
        let number = u64_to_decimal(num_tokens + 1);
        let mut token_id = token_series_id.clone();
        proof { reveal_strlit(":"); }
        token_id.append(":");
        token_id.append(number.as_str());
        assert(token_id@ =~= copy_token_id(id, s0.tokens.len() + 1));
        if !crate::contract::contains_string(&token_series.tokens, &token_id) {
            let ghost before = token_series.tokens.deep_view();
            token_series.tokens.push(token_id.clone());
            assert(token_series.tokens.deep_view() =~= before.push(token_id@));
        }
        let mut title = match &token_series.metadata.title {
            Some(t) => t.clone(),
            None => String::new(),
        };
        title.append(TITLE_DELIMETER);
        title.append(token_series_id.as_str());
        title.append(TITLE_DELIMETER);
        title.append(number.as_str());
        let metadata = TokenMetadata {
            title: Some(title),
            description: token_series.metadata.description.duplicate(),
            media: token_series.metadata.media.duplicate(),
            media_hash: token_series.metadata.media_hash.duplicate(),
            copies: token_series.metadata.copies,
            issued_at: Some(u64_to_decimal(block_timestamp)),
            expires_at: token_series.metadata.expires_at.duplicate(),
            starts_at: token_series.metadata.starts_at.duplicate(),
            updated_at: token_series.metadata.updated_at.duplicate(),
            extra: token_series.metadata.extra.duplicate(),
            reference: token_series.metadata.reference.duplicate(),
            reference_hash: token_series.metadata.reference_hash.duplicate(),
        };
        assert(token_series.deep_view() == minted_series(s0, id));
        proof {
            let s1 = minted_series(s0, id);
            assert(s1.tokens.no_duplicates()) by {
                if !s0.tokens.contains(copy_token_id(id, s0.tokens.len() + 1)) {
                    assert forall|a: int, b: int| 0 <= a < s1.tokens.len() && 0 <= b < s1.tokens.len() && a != b
                        implies s1.tokens[a] != s1.tokens[b] by {
                        if a == s0.tokens.len() {
                            assert(s1.tokens[b] == s0.tokens[b]);
                        } else if b == s0.tokens.len() {
                            assert(s1.tokens[a] == s0.tokens[a]);
                        }
                    }
                }
            }
            lemma_series_update_wf(m, id, s1);
        }
        self.token_series_by_id.insert(token_series_id.clone(), token_series);
        Ok(MintedToken { token_id, owner_id: receiver_id, metadata })
    }

    /// Mints the next copy of a series for `receiver_id`; only the series'
    /// creator (the predecessor of the call) may.
    pub fn nft_mint_series(&mut self, predecessor: &String, token_series_id: String, receiver_id: String, block_timestamp: u64)
        -> (r: Result<MintedToken, ContractError>)
        requires
            old(self).wf(),
        ensures
            final(self).wf(),
            !has_key(old(self)@.token_series_by_id, token_series_id@)
                ==> r == Err::<MintedToken, ContractError>(ContractError::SeriesNotFound),
            has_key(old(self)@.token_series_by_id, token_series_id@)
                && lookup(old(self)@.token_series_by_id, token_series_id@).unwrap().creator_id != predecessor@
                ==> r == Err::<MintedToken, ContractError>(ContractError::NotCreator),
            has_key(old(self)@.token_series_by_id, token_series_id@)
                && lookup(old(self)@.token_series_by_id, token_series_id@).unwrap().creator_id == predecessor@
                ==> (r is Err <==> mint_error(old(self)@, token_series_id@) is Some),
            r matches Err(e) ==> final(self)@ == old(self)@,
            r matches Ok(t) ==> final(self)@ == mint_model(old(self)@, token_series_id@)
                && t.deep_view() == minted_token(old(self)@, token_series_id@, receiver_id@, block_timestamp),
    {
        match self.token_series_by_id.get(&token_series_id) {
            Some(s) => {
                if s.creator_id != *predecessor {
                    return Err(ContractError::NotCreator);
                }
            },
            None => {
                return Err(ContractError::SeriesNotFound);
            },
        }
        self._nft_mint_series(&token_series_id, receiver_id, block_timestamp)
    }
}

} // verus!
