//! Listing on the market and buying.

use vstd::prelude::*;
use crate::types::{MarketJson, MarketJsonModel, TokenSeriesModel, ProfileModel, Duplicate};
use crate::strmap::{has_key, upsert, lookup, swap_delete, key_index, lemma_upsert_distinct, lemma_swap_delete_distinct, lemma_key_index_unique};
use crate::error::ContractError;
use crate::text::{count_colons, first_part, colon_count, split_first, lemma_no_colon};
use crate::contract::{Contract, ContractModel, MAX_PRICE, VAULT_FEE, series_entry_wf};
use crate::mint::{MintedToken, MintedTokenModel, mint_error, mint_model, minted_token, lemma_series_update_wf};

verus! {

/// Storing a well-formed offer keeps the state well formed.
pub proof fn lemma_market_upsert_wf(m: ContractModel, k: Seq<char>, e: MarketJsonModel)
    requires
        m.wf(),
        m.market_entry_wf((k, e)),
    ensures
        (ContractModel { marketplace: upsert(m.marketplace, k, e), ..m }).wf(),
{
    let m2 = ContractModel { marketplace: upsert(m.marketplace, k, e), ..m };
    lemma_upsert_distinct(m.marketplace, k, e);
    let t = m2.marketplace;
    assert forall|j: int| 0 <= j < t.len() implies m2.market_entry_wf(#[trigger] t[j]) by {
        if t[j].0 == k {
            lemma_key_index_unique(t, k, j);
        } else {
            if has_key(m.marketplace, k) {
                assert(t[j] == m.marketplace[j]);
            } else {
                assert(j < m.marketplace.len());
                assert(t[j] == m.marketplace[j]);
            }
            assert(m.market_entry_wf(m.marketplace[j]));
        }
    }
}

/// Removing an offer keeps the state well formed.
pub proof fn lemma_market_delete_wf(m: ContractModel, k: Seq<char>)
    requires
        m.wf(),
    ensures
        (ContractModel { marketplace: swap_delete(m.marketplace, k), ..m }).wf(),
{
    let m2 = ContractModel { marketplace: swap_delete(m.marketplace, k), ..m };
    lemma_swap_delete_distinct(m.marketplace, k);
    let t = m2.marketplace;
    if has_key(m.marketplace, k) {
        let i = key_index(m.marketplace, k);
        let n = m.marketplace.len() - 1;
        assert forall|j: int| 0 <= j < t.len() implies m2.market_entry_wf(#[trigger] t[j]) by {
            let sj = if j == i { n } else { j };
            assert(t[j] == m.marketplace[sj]);
            assert(m.market_entry_wf(m.marketplace[sj]));
        }
    }
}

/// Why setting the price of `id` is refused. An id without ':' names a
/// series, whose creator sets its price; an id with one ':' names a minted
/// copy, listed for the owner recorded in the token ledger (`token_owner`).
pub open spec fn price_error(
    m: ContractModel,
    predecessor: Seq<char>,
    attached_deposit: u128,
    id: Seq<char>,
    price: Option<u128>,
    token_owner: Option<Seq<char>>,
) -> Option<ContractError> {
    if attached_deposit != 1 {
        Some(ContractError::NotOneYocto)
    } else if count_colons(id) == 0 {
        match lookup(m.token_series_by_id, id) {
            None => Some(ContractError::SeriesNotFound),
            Some(s) => if s.creator_id != predecessor {
                Some(ContractError::NotCreator)
            } else if !s.is_mintable {
                Some(ContractError::NotMintable)
            } else if price matches Some(p) && p >= MAX_PRICE {
                Some(ContractError::PriceTooHigh)
            } else {
                None
            },
        }
    } else if count_colons(id) == 1 {
        if !has_key(m.token_series_by_id, first_part(id)) {
            Some(ContractError::SeriesNotFound)
        } else if token_owner is None {
            Some(ContractError::TokenNotFound)
        } else if price matches Some(p) && p >= MAX_PRICE {
            Some(ContractError::PriceTooHigh)
        } else {
            None
        }
    } else {
        Some(ContractError::InvalidTokenId)
    }
}

/// The state after setting the price of `id`: a series takes the price
/// itself; then the offer under `id` goes (no price), takes the price, or
/// is created from the series for its owner.
pub open spec fn price_model(
    m: ContractModel,
    id: Seq<char>,
    price: Option<u128>,
    token_owner: Option<Seq<char>>,
) -> ContractModel {
    let series_id = first_part(id);
    let s = lookup(m.token_series_by_id, series_id).unwrap();
    let owner = if count_colons(id) == 0 { s.creator_id } else { token_owner.unwrap() };
    let series = if count_colons(id) == 0 {
        upsert(m.token_series_by_id, id, TokenSeriesModel { price, ..s })
    } else {
        m.token_series_by_id
    };
    let market = match price {
        None => swap_delete(m.marketplace, id),
        Some(p) => match lookup(m.marketplace, id) {
            Some(e) => upsert(m.marketplace, id, MarketJsonModel { price: p, ..e }),
            None => upsert(m.marketplace, id, MarketJsonModel {
                token_series_id: id,
                metadata: s.metadata,
                owner_id: owner,
                creator_id: s.creator_id,
                price: p,
                category: s.category,
                royalty: s.royalty,
            }),
        },
    };
    ContractModel { token_series_by_id: series, marketplace: market, ..m }
}

/// The seller's part of a sale at `price` and the vault's fee, which is
/// `VAULT_FEE` ten-thousandths of the price, rounded down.
pub open spec fn vault_fee(price: u128) -> int {
    price * VAULT_FEE / 10_000
}

/// What a purchase leaves for the caller to do: record the minted copy, or
/// move the listed token to the buyer through the token standard; pay the
/// seller and the vault; and refund what the deposit leaves after the price.
#[derive(Clone, Debug)]
pub struct BuyOutcome {
    pub token_id: String,
    pub minted: Option<MintedToken>,
    pub transfer_to: Option<String>,
    pub payouts: Vec<(String, u128)>,
    pub deposit_spent: u128,
}

pub struct BuyOutcomeModel {
    pub token_id: Seq<char>,
    pub minted: Option<MintedTokenModel>,
    pub transfer_to: Option<Seq<char>>,
    pub payouts: Seq<(Seq<char>, u128)>,
    pub deposit_spent: u128,
}

impl DeepView for BuyOutcome {
    type V = BuyOutcomeModel;

    open spec fn deep_view(&self) -> BuyOutcomeModel {
        BuyOutcomeModel {
            token_id: self.token_id@,
            minted: self.minted.deep_view(),
            transfer_to: self.transfer_to.deep_view(),
            payouts: self.payouts.deep_view(),
            deposit_spent: self.deposit_spent,
        }
    }
}

/// The payouts of a sale at `price`: the seller gets the price less the
/// vault's fee, the vault gets the fee.
pub open spec fn sale_payouts(seller: Seq<char>, vault: Seq<char>, price: u128) -> Seq<(Seq<char>, u128)> {
    seq![(seller, (price - vault_fee(price)) as u128), (vault, vault_fee(price) as u128)]
}

/// The profile of `seller` with one more sale.
pub open spec fn with_sale(m: ContractModel, seller: Seq<char>) -> ContractModel {
    let p = lookup(m.profile, seller).unwrap();
    ContractModel { profile: upsert(m.profile, seller, ProfileModel { sales: (p.sales + 1) as u64, ..p }), ..m }
}

/// Counting a sale leaves the series as they were.
pub proof fn lemma_with_sale_keeps_series(m: ContractModel, seller: Seq<char>)
    requires
        m.wf(),
    ensures
        with_sale(m, seller).token_series_by_id == m.token_series_by_id,
{
}

/// Why buying `id` with `attached_deposit` is refused.
pub open spec fn buy_error(m: ContractModel, attached_deposit: u128, id: Seq<char>) -> Option<ContractError> {
    if count_colons(id) == 0 {
        match lookup(m.token_series_by_id, id) {
            None => Some(ContractError::SeriesNotFound),
            Some(s) => match s.price {
                None => Some(ContractError::NotForSale),
                Some(price) => if attached_deposit < price {
                    Some(ContractError::InsufficientDeposit)
                } else if !has_key(m.profile, s.creator_id) {
                    Some(ContractError::ProfileNotFound)
                } else if lookup(m.profile, s.creator_id).unwrap().sales == u64::MAX {
                    Some(ContractError::ArithmeticOverflow)
                } else {
                    mint_error(with_sale(m, s.creator_id), id)
                },
            },
        }
    } else if count_colons(id) == 1 {
        match lookup(m.marketplace, id) {
            None => Some(ContractError::NotInMarket),
            Some(e) => if attached_deposit < e.price {
                Some(ContractError::InsufficientDeposit)
            } else if !has_key(m.profile, e.owner_id) {
                Some(ContractError::ProfileNotFound)
            } else if lookup(m.profile, e.owner_id).unwrap().sales == u64::MAX {
                Some(ContractError::ArithmeticOverflow)
            } else {
                None
            },
        }
    } else {
        Some(ContractError::InvalidTokenId)
    }
}

/// The state after buying `id`: the seller's sale is counted and, for a
/// series, its next copy is minted.
pub open spec fn buy_model(m: ContractModel, id: Seq<char>) -> ContractModel {
    if count_colons(id) == 0 {
        let s = lookup(m.token_series_by_id, id).unwrap();
        mint_model(with_sale(m, s.creator_id), id)
    } else {
        with_sale(m, lookup(m.marketplace, id).unwrap().owner_id)
    }
}

/// What buying `id` for `receiver` leaves to the caller.
pub open spec fn buy_outcome(m: ContractModel, id: Seq<char>, receiver: Seq<char>, issued_at: u64) -> BuyOutcomeModel {
    if count_colons(id) == 0 {
        let s = lookup(m.token_series_by_id, id).unwrap();
        let price = s.price.unwrap();
        let t = minted_token(with_sale(m, s.creator_id), id, receiver, issued_at);
        BuyOutcomeModel {
            token_id: t.token_id,
            minted: Some(t),
            transfer_to: None,
            payouts: sale_payouts(s.creator_id, m.vault_id, price),
            deposit_spent: price,
        }
    } else {
        let e = lookup(m.marketplace, id).unwrap();
        BuyOutcomeModel {
            token_id: id,
            minted: None,
            transfer_to: Some(receiver),
            payouts: sale_payouts(e.owner_id, m.vault_id, e.price),
            deposit_spent: e.price,
        }
    }
}

impl Contract {
    /// Counts one more sale in the profile of `seller`.
    fn add_sale(&mut self, seller: &String) -> (r: Result<(), ContractError>)
        requires
            old(self).wf(),
        ensures
            final(self).wf(),
            !has_key(old(self)@.profile, seller@) ==> r == Err::<(), ContractError>(ContractError::ProfileNotFound),
            has_key(old(self)@.profile, seller@) && lookup(old(self)@.profile, seller@).unwrap().sales == u64::MAX
                ==> r == Err::<(), ContractError>(ContractError::ArithmeticOverflow),
            has_key(old(self)@.profile, seller@) && lookup(old(self)@.profile, seller@).unwrap().sales < u64::MAX
                ==> r is Ok,
            r is Ok ==> final(self)@ == with_sale(old(self)@, seller@),
            r is Err ==> final(self)@ == old(self)@,
    {
        let mut profile = match self.profile.get(seller) {
            Some(p) => p.duplicate(),
            None => {
                return Err(ContractError::ProfileNotFound);
            },
        };
        if profile.sales == u64::MAX {
            return Err(ContractError::ArithmeticOverflow);
        }
        profile.sales = profile.sales + 1;
        self.profile.insert(seller.clone(), profile);
        Ok(())
    }

    /// Sets or clears the price of a series (its creator only) or of a
    /// minted copy, and keeps the market's offer under that id in step.
    /// Requires a deposit of exactly one yoctoNEAR. `token_owner` is the
    /// owner that the token ledger records for `token_series_id`.
    pub fn put_nft_series_price(
        &mut self,
        predecessor: &String,
        attached_deposit: u128,
        token_series_id: String,
        price: Option<u128>,
        token_owner: Option<String>,
    ) -> (r: Result<Option<u128>, ContractError>)
        requires
            old(self).wf(),
        ensures
            final(self).wf(),
            r is Err <==> price_error(old(self)@, predecessor@, attached_deposit, token_series_id@, price, token_owner.deep_view()) is Some,
            r matches Err(e) ==> price_error(old(self)@, predecessor@, attached_deposit, token_series_id@, price, token_owner.deep_view()) == Some(e)
                && final(self)@ == old(self)@,
            r matches Ok(p) ==> p == price
                && final(self)@ == price_model(old(self)@, token_series_id@, price, token_owner.deep_view()),
    {
        let ghost m = self@;
        let ghost id = token_series_id@;
        if attached_deposit != 1 {
            return Err(ContractError::NotOneYocto);
        }
        let colons = colon_count(token_series_id.as_str());
        let series_key: String;
        let owner: String;
        if colons == 0 {
            proof {
                lemma_no_colon(id, 0);
                assert(id.subrange(0, id.len() as int) =~= id);
            }
            let mut token_series = match self.token_series_by_id.get(&token_series_id) {
                Some(s) => s.duplicate(),
                None => {
                    return Err(ContractError::SeriesNotFound);
                },
            };
            if token_series.creator_id != *predecessor {
                return Err(ContractError::NotCreator);
            }
            owner = token_series.creator_id.clone();
            if !token_series.is_mintable {
                return Err(ContractError::NotMintable);
            }
            match price {
                Some(p) => {
                    if p >= MAX_PRICE {
                        return Err(ContractError::PriceTooHigh);
                    }
                },
                None => {},
            }
            token_series.price = price;
            proof {
                let i = key_index(m.token_series_by_id, id);
                assert(series_entry_wf(m.token_series_by_id[i]));
                lemma_series_update_wf(m, id, token_series.deep_view());
                lemma_upsert_distinct(m.token_series_by_id, id, token_series.deep_view());
            }
            self.token_series_by_id.insert(token_series_id.clone(), token_series);
            series_key = token_series_id.clone();
        } else if colons == 1 {
            series_key = split_first(token_series_id.as_str());
            if self.token_series_by_id.get(&series_key).is_none() {
                return Err(ContractError::SeriesNotFound);
            }
            owner = match &token_owner {
                Some(o) => o.clone(),
                None => {
                    return Err(ContractError::TokenNotFound);
                },
            };
        } else {
            return Err(ContractError::InvalidTokenId);
        }
        let ghost m1 = self@;
        assert(series_key@ == first_part(id));
        let tokenseries = match self.token_series_by_id.get(&series_key) {
            Some(s) => s.duplicate(),
            None => {
                proof {
                    if colons == 1 {
                        assert(false);
                    } else {
                        lemma_upsert_distinct(m.token_series_by_id, id, lookup(m1.token_series_by_id, id).unwrap());
                    }
                }
                return Err(ContractError::SeriesNotFound);
            },
        };
        proof {
            let s = lookup(m.token_series_by_id, first_part(id)).unwrap();
            if colons == 0 {
                assert(m1.token_series_by_id == upsert(m.token_series_by_id, id, TokenSeriesModel { price, ..s }));
                lemma_upsert_distinct(m.token_series_by_id, id, TokenSeriesModel { price, ..s });
            }
            assert(tokenseries.deep_view().metadata == s.metadata);
            assert(tokenseries.deep_view().creator_id == s.creator_id);
            assert(tokenseries.deep_view().royalty == s.royalty);
            assert(tokenseries.deep_view().category == s.category);
        }
        match price {
            None => {
                proof { lemma_market_delete_wf(m1, id); }
                self.marketplace.remove(&token_series_id);
            },
            Some(p) => {
                if p >= MAX_PRICE {
                    return Err(ContractError::PriceTooHigh);
                }
                match self.marketplace.get(&token_series_id) {
                    Some(e) => {
                        let mut market = e.duplicate();
                        market.price = p;
                        proof {
                            let i = key_index(m1.marketplace, id);
                            assert(m1.market_entry_wf(m1.marketplace[i]));
                            assert(m1.market_entry_wf((id, market.deep_view())));
                            lemma_market_upsert_wf(m1, id, market.deep_view());
                        }
                        self.marketplace.insert(token_series_id.clone(), market);
                    },
                    None => {
                        let market = MarketJson {
                            token_series_id: token_series_id.clone(),
                            metadata: tokenseries.metadata.duplicate(),
                            owner_id: owner,
                            creator_id: tokenseries.creator_id.clone(),
                            price: p,
                            category: tokenseries.category.duplicate(),
                            royalty: tokenseries.royalty.duplicate(),
                        };
                        proof {
                            assert(has_key(m1.token_series_by_id, first_part(id)));
                            assert(m1.market_entry_wf((id, market.deep_view())));
                            lemma_market_upsert_wf(m1, id, market.deep_view());
                        }
                        self.marketplace.insert(token_series_id.clone(), market);
                    },
                }
            },
        }
        Ok(price)
    }

    /// Checks that `seller` has a profile whose sale count can grow.
    fn check_seller(&self, seller: &String) -> (r: Result<(), ContractError>)
        requires
            self.wf(),
        ensures
            !has_key(self@.profile, seller@) ==> r == Err::<(), ContractError>(ContractError::ProfileNotFound),
            has_key(self@.profile, seller@) && lookup(self@.profile, seller@).unwrap().sales == u64::MAX
                ==> r == Err::<(), ContractError>(ContractError::ArithmeticOverflow),
            has_key(self@.profile, seller@) && lookup(self@.profile, seller@).unwrap().sales < u64::MAX
                ==> r is Ok,
    {
        match self.profile.get(seller) {
            Some(p) => {
                if p.sales == u64::MAX {
                    Err(ContractError::ArithmeticOverflow)
                } else {
                    Ok(())
                }
            },
            None => Err(ContractError::ProfileNotFound),
        }
    }

    /// Buys a series (minting its next copy for `receiver_id`) or a listed
    /// copy (id with one ':'), with `attached_deposit` covering the price.
    /// The seller's profile counts the sale; the outcome says what the caller
    /// does next: record the copy or transfer the listed token, pay the
    /// seller and the vault, and refund the deposit beyond the price.
    ///
    /// For a listed copy the transfer is the token standard's `nft_transfer`,
    /// which the caller makes with the buyer's call: it asks for exactly one
    /// yoctoNEAR attached and a sender that owns or is approved for the
    /// token, so that transfer fails whenever the price paid is above one
    /// yoctoNEAR, and the whole call with it.
    pub fn nft_buy(&mut self, attached_deposit: u128, token_series_id: String, receiver_id: String, block_timestamp: u64)
        -> (r: Result<BuyOutcome, ContractError>)
        requires
            old(self).wf(),
        ensures
            final(self).wf(),
            r is Err <==> buy_error(old(self)@, attached_deposit, token_series_id@) is Some,
            r matches Err(e) ==> buy_error(old(self)@, attached_deposit, token_series_id@) == Some(e)
                && final(self)@ == old(self)@,
            r matches Ok(o) ==> final(self)@ == buy_model(old(self)@, token_series_id@)
                && o.deep_view() == buy_outcome(old(self)@, token_series_id@, receiver_id@, block_timestamp),
    {
        let ghost m = self@;
        let ghost id = token_series_id@;
        let colons = colon_count(token_series_id.as_str());
        if colons == 0 {
            let (creator, series_price) = match self.token_series_by_id.get(&token_series_id) {
                Some(s) => (s.creator_id.clone(), s.price),
                None => {
                    return Err(ContractError::SeriesNotFound);
                },
            };
            proof {
                let i = key_index(m.token_series_by_id, id);
                assert(series_entry_wf(m.token_series_by_id[i]));
            }
            let price = match series_price {
                Some(p) => p,
                None => {
                    return Err(ContractError::NotForSale);
                },
            };
            if attached_deposit < price {
                return Err(ContractError::InsufficientDeposit);
            }
            match self.check_seller(&creator) {
                Ok(()) => {},
                Err(e) => {
                    return Err(e);
                },
            }
            assert(mint_error(with_sale(m, creator@), id) == mint_error(m, id));
            let minted = match self._nft_mint_series(&token_series_id, receiver_id, block_timestamp) {
                Ok(t) => t,
                Err(e) => {
                    return Err(e);
                },
            };
            let r = self.add_sale(&creator);
            proof {
                assert(r is Ok);
                assert(self@ =~= mint_model(with_sale(m, creator@), id));
                assert(minted.deep_view() == minted_token(with_sale(m, creator@), id, receiver_id@, block_timestamp));
            }
            let for_vault = price * VAULT_FEE / 10_000u128;
            let price_deducted = price - for_vault;
            let mut payouts: Vec<(String, u128)> = Vec::new();
            payouts.push((creator, price_deducted));
            payouts.push((self.vault_id.clone(), for_vault));
            let token_id = minted.token_id.clone();
            let o = BuyOutcome {
                token_id,
                minted: Some(minted),
                transfer_to: None,
                payouts,
                deposit_spent: price,
            };
            assert(o.payouts.deep_view() =~= sale_payouts(creator@, m.vault_id, price));
            Ok(o)
        } else if colons == 1 {
            let (owner, price) = match self.marketplace.get(&token_series_id) {
                Some(e) => (e.owner_id.clone(), e.price),
                None => {
                    return Err(ContractError::NotInMarket);
                },
            };
            proof {
                let i = key_index(m.marketplace, id);
                assert(m.market_entry_wf(m.marketplace[i]));
            }
            if attached_deposit < price {
                return Err(ContractError::InsufficientDeposit);
            }
            match self.add_sale(&owner) {
                Ok(()) => {},
                Err(e) => {
                    return Err(e);
                },
            }
            let for_vault = price * VAULT_FEE / 10_000u128;
            let price_deducted = price - for_vault;
            let mut payouts: Vec<(String, u128)> = Vec::new();
            payouts.push((owner, price_deducted));
            payouts.push((self.vault_id.clone(), for_vault));
            let o = BuyOutcome {
                token_id: token_series_id.clone(),
                minted: None,
                transfer_to: Some(receiver_id),
                payouts,
                deposit_spent: price,
            };
            assert(o.payouts.deep_view() =~= sale_payouts(owner@, m.vault_id, price));
            Ok(o)
        } else {
            Err(ContractError::InvalidTokenId)
        }
    }
}

} // verus!
