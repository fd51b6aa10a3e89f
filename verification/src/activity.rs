//! Reviews of series and the record of operations on them.

use vstd::prelude::*;
use crate::types::{Review, ReviewModel, TokenSeriesModel, OperationHistory, OperationHistoryModel, TransactionJson, TransactionJsonModel, Duplicate};
use crate::strmap::{has_key, upsert, lookup, key_index};
use crate::error::ContractError;
use crate::text::{count_colons, first_part, colon_count, split_first};
use crate::contract::{Contract, ContractModel, series_entry_wf, transaction_entry_wf, priced_count};
use crate::strmap::lemma_key_index_unique;
use crate::mint::{set_insert, lemma_series_update_wf};

verus! {

/// Why leaving a review on the series of token `token_id` is refused;
/// `token_owner` is the owner that the token ledger records for it.
pub open spec fn review_error(
    m: ContractModel,
    signer: Seq<char>,
    token_id: Seq<char>,
    token_owner: Option<Seq<char>>,
) -> Option<ContractError> {
    if count_colons(token_id) != 1 {
        Some(ContractError::InvalidTokenId)
    } else if !has_key(m.token_series_by_id, first_part(token_id)) {
        Some(ContractError::SeriesNotFound)
    } else if token_owner is None {
        Some(ContractError::TokenNotFound)
    } else if token_owner.unwrap() != signer {
        Some(ContractError::NotTokenOwner)
    } else {
        None
    }
}

/// The state after the review joins the reviews of the token's series.
pub open spec fn review_model(m: ContractModel, token_id: Seq<char>, review: ReviewModel) -> ContractModel {
    let sid = first_part(token_id);
    let s = lookup(m.token_series_by_id, sid).unwrap();
    ContractModel {
        token_series_by_id: upsert(m.token_series_by_id, sid, TokenSeriesModel { reviews: set_insert(s.reviews, review), ..s }),
        ..m
    }
}

fn contains_review(v: &Vec<Review>, x: &Review) -> (b: bool)
    ensures
        b == v.deep_view().contains(x.deep_view()),
{
    let mut i: usize = 0;
    while i < v.len()
        invariant
            i <= v.len(),
            forall|j: int| 0 <= j < i ==> v.deep_view()[j] != x.deep_view(),
        decreases v.len() - i,
    {
        if v[i].user_id == x.user_id && v[i].review == x.review && v[i].critics == x.critics {
            assert(v.deep_view()[i as int] == x.deep_view());
            return true;
        }
        i = i + 1;
    }
    false
}

/// Why recording an operation on series `token_id` is refused.
pub open spec fn transaction_error(m: ContractModel, token_id: Seq<char>, price: u128) -> Option<ContractError> {
    if !has_key(m.token_series_by_id, token_id) {
        Some(ContractError::SeriesNotFound)
    } else {
        match lookup(m.transaction, token_id) {
            Some(t) => if t.operations == i128::MAX || (price > 0 && t.sales == i128::MAX) {
                Some(ContractError::ArithmeticOverflow)
            } else {
                None
            },
            None => None,
        }
    }
}

/// The record of series `token_id` after one more operation by `owner` at
/// `price` on `date`: a sale when the price is positive.
pub open spec fn transaction_model(m: ContractModel, token_id: Seq<char>, owner: Seq<char>, price: u128, date: u64) -> ContractModel {
    let entry = OperationHistoryModel { owner_id: owner, price, date };
    let sale: int = if price > 0 { 1 } else { 0 };
    let t = match lookup(m.transaction, token_id) {
        Some(t) => TransactionJsonModel {
            operations: (t.operations + 1) as i128,
            sales: (t.sales + sale) as i128,
            operation_history: t.operation_history.push(entry),
            ..t
        },
        None => TransactionJsonModel {
            token_id,
            operations: 1,
            sales: sale as i128,
            operation_history: seq![entry],
        },
    };
    ContractModel { transaction: upsert(m.transaction, token_id, t), ..m }
}

/// Storing a well-formed operation record keeps the state well formed.
pub proof fn lemma_transaction_upsert_wf(m: ContractModel, k: Seq<char>, t: TransactionJsonModel)
    requires
        m.wf(),
        transaction_entry_wf((k, t)),
    ensures
        (ContractModel { transaction: upsert(m.transaction, k, t), ..m }).wf(),
{
    let m2 = ContractModel { transaction: upsert(m.transaction, k, t), ..m };
    crate::strmap::lemma_upsert_distinct(m.transaction, k, t);
    let u = m2.transaction;
    assert forall|j: int| 0 <= j < u.len() implies transaction_entry_wf(#[trigger] u[j]) by {
        if u[j].0 == k {
            lemma_key_index_unique(u, k, j);
        } else {
            assert(u[j] == m.transaction[j]);
        }
    }
}

impl Contract {
    /// Adds a review by `signer`, who must own the token `token_id` (one
    /// ':'), to the reviews of its series; `token_owner` is the owner that
    /// the token ledger records for the token.
    pub fn set_review(&mut self, signer: &String, review: String, critics: i8, token_id: String, token_owner: Option<String>)
        -> (r: Result<Review, ContractError>)
        requires
            old(self).wf(),
        ensures
            final(self).wf(),
            r is Err <==> review_error(old(self)@, signer@, token_id@, token_owner.deep_view()) is Some,
            r matches Err(e) ==> review_error(old(self)@, signer@, token_id@, token_owner.deep_view()) == Some(e)
                && final(self)@ == old(self)@,
            r matches Ok(v) ==> v.deep_view() == (ReviewModel { user_id: signer@, review: review@, critics })
                && final(self)@ == review_model(old(self)@, token_id@, v.deep_view()),
    {
        let ghost m = self@;
        if colon_count(token_id.as_str()) != 1 {
            return Err(ContractError::InvalidTokenId);
        }
        let series_id = split_first(token_id.as_str());
        let mut token_series = match self.token_series_by_id.get(&series_id) {
            Some(s) => s.duplicate(),
            None => {
                return Err(ContractError::SeriesNotFound);
            },
        };
        let owner_id = match token_owner {
            Some(o) => o,
            None => {
                return Err(ContractError::TokenNotFound);
            },
        };
        if owner_id != *signer {
            return Err(ContractError::NotTokenOwner);
        }
        let data = Review { user_id: signer.clone(), review, critics };
        if !contains_review(&token_series.reviews, &data) {
            let ghost before = token_series.reviews.deep_view();
            token_series.reviews.push(data.duplicate());
            assert(token_series.reviews.deep_view() =~= before.push(data.deep_view()));
        }
        proof {
            let i = key_index(m.token_series_by_id, series_id@);
            assert(series_entry_wf(m.token_series_by_id[i]));
            lemma_series_update_wf(m, series_id@, token_series.deep_view());
        }
        self.token_series_by_id.insert(series_id, token_series);
        Ok(data)
    }

    /// Records an operation on series `token_id` by `owner_id` at `price`
    /// on `date`, counting a sale when the price is positive.
    pub fn transaction_add(&mut self, token_id: String, owner_id: String, price: u128, date: u64) -> (r: Result<bool, ContractError>)
        requires
            old(self).wf(),
        ensures
            final(self).wf(),
            r is Err <==> transaction_error(old(self)@, token_id@, price) is Some,
            r matches Err(e) ==> transaction_error(old(self)@, token_id@, price) == Some(e) && final(self)@ == old(self)@,
            r matches Ok(b) ==> b && final(self)@ == transaction_model(old(self)@, token_id@, owner_id@, price, date),
    {
        let ghost m = self@;
        if self.token_series_by_id.get(&token_id).is_none() {
            return Err(ContractError::SeriesNotFound);
        }
        let sales: i128 = if price > 0 { 1 } else { 0 };
        let entry = OperationHistory { owner_id, price, date };
        match self.transaction.get(&token_id) {
            Some(t) => {
                let mut trans = t.duplicate();
                proof {
                    let i = key_index(m.transaction, token_id@);
                    assert(transaction_entry_wf(m.transaction[i]));
                }
                if trans.operations == i128::MAX || (price > 0 && trans.sales == i128::MAX) {
                    return Err(ContractError::ArithmeticOverflow);
                }
                trans.operations = trans.operations + 1;
                if price > 0 {
                    trans.sales = trans.sales + 1;
                }
                let ghost before = trans.operation_history.deep_view();
                trans.operation_history.push(entry);
                assert(trans.operation_history.deep_view() =~= before.push(entry.deep_view()));
                proof {
                    assert(trans.operation_history.deep_view().drop_last() =~= before);
                    assert(priced_count(trans.operation_history.deep_view()) == priced_count(before) + if price > 0 { 1int } else { 0int });
                    lemma_transaction_upsert_wf(m, token_id@, trans.deep_view());
                }
                self.transaction.insert(token_id, trans);
            },
            None => {
                let mut history: Vec<OperationHistory> = Vec::new();
                history.push(entry);
                assert(history.deep_view() =~= seq![entry.deep_view()]);
                let t = TransactionJson { token_id: token_id.clone(), operations: 1, sales, operation_history: history };
                proof {
                    let h = t.operation_history.deep_view();
                    assert(h.drop_last() =~= Seq::<OperationHistoryModel>::empty());
                    assert(priced_count(h.drop_last()) == 0);
                    assert(priced_count(h) == sales);
                    lemma_transaction_upsert_wf(m, token_id@, t.deep_view());
                }
                self.transaction.insert(token_id, t);
            },
        }
        Ok(true)
    }
}

} // verus!
