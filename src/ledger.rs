//! The ledger: token accounts and offer records, each kept in a table keyed by address.
use vstd::prelude::*;
use crate::table::{
    find_index, keys_equal, lemma_map_of_at, lemma_map_of_push, lemma_map_of_remove, lemma_map_of_update,
    map_of, unique_keys, Key,
};

verus! {

/// Why an operation was refused. A refused operation changes nothing.
#[derive(Clone, Copy, Debug, PartialEq, Eq, Structural)]
pub enum SwapError {
    /// An account or offer already exists at the address (an offer id reused).
    AddressOccupied,
    /// A balance is too low for the requested transfer.
    InsufficientFunds,
    /// A referenced offer or account does not exist.
    NotFound,
    /// The accounts supplied disagree with the offer's recorded relationships.
    Mismatch,
    /// A signature or a derived-authority proof is missing or wrong.
    Unauthorized,
    /// A supplied account has the wrong asset type or owner, or is supplied twice.
    InvalidAccount,
    /// A credited balance would exceed the largest representable amount.
    Overflow,
}

/// A token account: a balance of one asset type, under one authority.
#[derive(Clone, Copy, Debug, PartialEq, Eq)]
pub struct TokenAccount {
    pub mint: Key,
    pub authority: Key,
    pub amount: u64,
}

/// A durable offer record: the maker escrowed some amount of asset A and wants
/// `token_b_wanted_amount` of asset B for it.
#[derive(Clone, Copy, Debug, PartialEq, Eq)]
pub struct Offer {
    pub id: u64,
    pub maker: Key,
    pub token_mint_a: Key,
    pub token_mint_b: Key,
    pub token_b_wanted_amount: u64,
    pub bump: u8,
}

/// The accounts-and-balances store, with the offer registry of the swap program
/// whose identity is `program_id`.
pub struct Ledger {
    pub program_id: Key,
    pub accounts: Vec<(Key, TokenAccount)>,
    pub offers: Vec<(Key, Offer)>,
}

impl Ledger {
    /// Each address holds at most one account and at most one offer.
    pub open spec fn wf(&self) -> bool {
        unique_keys(self.accounts@) && unique_keys(self.offers@)
    }

    /// The token accounts by address.
    pub open spec fn accounts_map(&self) -> Map<Seq<u8>, TokenAccount> {
        map_of(self.accounts@)
    }

    /// The offer records by address.
    pub open spec fn offers_map(&self) -> Map<Seq<u8>, Offer> {
        map_of(self.offers@)
    }

    /// Something already lives at address `k`.
    pub open spec fn occupied(&self, k: Seq<u8>) -> bool {
        self.accounts_map().contains_key(k) || self.offers_map().contains_key(k)
    }

    /// An empty ledger for the swap program `program_id`.
    pub fn new(program_id: Key) -> (r: Ledger)
        ensures
            r.wf(),
            r.program_id == program_id,
            r.accounts_map() == Map::<Seq<u8>, TokenAccount>::empty(),
            r.offers_map() == Map::<Seq<u8>, Offer>::empty(),
    {
        let r = Ledger { program_id, accounts: Vec::new(), offers: Vec::new() };
        assert(r.accounts_map() =~= Map::<Seq<u8>, TokenAccount>::empty());
        assert(r.offers_map() =~= Map::<Seq<u8>, Offer>::empty());
        r
    }

    /// Whether something lives at address `k`.
    pub fn is_occupied(&self, k: &Key) -> (r: bool)
        requires
            self.wf(),
        ensures
            r == self.occupied(k@),
    {
        let a = find_index(&self.accounts, k);
        let o = find_index(&self.offers, k);
        proof {
            if let Some(i) = a {
                lemma_map_of_at(self.accounts@, i as int);
            }
            if let Some(i) = o {
                lemma_map_of_at(self.offers@, i as int);
            }
        }
        a.is_some() || o.is_some()
    }

    /// The token account at `k`, if any.
    pub fn account(&self, k: &Key) -> (r: Option<TokenAccount>)
        requires
            self.wf(),
        ensures
            r == (if self.accounts_map().contains_key(k@) {
                Some(self.accounts_map()[k@])
            } else {
                None
            }),
    {
        match find_index(&self.accounts, k) {
            Some(i) => {
                proof {
                    lemma_map_of_at(self.accounts@, i as int);
                }
                Some(self.accounts[i].1)
            },
            None => None,
        }
    }

    /// The balance of the token account at `k`, if there is one.
    pub fn balance(&self, k: &Key) -> (r: Option<u64>)
        requires
            self.wf(),
        ensures
            r == (if self.accounts_map().contains_key(k@) {
                Some(self.accounts_map()[k@].amount)
            } else {
                None
            }),
    {
        match self.account(k) {
            Some(a) => Some(a.amount),
            None => None,
        }
    }

    /// The offer record at `k`, if any.
    pub fn offer(&self, k: &Key) -> (r: Option<Offer>)
        requires
            self.wf(),
        ensures
            r == (if self.offers_map().contains_key(k@) {
                Some(self.offers_map()[k@])
            } else {
                None
            }),
    {
        match find_index(&self.offers, k) {
            Some(i) => {
                proof {
                    lemma_map_of_at(self.offers@, i as int);
                }
                Some(self.offers[i].1)
            },
            None => None,
        }
    }

    /// Opens a token account at a free address `key`.
    pub fn open_account(&mut self, key: Key, mint: Key, authority: Key, amount: u64) -> (r: Result<(), SwapError>)
        requires
            old(self).wf(),
        ensures
            r == (if old(self).occupied(key@) {
                Err::<(), SwapError>(SwapError::AddressOccupied)
            } else {
                Ok(())
            }),
            r is Err ==> *final(self) == *old(self),
            r is Ok ==> {
                &&& final(self).wf()
                &&& final(self).program_id == old(self).program_id
                &&& final(self).offers_map() == old(self).offers_map()
                &&& final(self).accounts_map() == old(self).accounts_map().insert(
                    key@,
                    TokenAccount { mint, authority, amount },
                )
            },
    {
        if self.is_occupied(&key) {
            return Err(SwapError::AddressOccupied);
        }
        self.put_account(&key, TokenAccount { mint, authority, amount });
        Ok(())
    }

    /// What a transfer of `amount` units of `mint` from `from` to `to`, authorized
    /// by `authority`, returns.
    pub open spec fn transfer_outcome(
        &self,
        from: Key,
        to: Key,
        mint: Key,
        authority: Key,
        amount: u64,
    ) -> Result<(), SwapError> {
        let accts = self.accounts_map();
        if !accts.contains_key(from@) || !accts.contains_key(to@) {
            Err(SwapError::NotFound)
        } else if from@ == to@ || accts[from@].mint@ != mint@ || accts[to@].mint@ != mint@ {
            Err(SwapError::InvalidAccount)
        } else if accts[from@].authority@ != authority@ {
            Err(SwapError::Unauthorized)
        } else if accts[from@].amount < amount {
            Err(SwapError::InsufficientFunds)
        } else if accts[to@].amount + amount > u64::MAX {
            Err(SwapError::Overflow)
        } else {
            Ok(())
        }
    }

    /// Moves `amount` units of asset `mint` from the account `from` to the account
    /// `to`, authorized by `authority`, the authority of `from`.
    pub fn transfer_checked(&mut self, from: &Key, to: &Key, mint: &Key, authority: &Key, amount: u64) -> (r: Result<(), SwapError>)
        requires
            old(self).wf(),
        ensures
            r == old(self).transfer_outcome(*from, *to, *mint, *authority, amount),
            r is Err ==> *final(self) == *old(self),
            r is Ok ==> {
                let src = old(self).accounts_map()[from@];
                let dst = old(self).accounts_map()[to@];
                &&& final(self).wf()
                &&& final(self).program_id == old(self).program_id
                &&& final(self).offers_map() == old(self).offers_map()
                &&& final(self).accounts_map() == old(self).accounts_map().insert(
                    from@,
                    TokenAccount { mint: src.mint, authority: src.authority, amount: (src.amount - amount) as u64 },
                ).insert(
                    to@,
                    TokenAccount { mint: dst.mint, authority: dst.authority, amount: (dst.amount + amount) as u64 },
                )
            },
    {
        let src = match self.account(from) {
            Some(a) => a,
            None => return Err(SwapError::NotFound),
        };
        let dst = match self.account(to) {
            Some(a) => a,
            None => return Err(SwapError::NotFound),
        };
        if keys_equal(from, to) || !keys_equal(&src.mint, mint)
            || !keys_equal(&dst.mint, mint) {
            return Err(SwapError::InvalidAccount);
        }
        if !keys_equal(&src.authority, authority) {
            return Err(SwapError::Unauthorized);
        }
        if src.amount < amount {
            return Err(SwapError::InsufficientFunds);
        }
        if dst.amount > u64::MAX - amount {
            return Err(SwapError::Overflow);
        }
        self.put_account(from, TokenAccount { mint: src.mint, authority: src.authority, amount: src.amount - amount });
        self.put_account(to, TokenAccount { mint: dst.mint, authority: dst.authority, amount: dst.amount + amount });
        Ok(())
    }

    /// What closing the token account `k` on the word of `authority` returns.
    pub open spec fn close_outcome(&self, k: Key, authority: Key) -> Result<(), SwapError> {
        let accts = self.accounts_map();
        if !accts.contains_key(k@) {
            Err(SwapError::NotFound)
        } else if accts[k@].authority@ != authority@ {
            Err(SwapError::Unauthorized)
        } else if accts[k@].amount != 0 {
            Err(SwapError::InvalidAccount)
        } else {
            Ok(())
        }
    }

    /// Closes the empty token account `k`, authorized by `authority`, its authority.
    pub fn close_account(&mut self, k: &Key, authority: &Key) -> (r: Result<(), SwapError>)
        requires
            old(self).wf(),
        ensures
            r == old(self).close_outcome(*k, *authority),
            r is Err ==> *final(self) == *old(self),
            r is Ok ==> {
                &&& final(self).wf()
                &&& final(self).program_id == old(self).program_id
                &&& final(self).offers_map() == old(self).offers_map()
                &&& final(self).accounts_map() == old(self).accounts_map().remove(k@)
            },
    {
        let a = match self.account(k) {
            Some(a) => a,
            None => return Err(SwapError::NotFound),
        };
        if !keys_equal(&a.authority, authority) {
            return Err(SwapError::Unauthorized);
        }
        if a.amount != 0 {
            return Err(SwapError::InvalidAccount);
        }
        self.delete_account(k);
        Ok(())
    }

    /// Writes `v` as the token account at `k`, creating it if absent.
    pub(crate) fn put_account(&mut self, k: &Key, v: TokenAccount)
        requires
            old(self).wf(),
        ensures
            final(self).wf(),
            final(self).program_id == old(self).program_id,
            final(self).offers == old(self).offers,
            final(self).accounts_map() == old(self).accounts_map().insert(k@, v),
    {
        match find_index(&self.accounts, k) {
            Some(i) => {
                let key = self.accounts[i].0;
                proof {
                    lemma_map_of_update(self.accounts@, i as int, v);
                }
                self.accounts.set(i, (key, v));
            },
            None => {
                proof {
                    lemma_map_of_push(self.accounts@, *k, v);
                }
                self.accounts.push((*k, v));
            },
        }
    }

    /// Removes the token account at `k`.
    pub(crate) fn delete_account(&mut self, k: &Key)
        requires
            old(self).wf(),
            old(self).accounts_map().contains_key(k@),
        ensures
            final(self).wf(),
            final(self).program_id == old(self).program_id,
            final(self).offers == old(self).offers,
            final(self).accounts_map() == old(self).accounts_map().remove(k@),
    {
        if let Some(i) = find_index(&self.accounts, k) {
            proof {
                lemma_map_of_remove(self.accounts@, i as int);
            }
            self.accounts.remove(i);
        }
    }

    /// Records the offer `v` at the free offer address `k`.
    pub(crate) fn put_offer(&mut self, k: &Key, v: Offer)
        requires
            old(self).wf(),
            !old(self).offers_map().contains_key(k@),
        ensures
            final(self).wf(),
            final(self).program_id == old(self).program_id,
            final(self).accounts == old(self).accounts,
            final(self).offers_map() == old(self).offers_map().insert(k@, v),
    {
        proof {
            lemma_map_of_push(self.offers@, *k, v);
        }
        self.offers.push((*k, v));
    }

    /// Removes the offer record at `k`.
    pub(crate) fn delete_offer(&mut self, k: &Key)
        requires
            old(self).wf(),
            old(self).offers_map().contains_key(k@),
        ensures
            final(self).wf(),
            final(self).program_id == old(self).program_id,
            final(self).accounts == old(self).accounts,
            final(self).offers_map() == old(self).offers_map().remove(k@),
    {
        if let Some(i) = find_index(&self.offers, k) {
            proof {
                lemma_map_of_remove(self.offers@, i as int);
            }
            self.offers.remove(i);
        }
    }
}

} // verus!
