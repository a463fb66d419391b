//! One client of the ledger: an account and the deposits made into it.

use std::collections::HashMap;
use vstd::prelude::*;
use crate::account::Account;
use crate::record::{Tx, TypeTx};
use crate::wellformed::{
    lemma_chargeback_wf, lemma_dispute_wf, lemma_fresh_wf, lemma_process_wf, lemma_resolve_wf,
    lemma_wf_fits,
};
use crate::state::{ClientState, ClientTransaction};

verus! {

/// A client's account together with the history of its deposits.
pub struct Client {
    /// The balances, with the client's identifier.
    pub acc: Account,
    /// The deposits made so far, by transaction identifier.
    pub history: HashMap<u64, ClientTransaction>,
}

impl View for Client {
    type V = ClientState;

    open spec fn view(&self) -> ClientState {
        ClientState { acc: self.acc@, history: self.history@ }
    }
}

impl Client {
    /// A client with an empty account and no history.
    pub fn new(id: u16) -> (client: Client)
        ensures
            client@ == ClientState::fresh(id),
            client@.wf(),
    {
        proof {
            lemma_fresh_wf(id);
        }
        Client { acc: Account::new(id), history: HashMap::new() }
    }

    /// The deposit recorded under `id`, if there is one.
    pub fn get_transaction(&self, id: &u64) -> (found: Option<&ClientTransaction>)
        ensures
            match found {
                Some(entry) => self@.entry(*id) == Some(*entry),
                None => self@.entry(*id).is_none(),
            },
    {
        self.history.get(id)
    }

    /// Puts the deposit recorded under `id` in dispute, whether or not the
    /// account is locked. Without such a deposit, or with one already in
    /// dispute, nothing changes.
    pub fn dispute_transaction(&mut self, id: &u64)
        requires
            old(self)@.wf(),
        ensures
            final(self)@ == old(self)@.dispute(*id),
            final(self)@.wf(),
    {
        proof {
            lemma_dispute_wf(self@, *id);
            lemma_wf_fits(self@);
            lemma_wf_fits(self@.dispute(*id));
        }
        let amount: i64 = match self.history.get(id) {
            Some(entry) => {
                if entry.in_dispute {
                    return ;
                }
                entry.amount
            },
            None => {
                return ;
            },
        };
        self.acc.held = self.acc.held + amount as i128;
        self.acc.available = self.acc.available - amount as i128;
        self.history.insert(*id, ClientTransaction { amount, in_dispute: true });
    }

    /// Ends the dispute of the deposit recorded under `id` in the client's
    /// favour. On a locked account, without such a deposit, or with one that
    /// is not in dispute, nothing changes.
    pub fn resolve_transaction(&mut self, id: &u64)
        requires
            old(self)@.wf(),
        ensures
            final(self)@ == old(self)@.resolve(*id),
            final(self)@.wf(),
    {
        proof {
            lemma_resolve_wf(self@, *id);
            lemma_wf_fits(self@);
            lemma_wf_fits(self@.resolve(*id));
        }
        if self.acc.locked {
            return ;
        }
        let amount: i64 = match self.history.get(id) {
            Some(entry) => {
                if !entry.in_dispute {
                    return ;
                }
                entry.amount
            },
            None => {
                return ;
            },
        };
        self.acc.held = self.acc.held - amount as i128;
        self.acc.available = self.acc.available + amount as i128;
        self.history.insert(*id, ClientTransaction { amount, in_dispute: false });
    }

    /// Ends the dispute of the deposit recorded under `id` against the
    /// client and locks the account; the deposit stays marked as in dispute.
    /// On a locked account, without such a deposit, or with one that is not
    /// in dispute, nothing changes.
    pub fn chargeback_transaction(&mut self, id: &u64)
        requires
            old(self)@.wf(),
        ensures
            final(self)@ == old(self)@.chargeback(*id),
            final(self)@.wf(),
    {
        proof {
            lemma_chargeback_wf(self@, *id);
            lemma_wf_fits(self@);
            lemma_wf_fits(self@.chargeback(*id));
        }
        if self.acc.locked {
            return ;
        }
        let amount: i64 = match self.history.get(id) {
            Some(entry) => {
                if !entry.in_dispute {
                    return ;
                }
                entry.amount
            },
            None => {
                return ;
            },
        };
        self.acc.held = self.acc.held - amount as i128;
        self.acc.total = self.acc.total - amount as i128;
        self.acc.locked = true;
    }

    /// Applies a deposit or a withdrawal; a record of another kind, or one
    /// that is not admitted, changes nothing.
    pub fn process_transaction(&mut self, tx: &Tx)
        requires
            old(self)@.wf(),
        ensures
            final(self)@ == old(self)@.process(*tx),
            final(self)@.wf(),
    {
        proof {
            lemma_process_wf(self@, *tx);
            lemma_wf_fits(self@);
            lemma_wf_fits(self@.process(*tx));
        }
        if self.acc.locked || self.history.contains_key(&tx.tx) {
            return ;
        }
        let amount: i64 = tx.amount.unwrap_or(0);
        if amount < 0 {
            return ;
        }
        match tx.kind {
            TypeTx::Deposit => {
                self.acc.total = self.acc.total + amount as i128;
                self.acc.available = self.acc.available + amount as i128;
                self.history.insert(tx.tx, ClientTransaction { amount, in_dispute: false });
            },
            TypeTx::Withdrawal => {
                if self.acc.available > amount as i128 {
                    self.acc.total = self.acc.total - amount as i128;
                    self.acc.available = self.acc.available - amount as i128;
                }
            },
            _ => {},
        }
    }
}

} // verus!
