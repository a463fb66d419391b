//! The ledger: every client that a record has mentioned.

use std::collections::HashMap;
use vstd::prelude::*;
use vstd::std_specs::hash::spec_hash_map_iter;
use vstd::std_specs::iter::IteratorSpec;
use crate::account::Account;
use crate::client::Client;
use crate::record::{Tx, TypeTx};
use crate::state::ClientState;

verus! {

/// The state of every client that a record has mentioned.
pub type Ledger = Map<u16, ClientState>;

/// The state of `client` in `ledger`: the one recorded, or the fresh state
/// of a client that no record has mentioned.
pub open spec fn state_of(ledger: Ledger, client: u16) -> ClientState {
    if ledger.contains_key(client) {
        ledger[client]
    } else {
        ClientState::fresh(client)
    }
}

/// What `ledger` becomes once `tx` is applied: the client it names takes the
/// step that its kind asks for, from a fresh state if this is the client's
/// first mention, and every other client is left alone.
pub open spec fn ledger_after(ledger: Ledger, tx: Tx) -> Ledger {
    ledger.insert(tx.client, state_of(ledger, tx.client).apply(tx))
}

/// Every client of `ledger` is well formed and is filed under its own
/// identifier.
pub open spec fn ledger_wf(ledger: Ledger) -> bool {
    forall|client: u16| #[trigger]
        ledger.contains_key(client) ==> ledger[client].wf() && ledger[client].acc.client
            == client
}

/// Applies records to client accounts, creating each account at the first
/// mention of its client.
pub struct AccountEngine {
    clients: HashMap<u16, Client>,
}

impl View for AccountEngine {
    type V = Ledger;

    closed spec fn view(&self) -> Ledger {
        self.clients@.map_values(|client: Client| client@)
    }
}

impl AccountEngine {
    /// An engine that has seen no client.
    pub fn new() -> (engine: AccountEngine)
        ensures
            engine@ == Map::<u16, ClientState>::empty(),
    {
        let engine = AccountEngine { clients: HashMap::new() };
        assert(engine@ =~= Map::<u16, ClientState>::empty());
        engine
    }

    /// Applies one record to the client it names.
    pub fn apply(&mut self, record: &Tx)
        requires
            ledger_wf(old(self)@),
        ensures
            final(self)@ == ledger_after(old(self)@, *record),
            ledger_wf(final(self)@),
    {
        let client = self.clients.entry(record.client).or_insert(Client::new(record.client));
        assert(client@ == state_of(old(self)@, record.client));
        match record.kind {
            TypeTx::Deposit | TypeTx::Withdrawal => client.process_transaction(record),
            TypeTx::Dispute => client.dispute_transaction(&record.tx),
            TypeTx::Resolve => client.resolve_transaction(&record.tx),
            TypeTx::Chargeback => client.chargeback_transaction(&record.tx),
        }
        assert(self@ =~= ledger_after(old(self)@, *record));
    }

    /// The current account of every client that a record has mentioned, one
    /// account per client, in no particular order.
    pub fn snapshot(&self) -> (accounts: Vec<Account>)
        requires
            ledger_wf(self@),
        ensures
            accounts@.len() == self@.dom().len(),
            forall|i: int|
                0 <= i < accounts@.len() ==> self@.contains_key(#[trigger] accounts@[i].client)
                    && accounts@[i]@ == self@[accounts@[i].client].acc,
            forall|i: int, j: int|
                0 <= i < j < accounts@.len() ==> accounts@[i].client != accounts@[j].client,
            forall|client: u16|
                self@.contains_key(client) ==> exists|i: int|
                    0 <= i < accounts@.len() && #[trigger] accounts@[i].client == client,
    {
        let mut accounts: Vec<Account> = Vec::new();
        let ghost pairs = spec_hash_map_iter(&self.clients).remaining();
        proof {
            assert(self@.dom() =~= self.clients@.dom());
        }
        for pair in it: self.clients.iter()
            invariant
                it.seq() == pairs,
                accounts@.len() == it.index(),
                forall|i: int|
                    0 <= i < accounts@.len() ==> #[trigger] accounts@[i] == pairs[i].1.acc,
        {
            accounts.push(pair.1.acc);
        }
        proof {
            assert forall|i: int| 0 <= i < accounts@.len() implies #[trigger] accounts@[i].client
                == *pairs[i].0 && self@.contains_key(*pairs[i].0) && accounts@[i]@
                == self@[*pairs[i].0].acc by {
                assert(accounts@[i] == pairs[i].1.acc);
                assert(self.clients@.contains_key(*pairs[i].0));
                assert(self.clients@[*pairs[i].0] == *pairs[i].1);
                assert(self@.contains_key(*pairs[i].0));
            }
            assert forall|i: int, j: int| 0 <= i < j < accounts@.len() implies accounts@[i].client
                != accounts@[j].client by {
                assert(self.clients@[*pairs[i].0] == *pairs[i].1);
                assert(self.clients@[*pairs[j].0] == *pairs[j].1);
                assert(pairs[i] != pairs[j]);
            }
            assert forall|client: u16| self@.contains_key(client) implies exists|i: int|
                0 <= i < accounts@.len() && #[trigger] accounts@[i].client == client by {
                assert(self.clients@.contains_key(client));
                let pair = (&client, &self.clients@[client]);
                assert(pairs.contains(pair));
                let i = choose|i: int| 0 <= i < pairs.len() && pairs[i] == pair;
                assert(accounts@[i].client == *pairs[i].0);
            }
        }
        accounts
    }
}

} // verus!
