//! The balances of one client.

use vstd::prelude::*;

verus! {

/// The balances of one client, each a whole number of the smallest unit
/// the ledger distinguishes.
#[derive(Debug, Clone, Copy)]
pub struct Account {
    pub client: u16,
    pub available: i128,
    pub held: i128,
    pub total: i128,
    pub locked: bool,
}

/// What an [`Account`] stands for: the same balances as unbounded integers.
pub struct Balances {
    pub client: u16,
    pub available: int,
    pub held: int,
    pub total: int,
    pub locked: bool,
}

impl Balances {
    /// The balances of a client that no record has touched yet.
    pub open spec fn zero(client: u16) -> Balances {
        Balances { client, available: 0, held: 0, total: 0, locked: false }
    }

    /// The total is what is available plus what is held.
    pub open spec fn balanced(self) -> bool {
        self.total == self.available + self.held
    }
}

impl View for Account {
    type V = Balances;

    open spec fn view(&self) -> Balances {
        Balances {
            client: self.client,
            available: self.available as int,
            held: self.held as int,
            total: self.total as int,
            locked: self.locked,
        }
    }
}

impl Account {
    /// An unlocked account with nothing in it.
    pub fn new(id: u16) -> (acc: Account)
        ensures
            acc@ == Balances::zero(id),
    {
        Account { client: id, available: 0, held: 0, total: 0, locked: false }
    }
}

} // verus!
