//! Why the ledger's states stay well formed, and why well-formed balances
//! fit the machine integers that hold them.

use vstd::prelude::*;
use crate::account::Balances;
use crate::record::{Tx, TypeTx};
use crate::state::{
    amounts_nonnegative, disputed, disputed_weight, headroom, vacancy_weight, ClientState,
    ClientTransaction, History,
};
use crate::tally::{id_space, lemma_sum_bounds, lemma_sum_covers_term, lemma_sum_one_term};

verus! {

/// The most that `id_space()` deposits can add up to. It is below
/// `i128::MAX`, which is why balances are kept in an `i128`.
pub open spec fn deposit_ceiling() -> int {
    id_space() * i64::MAX
}

/// What is in dispute lies between nothing and the deposit ceiling.
pub proof fn lemma_disputed_bounds(history: History)
    requires
        amounts_nonnegative(history),
    ensures
        0 <= disputed(history) <= deposit_ceiling(),
{
    let weight = disputed_weight(history);
    assert forall|id: u64| id < id_space() implies 0 <= #[trigger] weight(id) <= i64::MAX by {
        if history.contains_key(id) {
            assert(0 <= history[id].amount);
        }
    }
    lemma_sum_bounds(weight, id_space(), 0, i64::MAX as int);
}

/// A deposit in dispute is no larger than all that is in dispute.
pub proof fn lemma_disputed_covers(history: History, id: u64)
    requires
        amounts_nonnegative(history),
        history.contains_key(id),
        history[id].in_dispute,
    ensures
        history[id].amount <= disputed(history),
{
    let weight = disputed_weight(history);
    assert forall|other: u64| 0 <= #[trigger] weight(other) by {
        if history.contains_key(other) {
            assert(0 <= history[other].amount);
        }
    }
    lemma_sum_covers_term(weight, id);
}

/// Replacing what is recorded under one identifier changes what is in
/// dispute by what that identifier's share changes by.
pub proof fn lemma_disputed_insert(history: History, id: u64, entry: ClientTransaction)
    ensures
        disputed(history.insert(id, entry)) == disputed(history) + disputed_weight(
            history.insert(id, entry),
        )(id) - disputed_weight(history)(id),
{
    let before = disputed_weight(history);
    let after = disputed_weight(history.insert(id, entry));
    assert forall|other: u64| other != id implies #[trigger] after(other) == before(other) by {}
    lemma_sum_one_term(before, after, id, id_space());
}

/// The headroom lies between nothing and the deposit ceiling.
pub proof fn lemma_headroom_bounds(history: History)
    ensures
        0 <= headroom(history) <= deposit_ceiling(),
{
    let weight = vacancy_weight(history);
    assert forall|id: u64| id < id_space() implies 0 <= #[trigger] weight(id) <= i64::MAX by {}
    lemma_sum_bounds(weight, id_space(), 0, i64::MAX as int);
}

/// Recording a deposit under an unused identifier uses up that
/// identifier's share of the headroom, which was there to be used;
/// replacing what is recorded under a used one leaves the headroom alone.
pub proof fn lemma_headroom_insert(history: History, id: u64, entry: ClientTransaction)
    ensures
        history.contains_key(id) ==> headroom(history.insert(id, entry)) == headroom(history),
        !history.contains_key(id) ==> headroom(history.insert(id, entry)) == headroom(history)
            - i64::MAX,
        !history.contains_key(id) ==> i64::MAX <= headroom(history),
{
    let before = vacancy_weight(history);
    let after = vacancy_weight(history.insert(id, entry));
    assert forall|other: u64| other != id implies #[trigger] after(other) == before(other) by {}
    lemma_sum_one_term(before, after, id, id_space());
    assert forall|other: u64| 0 <= #[trigger] before(other) by {}
    lemma_sum_covers_term(before, id);
}

/// An empty history has nothing in dispute and the whole deposit ceiling
/// as headroom.
pub proof fn lemma_empty_history()
    ensures
        disputed(Map::<u64, ClientTransaction>::empty()) == 0,
        headroom(Map::<u64, ClientTransaction>::empty()) == deposit_ceiling(),
        deposit_ceiling() <= i128::MAX,
{
    let history = Map::<u64, ClientTransaction>::empty();
    let none = disputed_weight(history);
    assert forall|id: u64| id < id_space() implies 0 <= #[trigger] none(id) <= 0 by {}
    lemma_sum_bounds(none, id_space(), 0, 0);
    let all = vacancy_weight(history);
    assert forall|id: u64| id < id_space() implies i64::MAX <= #[trigger] all(id) <= i64::MAX by {}
    lemma_sum_bounds(all, id_space(), i64::MAX as int, i64::MAX as int);
}

/// The balances of a well-formed state fit an `i128`, and what is held is
/// never negative.
pub proof fn lemma_wf_fits(state: ClientState)
    requires
        state.wf(),
    ensures
        i128::MIN <= state.acc.available <= i128::MAX,
        0 <= state.acc.held <= i128::MAX,
        i128::MIN <= state.acc.total <= i128::MAX,
{
    lemma_disputed_bounds(state.history);
    lemma_headroom_bounds(state.history);
}

/// A client that no record has touched yet is well formed.
pub proof fn lemma_fresh_wf(client: u16)
    ensures
        ClientState::fresh(client).wf(),
{
    lemma_empty_history();
}

/// A client that starts with a balance and no history is well formed as
/// long as the balance fits a `u64`: that is the room an `i128` leaves above
/// the deposit ceiling.
pub proof fn lemma_opening_balance_wf(client: u16, opening: int)
    requires
        0 <= opening <= u64::MAX,
    ensures
        (ClientState {
            acc: Balances { client, available: opening, held: 0, total: opening, locked: false },
            history: Map::empty(),
        }).wf(),
{
    lemma_empty_history();
}

/// A deposit or withdrawal leaves a well-formed state well formed.
pub proof fn lemma_process_wf(state: ClientState, tx: Tx)
    requires
        state.wf(),
    ensures
        state.process(tx).wf(),
{
    let next = state.process(tx);
    if state.admits(tx) {
        let amount = tx.amount_or_zero();
        match tx.kind {
            TypeTx::Deposit => {
                let entry = ClientTransaction { amount, in_dispute: false };
                lemma_disputed_insert(state.history, tx.tx, entry);
                lemma_headroom_insert(state.history, tx.tx, entry);
                assert(amounts_nonnegative(next.history));
            },
            TypeTx::Withdrawal => {
                lemma_disputed_bounds(state.history);
            },
            _ => {},
        }
    }
}

/// A dispute leaves a well-formed state well formed.
pub proof fn lemma_dispute_wf(state: ClientState, id: u64)
    requires
        state.wf(),
    ensures
        state.dispute(id).wf(),
{
    let next = state.dispute(id);
    if state.is_settled(id) {
        let entry = ClientTransaction { amount: state.history[id].amount, in_dispute: true };
        assert(0 <= state.history[id].amount);
        lemma_disputed_insert(state.history, id, entry);
        lemma_headroom_insert(state.history, id, entry);
        assert(amounts_nonnegative(next.history));
    }
}

/// A resolve leaves a well-formed state well formed.
pub proof fn lemma_resolve_wf(state: ClientState, id: u64)
    requires
        state.wf(),
    ensures
        state.resolve(id).wf(),
{
    let next = state.resolve(id);
    if !state.acc.locked && state.is_disputed(id) {
        let entry = ClientTransaction { amount: state.history[id].amount, in_dispute: false };
        assert(0 <= state.history[id].amount);
        lemma_disputed_covers(state.history, id);
        lemma_disputed_insert(state.history, id, entry);
        lemma_headroom_insert(state.history, id, entry);
        assert(amounts_nonnegative(next.history));
    }
}

/// A chargeback leaves a well-formed state well formed.
pub proof fn lemma_chargeback_wf(state: ClientState, id: u64)
    requires
        state.wf(),
    ensures
        state.chargeback(id).wf(),
{
    if !state.acc.locked && state.is_disputed(id) {
        assert(0 <= state.history[id].amount);
        lemma_disputed_covers(state.history, id);
    }
}

/// A record of any kind leaves a well-formed state well formed.
pub proof fn lemma_apply_wf(state: ClientState, tx: Tx)
    requires
        state.wf(),
    ensures
        state.apply(tx).wf(),
{
    lemma_process_wf(state, tx);
    lemma_dispute_wf(state, tx.tx);
    lemma_resolve_wf(state, tx.tx);
    lemma_chargeback_wf(state, tx.tx);
}

} // verus!
