use vstd::prelude::*;

use crate::models::{involves, is_due, Payment, RecurringPayment, User};
use crate::payment_system::{
    account_index, balances, due_indices, has_account, history, recurring_settled, registered,
    transferred,
};

verus! {

/// Registering the same identifier twice leaves exactly one account under
/// it, with a zero balance, and no more accounts than the first
/// registration made.
pub proof fn lemma_register_twice(
    u0: Seq<User>,
    u1: Seq<User>,
    u2: Seq<User>,
    id: Seq<char>,
    k1: stellar_sdk::Keypair,
    k2: stellar_sdk::Keypair,
)
    requires
        registered(u0, u1, id, k1),
        registered(u1, u2, id, k2),
    ensures
        exists|i: int|
            0 <= i < u2.len() && #[trigger] u2[i].public_key@ == id && forall|j: int|
                0 <= j < u2.len() && #[trigger] u2[j].public_key@ == id ==> j == i,
        balances(u2)[id] == 0,
        u2.len() == u1.len(),
{
    assert(balances(u1).contains_key(id));
    assert(balances(u2).contains_key(id));
    let i = account_index(u2, id);
    assert(u2[i].public_key@ == id);
}

/// A transfer between two different identifiers takes exactly `amount`
/// from the sender and gives exactly `amount` to a tracked receiver; an
/// untracked receiver stays untracked, and every other balance is kept.
pub proof fn lemma_transfer_moves_amount(
    bal: Map<Seq<char>, u64>,
    from: Seq<char>,
    to: Seq<char>,
    amount: u64,
)
    requires
        bal.contains_key(from),
        bal[from] >= amount,
        from != to,
        bal.contains_key(to) ==> bal[to] + amount <= u64::MAX,
    ensures
        transferred(bal, from, to, amount).dom() == bal.dom(),
        transferred(bal, from, to, amount)[from] == bal[from] - amount,
        bal.contains_key(to) ==> transferred(bal, from, to, amount)[to] == bal[to] + amount,
        !bal.contains_key(to) ==> !transferred(bal, from, to, amount).contains_key(to),
        forall|k: Seq<char>|
            bal.contains_key(k) && k != from && k != to ==> #[trigger] transferred(
                bal,
                from,
                to,
                amount,
            )[k] == bal[k],
{
    assert(transferred(bal, from, to, amount).dom() =~= bal.dom());
}

/// The history of an identifier holds only payments in which it is the
/// sender or the receiver, holds every such payment, and is empty when
/// there are none.
pub proof fn lemma_history_involves(payments: Seq<Payment>, id: Seq<char>)
    ensures
        forall|i: int|
            0 <= i < history(payments, id).len() ==> involves(#[trigger] history(payments, id)[i], id),
        forall|i: int|
            0 <= i < payments.len() && involves(payments[i], id) ==> #[trigger] history(
                payments,
                id,
            ).contains(payments[i]),
        (forall|i: int| 0 <= i < payments.len() ==> !involves(#[trigger] payments[i], id)) ==> history(
            payments,
            id,
        ).len() == 0,
{
    broadcast use vstd::seq_lib::group_filter_ensures;

    let pred = |p: Payment| involves(p, id);
    assert forall|i: int| 0 <= i < history(payments, id).len() implies involves(
        #[trigger] history(payments, id)[i],
        id,
    ) by {
        payments.lemma_filter_pred(pred, i);
    }
    assert forall|i: int| 0 <= i < payments.len() && involves(payments[i], id) implies #[trigger] history(
        payments,
        id,
    ).contains(payments[i]) by {
        payments.lemma_filter_contains(pred, i);
    }
    if forall|i: int| 0 <= i < payments.len() ==> !involves(#[trigger] payments[i], id) {
        if history(payments, id).len() > 0 {
            let p = history(payments, id)[0];
            payments.lemma_filter_pred(pred, 0);
            assert(history(payments, id).contains(p));
            payments.lemma_filter_contains_rev(pred, p);
        }
    }
}

/// Paying a due recurring payment with a positive interval adds exactly one
/// record, makes it due one interval after `now`, and so takes it, and only
/// it, out of the payments due at `now`: a second sweep at the same time
/// does not pay it again.
pub proof fn lemma_recurring_paid_once(
    old_rec: Seq<RecurringPayment>,
    new_rec: Seq<RecurringPayment>,
    old_log: Seq<Payment>,
    new_log: Seq<Payment>,
    index: int,
    now: i64,
)
    requires
        0 <= index < old_rec.len(),
        is_due(old_rec[index], now),
        old_rec[index].interval > 0,
        recurring_settled(old_rec, new_rec, old_log, new_log, index, now),
    ensures
        new_log.len() == old_log.len() + 1,
        new_rec[index].next_payment == now + old_rec[index].interval,
        !is_due(new_rec[index], now),
        due_indices(new_rec, now) == due_indices(old_rec, now).remove(index),
{
    assert forall|j: int| 0 <= j < old_rec.len() && j != index implies #[trigger] new_rec[j]
        == old_rec[j] by {}
    assert(due_indices(new_rec, now) =~= due_indices(old_rec, now).remove(index));
}

} // verus!
