use vstd::prelude::*;

use crate::error::PaymentError;
use crate::external::{
    days_to_seconds, now_timestamp, parse_public_key, parse_secret_key, public_key_parses,
    secret_key_parses, CLOCK_BOUND, MAX_INTERVAL_DAYS, SECS_PER_DAY,
};
use crate::models::{involves, is_due, Payment, RecurringPayment, User};

verus! {

/// Whether some account is registered under `id`.
pub open spec fn has_account(users: Seq<User>, id: Seq<char>) -> bool {
    exists|i: int| 0 <= i < users.len() && #[trigger] users[i].public_key@ == id
}

/// No two accounts share an identifier.
pub open spec fn ids_unique(users: Seq<User>) -> bool {
    forall|i: int, j: int|
        0 <= i < users.len() && 0 <= j < users.len() && #[trigger] users[i].public_key@
            == #[trigger] users[j].public_key@ ==> i == j
}

/// The position of the account registered under `id`.
pub open spec fn account_index(users: Seq<User>, id: Seq<char>) -> int {
    choose|i: int| 0 <= i < users.len() && #[trigger] users[i].public_key@ == id
}

/// The ledger as a map from identifier to balance.
pub open spec fn balances(users: Seq<User>) -> Map<Seq<char>, u64> {
    Map::new(
        |k: Seq<char>| has_account(users, k),
        |k: Seq<char>| users[account_index(users, k)].balance,
    )
}

/// The key pair of the account registered under `id`.
pub open spec fn keypair_of(users: Seq<User>, id: Seq<char>) -> stellar_sdk::Keypair {
    users[account_index(users, id)].keypair
}

/// The same identifiers and key pairs, in the same places; balances may differ.
pub open spec fn same_accounts(old: Seq<User>, new: Seq<User>) -> bool {
    &&& new.len() == old.len()
    &&& forall|i: int|
        0 <= i < old.len() ==> #[trigger] new[i].public_key == old[i].public_key
            && new[i].keypair == old[i].keypair
}

/// `new` is `old` after registering `id` with `keypair`: the account holds
/// that key pair and a zero balance, replacing any earlier one of that identifier.
pub open spec fn registered(
    old: Seq<User>,
    new: Seq<User>,
    id: Seq<char>,
    keypair: stellar_sdk::Keypair,
) -> bool {
    &&& ids_unique(new)
    &&& balances(new) == balances(old).insert(id, 0)
    &&& keypair_of(new, id) == keypair
    &&& new.len() == if has_account(old, id) {
        old.len()
    } else {
        old.len() + 1
    }
}

/// The outcome of the local checks on a payment: the sender must exist, hold
/// at least `amount`, and the receiver's key must decode.
pub open spec fn payment_check(
    users: Seq<User>,
    from: Seq<char>,
    amount: u64,
    receiver_valid: bool,
) -> Result<(), PaymentError> {
    if !has_account(users, from) {
        Err(PaymentError::UserNotFound)
    } else if balances(users)[from] < amount {
        Err(PaymentError::InsufficientBalance)
    } else if !receiver_valid {
        Err(PaymentError::InvalidKey)
    } else {
        Ok(())
    }
}

/// The result of a payment: the local checks first, then the network's answer.
pub open spec fn payment_outcome(
    users: Seq<User>,
    from: Seq<char>,
    amount: u64,
    receiver_valid: bool,
    submitted: bool,
) -> Result<(), PaymentError> {
    match payment_check(users, from, amount, receiver_valid) {
        Err(e) => Err(e),
        Ok(_) => if submitted {
            Ok(())
        } else {
            Err(PaymentError::TransactionFailed)
        },
    }
}

/// Whether the key text names a receiver that the network can be paid to.
pub open spec fn receiver_key_valid(to: Seq<char>) -> bool {
    to.len() == 56 && public_key_parses(to)
}

/// Whether the secret text yields a key pair.
pub open spec fn secret_key_valid(secret: Seq<char>) -> bool {
    secret.len() == 56 && secret_key_parses(secret)
}

/// Balances after `amount` moves from `from` to `to`; a receiver without a
/// local account is not credited.
pub open spec fn transferred(
    bal: Map<Seq<char>, u64>,
    from: Seq<char>,
    to: Seq<char>,
    amount: u64,
) -> Map<Seq<char>, u64> {
    let debited = bal.insert(from, (bal[from] - amount) as u64);
    if debited.contains_key(to) {
        debited.insert(to, (debited[to] + amount) as u64)
    } else {
        debited
    }
}

/// Crediting the receiver cannot overflow its balance.
pub open spec fn credit_fits(users: Seq<User>, from: Seq<char>, to: Seq<char>, amount: u64) -> bool {
    has_account(users, to) && to != from ==> balances(users)[to] + amount <= u64::MAX
}

/// The record describes the given transfer.
pub open spec fn records(
    p: Payment,
    from: Seq<char>,
    to: Seq<char>,
    amount: u64,
    message: Seq<char>,
) -> bool {
    p.from@ == from && p.to@ == to && p.amount == amount && p.message@ == message
}

/// `new` is `old` with one record at the end.
pub open spec fn appended_one(old: Seq<Payment>, new: Seq<Payment>) -> bool {
    new.len() == old.len() + 1 && new.take(old.len() as int) == old
}

/// The payments that involve `id`, in the order they were made.
pub open spec fn history(payments: Seq<Payment>, id: Seq<char>) -> Seq<Payment> {
    payments.filter(|p: Payment| involves(p, id))
}

/// The recurring payment `new` is `old` due again one interval after `now`.
pub open spec fn rescheduled(old: RecurringPayment, new: RecurringPayment, now: i64) -> bool {
    &&& new.from == old.from
    &&& new.to == old.to
    &&& new.amount == old.amount
    &&& new.message == old.message
    &&& new.interval == old.interval
    &&& new.next_payment == now + old.interval
}

/// The positions of the recurring payments that are due at `now`.
pub open spec fn due_indices(rec: Seq<RecurringPayment>, now: i64) -> Set<int> {
    Set::new(|j: int| 0 <= j < rec.len() && is_due(rec[j], now))
}

/// `new_rec` and `new_log` are `old_rec` and `old_log` after the recurring
/// payment at `index` was paid at `now`: one record more, and that payment
/// due again one interval after `now`, the others as they were.
pub open spec fn recurring_settled(
    old_rec: Seq<RecurringPayment>,
    new_rec: Seq<RecurringPayment>,
    old_log: Seq<Payment>,
    new_log: Seq<Payment>,
    index: int,
    now: i64,
) -> bool {
    &&& appended_one(old_log, new_log)
    &&& new_rec.len() == old_rec.len()
    &&& rescheduled(old_rec[index], new_rec[index], now)
    &&& forall|j: int| 0 <= j < old_rec.len() && j != index ==> #[trigger] new_rec[j] == old_rec[j]
}

/// The ledger, the payment log and the schedule of recurring payments.
pub struct PaymentSystem {
    users: Vec<User>,
    payments: Vec<Payment>,
    recurring_payments: Vec<RecurringPayment>,
}

impl PaymentSystem {
    /// The accounts, in the order they were first registered.
    pub closed spec fn users(&self) -> Seq<User> {
        self.users@
    }

    /// The payment log, oldest first.
    pub closed spec fn payments(&self) -> Seq<Payment> {
        self.payments@
    }

    /// The recurring payments, in the order they were added.
    pub closed spec fn recurring(&self) -> Seq<RecurringPayment> {
        self.recurring_payments@
    }

    /// Account identifiers are unique.
    pub open spec fn wf(&self) -> bool {
        ids_unique(self.users())
    }

    /// An empty ledger, log and schedule.
    pub fn new() -> (r: Self)
        ensures
            r.wf(),
            r.users().len() == 0,
            r.payments().len() == 0,
            r.recurring().len() == 0,
    {
        PaymentSystem { users: Vec::new(), payments: Vec::new(), recurring_payments: Vec::new() }
    }

    /// The position of the account registered under `id`, if any.
    fn find(&self, id: &str) -> (r: Option<usize>)
        requires
            self.wf(),
        ensures
            match r {
                Some(i) => i < self.users().len() && self.users()[i as int].public_key@ == id@
                    && account_index(self.users(), id@) == i,
                None => !has_account(self.users(), id@),
            },
    {
        let key = id.to_owned();
        let mut i: usize = 0;
        while i < self.users.len()
            invariant
                self.wf(),
                i <= self.users@.len(),
                key@ == id@,
                forall|j: int| 0 <= j < i ==> #[trigger] self.users@[j].public_key@ != id@,
            decreases self.users@.len() - i,
        {
            if self.users[i].public_key == key {
                proof {
                    lemma_index_of(self.users@, i as int);
                }
                return Some(i);
            }
            i = i + 1;
        }
        None
    }

    /// Registers `public_key` with `keypair` and a zero balance. An account
    /// already registered under that identifier is replaced, and its balance
    /// is lost.
    pub fn add_user(&mut self, public_key: &str, keypair: stellar_sdk::Keypair)
        requires
            old(self).wf(),
        ensures
            final(self).wf(),
            registered(old(self).users(), final(self).users(), public_key@, keypair),
            final(self).payments() == old(self).payments(),
            final(self).recurring() == old(self).recurring(),
    {
        let ghost before = self.users@;
        let user = User { public_key: public_key.to_owned(), keypair, balance: 0 };
        match self.find(public_key) {
            Some(i) => {
                self.users[i] = user;
                proof {
                    lemma_set_account(before, i as int, user);
                }
            },
            None => {
                self.users.push(user);
                proof {
                    lemma_push_account(before, user);
                }
            },
        }
    }

    /// Registers `public_key` with the key pair that `secret_key` decodes to,
    /// as `add_user` does; a secret that does not decode is refused.
    pub fn create_user(&mut self, public_key: &str, secret_key: &str) -> (r: Result<(), PaymentError>)
        requires
            old(self).wf(),
        ensures
            final(self).wf(),
            secret_key_valid(secret_key@) ==> r == Ok::<(), PaymentError>(()) && exists|kp: stellar_sdk::Keypair|
                registered(old(self).users(), final(self).users(), public_key@, kp),
            !secret_key_valid(secret_key@) ==> r == Err::<(), PaymentError>(PaymentError::InvalidKey)
                && final(self).users() == old(self).users(),
            final(self).payments() == old(self).payments(),
            final(self).recurring() == old(self).recurring(),
    {
        if secret_key.unicode_len() != 56 {
            return Err(PaymentError::InvalidKey);
        }
        match parse_secret_key(secret_key) {
            Some(keypair) => {
                self.add_user(public_key, keypair);
                Ok(())
            },
            None => Err(PaymentError::InvalidKey),
        }
    }

    /// The balance of the account registered under `public_key`.
    pub fn get_balance(&self, public_key: &str) -> (r: Result<u64, PaymentError>)
        requires
            self.wf(),
        ensures
            r == if has_account(self.users(), public_key@) {
                Ok::<u64, PaymentError>(balances(self.users())[public_key@])
            } else {
                Err::<u64, PaymentError>(PaymentError::UserNotFound)
            },
    {
        match self.find(public_key) {
            Some(i) => Ok(self.users[i].balance),
            None => Err(PaymentError::UserNotFound),
        }
    }

    /// The key pair of the account registered under `public_key`, if any.
    pub fn keypair(&self, public_key: &str) -> (r: Option<&stellar_sdk::Keypair>)
        requires
            self.wf(),
        ensures
            match r {
                Some(k) => has_account(self.users(), public_key@) && *k == keypair_of(
                    self.users(),
                    public_key@,
                ),
                None => !has_account(self.users(), public_key@),
            },
    {
        match self.find(public_key) {
            Some(i) => Some(&self.users[i].keypair),
            None => None,
        }
    }

    /// Adds `amount` to the balance of the account registered under
    /// `public_key`; an identifier without a local account is skipped.
    pub fn credit(&mut self, public_key: &str, amount: u64)
        requires
            old(self).wf(),
            has_account(old(self).users(), public_key@) ==> balances(old(self).users())[public_key@]
                + amount <= u64::MAX,
        ensures
            final(self).wf(),
            balances(final(self).users()) == if has_account(old(self).users(), public_key@) {
                balances(old(self).users()).insert(
                    public_key@,
                    (balances(old(self).users())[public_key@] + amount) as u64,
                )
            } else {
                balances(old(self).users())
            },
            same_accounts(old(self).users(), final(self).users()),
            final(self).payments() == old(self).payments(),
            final(self).recurring() == old(self).recurring(),
    {
        let ghost before = self.users@;
        if let Some(i) = self.find(public_key) {
            let b = self.users[i].balance;
            self.users[i].balance = b + amount;
            proof {
                lemma_set_account(before, i as int, self.users@[i as int]);
            }
        }
    }

    /// Takes `amount` from the balance of the account registered under `public_key`.
    fn debit(&mut self, public_key: &str, amount: u64)
        requires
            old(self).wf(),
            has_account(old(self).users(), public_key@),
            balances(old(self).users())[public_key@] >= amount,
        ensures
            final(self).wf(),
            balances(final(self).users()) == balances(old(self).users()).insert(
                public_key@,
                (balances(old(self).users())[public_key@] - amount) as u64,
            ),
            same_accounts(old(self).users(), final(self).users()),
            final(self).payments() == old(self).payments(),
            final(self).recurring() == old(self).recurring(),
    {
        let ghost before = self.users@;
        if let Some(i) = self.find(public_key) {
            let b = self.users[i].balance;
            self.users[i].balance = b - amount;
            proof {
                lemma_set_account(before, i as int, self.users@[i as int]);
            }
        }
    }

    /// Decides a payment of `amount` from `from` to `to` once the network's
    /// answer is known: `receiver_valid` tells whether the receiver's key
    /// decoded and `submitted` whether the network confirmed the transfer.
    /// Only a confirmed payment changes the ledger and is logged, stamped
    /// with `timestamp`.
    pub fn apply_payment(
        &mut self,
        from: &str,
        to: &str,
        amount: u64,
        message: &str,
        receiver_valid: bool,
        submitted: bool,
        timestamp: i64,
    ) -> (r: Result<(), PaymentError>)
        requires
            old(self).wf(),
            credit_fits(old(self).users(), from@, to@, amount),
        ensures
            final(self).wf(),
            r == payment_outcome(old(self).users(), from@, amount, receiver_valid, submitted),
            r.is_ok() ==> {
                &&& balances(final(self).users()) == transferred(
                    balances(old(self).users()),
                    from@,
                    to@,
                    amount,
                )
                &&& same_accounts(old(self).users(), final(self).users())
                &&& appended_one(old(self).payments(), final(self).payments())
                &&& records(final(self).payments().last(), from@, to@, amount, message@)
                &&& final(self).payments().last().timestamp == timestamp
            },
            r.is_err() ==> final(self).users() == old(self).users() && final(self).payments()
                == old(self).payments(),
            final(self).recurring() == old(self).recurring(),
            has_account(old(self).users(), from@) && amount > balances(old(self).users())[from@]
                ==> r == Err::<(), PaymentError>(PaymentError::InsufficientBalance)
                && balances(final(self).users()) == balances(old(self).users()),
            r.is_ok() && from@ != to@ ==> {
                &&& balances(final(self).users())[from@] == balances(old(self).users())[from@]
                    - amount
                &&& has_account(old(self).users(), to@) ==> balances(final(self).users())[to@]
                    == balances(old(self).users())[to@] + amount
                &&& !has_account(old(self).users(), to@) ==> !has_account(
                    final(self).users(),
                    to@,
                )
            },
    {
        let i = match self.find(from) {
            Some(i) => i,
            None => {
                return Err(PaymentError::UserNotFound);
            },
        };
        if self.users[i].balance < amount {
            return Err(PaymentError::InsufficientBalance);
        }
        if !receiver_valid {
            return Err(PaymentError::InvalidKey);
        }
        if !submitted {
            return Err(PaymentError::TransactionFailed);
        }
        let ghost bal0 = balances(self.users@);
        self.debit(from, amount);
        let ghost bal1 = balances(self.users@);
        assert(bal1.contains_key(to@) == bal0.contains_key(to@));
        self.credit(to, amount);
        proof {
            assert(balances(self.users@) =~= transferred(bal0, from@, to@, amount));
        }
        let ghost log0 = self.payments@;
        self.payments.push(
            Payment {
                from: from.to_owned(),
                to: to.to_owned(),
                amount,
                message: message.to_owned(),
                timestamp,
            },
        );
        proof {
            assert(self.payments@.take(log0.len() as int) =~= log0);
        }
        Ok(())
    }

    /// Runs the local checks of a payment and decodes the receiver's key, as
    /// needed before a transfer is handed to the network.
    pub fn prepare_payment(&self, from: &str, to: &str, amount: u64) -> (r: Result<
        stellar_sdk::Keypair,
        PaymentError,
    >)
        requires
            self.wf(),
        ensures
            r.is_ok() <==> payment_check(self.users(), from@, amount, receiver_key_valid(to@))
                == Ok::<(), PaymentError>(()),
            r.is_err() ==> r == Err::<stellar_sdk::Keypair, PaymentError>(
                payment_check(self.users(), from@, amount, receiver_key_valid(to@))->Err_0,
            ),
    {
        let i = match self.find(from) {
            Some(i) => i,
            None => {
                return Err(PaymentError::UserNotFound);
            },
        };
        if self.users[i].balance < amount {
            return Err(PaymentError::InsufficientBalance);
        }
        match receiver_key(to) {
            Some(k) => Ok(k),
            None => Err(PaymentError::InvalidKey),
        }
    }

    /// Decides a payment from `from` to `to` given whether the network
    /// confirmed it, decoding the receiver's key and stamping the record with
    /// the current time. The network is asked first: a confirmed transfer
    /// that this call never records leaves the local books behind it.
    pub fn send_payment(&mut self, from: &str, to: &str, amount: u64, message: &str, submitted: bool) -> (r:
        Result<(), PaymentError>)
        requires
            old(self).wf(),
            credit_fits(old(self).users(), from@, to@, amount),
        ensures
            final(self).wf(),
            r == payment_outcome(
                old(self).users(),
                from@,
                amount,
                receiver_key_valid(to@),
                submitted,
            ),
            r.is_ok() ==> {
                &&& balances(final(self).users()) == transferred(
                    balances(old(self).users()),
                    from@,
                    to@,
                    amount,
                )
                &&& same_accounts(old(self).users(), final(self).users())
                &&& appended_one(old(self).payments(), final(self).payments())
                &&& records(final(self).payments().last(), from@, to@, amount, message@)
                &&& final(self).payments().last().timestamp >= 0
            },
            r.is_err() ==> final(self).users() == old(self).users() && final(self).payments()
                == old(self).payments(),
            final(self).recurring() == old(self).recurring(),
            has_account(old(self).users(), from@) && amount > balances(old(self).users())[from@]
                ==> r == Err::<(), PaymentError>(PaymentError::InsufficientBalance)
                && balances(final(self).users()) == balances(old(self).users()),
            r.is_ok() && from@ != to@ ==> {
                &&& balances(final(self).users())[from@] == balances(old(self).users())[from@]
                    - amount
                &&& has_account(old(self).users(), to@) ==> balances(final(self).users())[to@]
                    == balances(old(self).users())[to@] + amount
                &&& !has_account(old(self).users(), to@) ==> !has_account(
                    final(self).users(),
                    to@,
                )
            },
    {
        let receiver_valid = receiver_key(to).is_some();
        let now = now_timestamp();
        self.apply_payment(from, to, amount, message, receiver_valid, submitted, now)
    }

    /// The payments in which `public_key` is the sender or the receiver, in
    /// the order they were made.
    pub fn get_transaction_history(&self, public_key: &str) -> (r: Vec<&Payment>)
        ensures
            r@.len() == history(self.payments(), public_key@).len(),
            forall|i: int|
                0 <= i < r@.len() ==> *r@[i] == #[trigger] history(self.payments(), public_key@)[i],
            (forall|k: int|
                0 <= k < self.payments().len() ==> !involves(#[trigger] self.payments()[k], public_key@))
                ==> r@.len() == 0,
    {
        let key = public_key.to_owned();
        let ghost pred = |p: Payment| involves(p, public_key@);
        let mut r: Vec<&Payment> = Vec::new();
        let mut i: usize = 0;
        while i < self.payments.len()
            invariant
                i <= self.payments@.len(),
                key@ == public_key@,
                pred == (|p: Payment| involves(p, public_key@)),
                r@.len() == self.payments@.take(i as int).filter(pred).len(),
                forall|j: int|
                    0 <= j < r@.len() ==> *r@[j] == #[trigger] self.payments@.take(i as int).filter(
                        pred,
                    )[j],
                (forall|k: int|
                    0 <= k < self.payments@.len() ==> !involves(
                        #[trigger] self.payments@[k],
                        public_key@,
                    )) ==> r@.len() == 0,
            decreases self.payments@.len() - i,
        {
            let p = &self.payments[i];
            let ghost before = self.payments@.take(i as int);
            let ghost after = self.payments@.take(i as int + 1);
            proof {
                assert(after.drop_last() =~= before);
                assert(after.last() == self.payments@[i as int]);
                reveal(Seq::filter);
            }
            if p.from == key || p.to == key {
                r.push(p);
            }
            i = i + 1;
        }
        proof {
            assert(self.payments@.take(self.payments@.len() as int) =~= self.payments@);
            if forall|k: int|
                0 <= k < self.payments().len() ==> !involves(
                    #[trigger] self.payments()[k],
                    public_key@,
                ) {
                assert forall|k: int| 0 <= k < self.payments@.len() implies !involves(
                    #[trigger] self.payments@[k],
                    public_key@,
                ) by {
                    assert(self.payments()[k] == self.payments@[k]);
                }
            }
        }
        r
    }

    /// Schedules a payment of `amount` from `from` to `to` every
    /// `interval_days` days, first due one interval after `now`.
    pub fn add_recurring_payment_at(
        &mut self,
        from: &str,
        to: &str,
        amount: u64,
        message: &str,
        interval_days: i64,
        now: i64,
    )
        requires
            -MAX_INTERVAL_DAYS <= interval_days <= MAX_INTERVAL_DAYS,
            i64::MIN <= now + interval_days * SECS_PER_DAY <= i64::MAX,
        ensures
            final(self).users() == old(self).users(),
            final(self).payments() == old(self).payments(),
            final(self).recurring().len() == old(self).recurring().len() + 1,
            final(self).recurring().take(old(self).recurring().len() as int) == old(
                self,
            ).recurring(),
            final(self).recurring().last().from@ == from@,
            final(self).recurring().last().to@ == to@,
            final(self).recurring().last().amount == amount,
            final(self).recurring().last().message@ == message@,
            final(self).recurring().last().interval == interval_days * SECS_PER_DAY,
            final(self).recurring().last().next_payment == now + interval_days * SECS_PER_DAY,
    {
        let interval = days_to_seconds(interval_days);
        let ghost before = self.recurring_payments@;
        self.recurring_payments.push(
            RecurringPayment {
                from: from.to_owned(),
                to: to.to_owned(),
                amount,
                message: message.to_owned(),
                interval,
                next_payment: now + interval,
            },
        );
        proof {
            assert(self.recurring_payments@.take(before.len() as int) =~= before);
        }
    }

    /// Schedules a payment of `amount` from `from` to `to` every
    /// `interval_days` days, first due one interval from the current time.
    pub fn add_recurring_payment(
        &mut self,
        from: &str,
        to: &str,
        amount: u64,
        message: &str,
        interval_days: i64,
    )
        requires
            -MAX_INTERVAL_DAYS <= interval_days <= MAX_INTERVAL_DAYS,
        ensures
            final(self).users() == old(self).users(),
            final(self).payments() == old(self).payments(),
            final(self).recurring().len() == old(self).recurring().len() + 1,
            final(self).recurring().take(old(self).recurring().len() as int) == old(
                self,
            ).recurring(),
            final(self).recurring().last().from@ == from@,
            final(self).recurring().last().to@ == to@,
            final(self).recurring().last().amount == amount,
            final(self).recurring().last().message@ == message@,
            final(self).recurring().last().interval == interval_days * SECS_PER_DAY,
            0 <= final(self).recurring().last().next_payment - interval_days * SECS_PER_DAY
                < CLOCK_BOUND,
    {
        let now = now_timestamp();
        self.add_recurring_payment_at(from, to, amount, message, interval_days, now);
    }

    /// The first recurring payment at or after position `start` that is due at `now`.
    pub fn next_due_recurring(&self, now: i64, start: usize) -> (r: Option<usize>)
        ensures
            match r {
                Some(i) => {
                    &&& start <= i < self.recurring().len()
                    &&& is_due(self.recurring()[i as int], now)
                    &&& forall|j: int|
                        start <= j < i ==> !is_due(#[trigger] self.recurring()[j], now)
                },
                None => forall|j: int|
                    start <= j < self.recurring().len() ==> !is_due(
                        #[trigger] self.recurring()[j],
                        now,
                    ),
            },
    {
        let mut i: usize = start;
        while i < self.recurring_payments.len()
            invariant
                start <= i,
                forall|j: int| start <= j < i ==> !is_due(#[trigger] self.recurring()[j], now),
            decreases self.recurring_payments@.len() - i,
        {
            if self.recurring_payments[i].next_payment <= now {
                return Some(i);
            }
            i = i + 1;
        }
        None
    }

    /// Handles the recurring payment at `index` in a sweep at time `now`.
    /// One that is not due is left alone. One that is due is paid as
    /// `apply_payment` decides from `receiver_valid` and `submitted`, and
    /// only when that succeeds is it due again one interval after `now`.
    pub fn process_recurring_payment(
        &mut self,
        index: usize,
        now: i64,
        receiver_valid: bool,
        submitted: bool,
        timestamp: i64,
    ) -> (r: Result<(), PaymentError>)
        requires
            old(self).wf(),
            index < old(self).recurring().len(),
            credit_fits(
                old(self).users(),
                old(self).recurring()[index as int].from@,
                old(self).recurring()[index as int].to@,
                old(self).recurring()[index as int].amount,
            ),
            i64::MIN <= now + old(self).recurring()[index as int].interval <= i64::MAX,
        ensures
            final(self).wf(),
            ({
                let p = old(self).recurring()[index as int];
                &&& !is_due(p, now) ==> r == Ok::<(), PaymentError>(())
                &&& is_due(p, now) ==> r == payment_outcome(
                    old(self).users(),
                    p.from@,
                    p.amount,
                    receiver_valid,
                    submitted,
                )
                &&& is_due(p, now) && r.is_ok() ==> {
                    &&& balances(final(self).users()) == transferred(
                        balances(old(self).users()),
                        p.from@,
                        p.to@,
                        p.amount,
                    )
                    &&& same_accounts(old(self).users(), final(self).users())
                    &&& recurring_settled(
                        old(self).recurring(),
                        final(self).recurring(),
                        old(self).payments(),
                        final(self).payments(),
                        index as int,
                        now,
                    )
                    &&& records(final(self).payments().last(), p.from@, p.to@, p.amount, p.message@)
                    &&& final(self).payments().last().timestamp == timestamp
                }
                &&& !(is_due(p, now) && r.is_ok()) ==> {
                    &&& final(self).users() == old(self).users()
                    &&& final(self).payments() == old(self).payments()
                    &&& final(self).recurring() == old(self).recurring()
                }
            }),
    {
        if self.recurring_payments[index].next_payment > now {
            return Ok(());
        }
        let from = self.recurring_payments[index].from.clone();
        let to = self.recurring_payments[index].to.clone();
        let message = self.recurring_payments[index].message.clone();
        let amount = self.recurring_payments[index].amount;
        let interval = self.recurring_payments[index].interval;
        let ghost before = self.recurring_payments@;
        let result = self.apply_payment(
            from.as_str(),
            to.as_str(),
            amount,
            message.as_str(),
            receiver_valid,
            submitted,
            timestamp,
        );
        if result.is_ok() {
            self.recurring_payments[index].next_payment = now + interval;
            proof {
                assert forall|j: int| 0 <= j < before.len() && j != index implies #[trigger]
                    self.recurring_payments@[j] == before[j] by {}
            }
        }
        result
    }

    /// Handles the recurring payment at `index` in a sweep at time `now`, as
    /// `process_recurring_payment` does, decoding the receiver's key and
    /// stamping a new record with the current time.
    pub fn run_recurring_payment(&mut self, index: usize, now: i64, submitted: bool) -> (r: Result<
        (),
        PaymentError,
    >)
        requires
            old(self).wf(),
            index < old(self).recurring().len(),
            credit_fits(
                old(self).users(),
                old(self).recurring()[index as int].from@,
                old(self).recurring()[index as int].to@,
                old(self).recurring()[index as int].amount,
            ),
            i64::MIN <= now + old(self).recurring()[index as int].interval <= i64::MAX,
        ensures
            final(self).wf(),
            ({
                let p = old(self).recurring()[index as int];
                &&& !is_due(p, now) ==> r == Ok::<(), PaymentError>(())
                &&& is_due(p, now) ==> r == payment_outcome(
                    old(self).users(),
                    p.from@,
                    p.amount,
                    receiver_key_valid(p.to@),
                    submitted,
                )
                &&& is_due(p, now) && r.is_ok() ==> {
                    &&& balances(final(self).users()) == transferred(
                        balances(old(self).users()),
                        p.from@,
                        p.to@,
                        p.amount,
                    )
                    &&& same_accounts(old(self).users(), final(self).users())
                    &&& recurring_settled(
                        old(self).recurring(),
                        final(self).recurring(),
                        old(self).payments(),
                        final(self).payments(),
                        index as int,
                        now,
                    )
                    &&& records(final(self).payments().last(), p.from@, p.to@, p.amount, p.message@)
                }
                &&& !(is_due(p, now) && r.is_ok()) ==> {
                    &&& final(self).users() == old(self).users()
                    &&& final(self).payments() == old(self).payments()
                    &&& final(self).recurring() == old(self).recurring()
                }
            }),
    {
        let receiver_valid = receiver_key(self.recurring_payments[index].to.as_str()).is_some();
        let timestamp = now_timestamp();
        self.process_recurring_payment(index, now, receiver_valid, submitted, timestamp)
    }

    /// The payment log, oldest first.
    pub fn payment_log(&self) -> (r: &Vec<Payment>)
        ensures
            r@ == self.payments(),
    {
        &self.payments
    }

    /// The recurring payments, in the order they were added.
    pub fn recurring_schedule(&self) -> (r: &Vec<RecurringPayment>)
        ensures
            r@ == self.recurring(),
    {
        &self.recurring_payments
    }
}

/// Decodes the receiver's key, refusing at once a text of the wrong length.
fn receiver_key(to: &str) -> (r: Option<stellar_sdk::Keypair>)
    ensures
        r.is_some() == receiver_key_valid(to@),
{
    if to.unicode_len() != 56 {
        return None;
    }
    parse_public_key(to)
}

/// Replacing the account at `i` by one of the same identifier changes the
/// ledger at that identifier only.
proof fn lemma_set_account(users: Seq<User>, i: int, u: User)
    requires
        ids_unique(users),
        0 <= i < users.len(),
        u.public_key@ == users[i].public_key@,
    ensures
        ids_unique(users.update(i, u)),
        balances(users.update(i, u)) == balances(users).insert(u.public_key@, u.balance),
        keypair_of(users.update(i, u), u.public_key@) == u.keypair,
        forall|j: int|
            0 <= j < users.len() && j != i ==> #[trigger] users.update(i, u)[j] == users[j],
{
    let new = users.update(i, u);
    let id = u.public_key@;
    assert forall|a: int| 0 <= a < new.len() implies #[trigger] new[a].public_key@
        == users[a].public_key@ by {}
    assert(ids_unique(new)) by {
        assert forall|a: int, b: int|
            0 <= a < new.len() && 0 <= b < new.len() && #[trigger] new[a].public_key@
                == #[trigger] new[b].public_key@ implies a == b by {
            assert(users[a].public_key@ == new[a].public_key@);
            assert(users[b].public_key@ == new[b].public_key@);
        }
    }
    assert forall|k: Seq<char>| has_account(new, k) == has_account(users, k) by {
        if has_account(users, k) {
            let j = account_index(users, k);
            assert(new[j].public_key@ == k);
        }
        if has_account(new, k) {
            let j = account_index(new, k);
            assert(users[j].public_key@ == k);
        }
    }
    lemma_index_of(new, i);
    assert forall|k: Seq<char>| #[trigger]
        has_account(new, k) && k != id implies new[account_index(new, k)].balance
        == users[account_index(users, k)].balance by {
        let j = account_index(new, k);
        let j2 = account_index(users, k);
        assert(users[j].public_key@ == k);
        assert(users[j2].public_key@ == k);
    }
    assert(balances(new) =~= balances(users).insert(id, u.balance));
}

/// Appending an account of a new identifier adds that identifier to the ledger.
proof fn lemma_push_account(users: Seq<User>, u: User)
    requires
        ids_unique(users),
        !has_account(users, u.public_key@),
    ensures
        ids_unique(users.push(u)),
        balances(users.push(u)) == balances(users).insert(u.public_key@, u.balance),
        keypair_of(users.push(u), u.public_key@) == u.keypair,
{
    let new = users.push(u);
    let id = u.public_key@;
    let n = users.len() as int;
    assert forall|a: int| 0 <= a < n implies #[trigger] new[a] == users[a] by {}
    assert(ids_unique(new)) by {
        assert forall|a: int, b: int|
            0 <= a < new.len() && 0 <= b < new.len() && #[trigger] new[a].public_key@
                == #[trigger] new[b].public_key@ implies a == b by {
            if a < n {
                assert(users[a].public_key@ == new[a].public_key@);
            }
            if b < n {
                assert(users[b].public_key@ == new[b].public_key@);
            }
        }
    }
    assert forall|k: Seq<char>| has_account(new, k) == (has_account(users, k) || k == id) by {
        if has_account(users, k) {
            let j = account_index(users, k);
            assert(new[j].public_key@ == k);
        }
        if k == id {
            assert(new[n].public_key@ == k);
        }
        if has_account(new, k) && k != id {
            let j = account_index(new, k);
            assert(users[j].public_key@ == k);
        }
    }
    lemma_index_of(new, n);
    assert forall|k: Seq<char>| #[trigger]
        has_account(new, k) && k != id implies new[account_index(new, k)].balance
        == users[account_index(users, k)].balance by {
        let j = account_index(new, k);
        let j2 = account_index(users, k);
        assert(j < n);
        assert(users[j].public_key@ == k);
        assert(users[j2].public_key@ == k);
    }
    assert(balances(new) =~= balances(users).insert(id, u.balance));
}

/// Under unique identifiers the account found at `i` is the one of its identifier.
proof fn lemma_index_of(users: Seq<User>, i: int)
    requires
        ids_unique(users),
        0 <= i < users.len(),
    ensures
        has_account(users, users[i].public_key@),
        account_index(users, users[i].public_key@) == i,
{
    let id = users[i].public_key@;
    assert(users[i].public_key@ == id);
    let j = account_index(users, id);
    assert(users[j].public_key@ == users[i].public_key@);
}

} // verus!
