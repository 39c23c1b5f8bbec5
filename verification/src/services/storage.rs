//! In-memory storage implementing the directory, ledger and balance
//! interfaces, with exact contracts.

use crate::clock::unix_timestamp_millis;
use crate::models::{Balance, BalanceV, Product, Transaction, TransactionV, User, UserV};
use crate::services::balance_service::{balances_fit, balances_of, sum_amounts, BalanceService};
use crate::services::transaction_service::{amount_entry, purchase_entry, TransactionService};
use crate::services::user_service::{
    lemma_user_index_skip, upsert_users, user_index, UserService,
};
use crate::text::string_eq;
use vstd::prelude::*;

verus! {

/// The most ledger entries the store accepts; keeps every possible
/// balance total within a 64-bit accumulator.
pub const MAX_LEDGER_LEN: usize = 0x4000_0000;

/// Whether a state's balances can be derived and represented: the ledger
/// is within the store's capacity and every total fits the amount type.
pub open spec fn balances_computable(users: Seq<UserV>, txs: Seq<TransactionV>) -> bool {
    txs.len() <= MAX_LEDGER_LEN && balances_fit(balances_of(users, txs))
}

/// The exact outcome a balance reading owes for a given state: the
/// derived balances when they are computable, an error otherwise.
pub open spec fn balances_reading_post(
    users: Seq<UserV>,
    txs: Seq<TransactionV>,
    r: Option<Seq<BalanceV>>,
) -> bool {
    if balances_computable(users, txs) {
        r == Some(balances_of(users, txs))
    } else {
        r is None
    }
}

/// Reading balances twice with no intervening write returns identical
/// results: the owed outcome is a function of the state alone.
pub proof fn lemma_balances_reading_deterministic(
    users: Seq<UserV>,
    txs: Seq<TransactionV>,
    r1: Option<Seq<BalanceV>>,
    r2: Option<Seq<BalanceV>>,
)
    requires
        balances_reading_post(users, txs, r1),
        balances_reading_post(users, txs, r2),
    ensures
        r1 == r2,
{
}

/// Users and ledger entries, held directly in memory.
pub struct InMemoryStorage {
    pub users: Vec<User>,
    pub transactions: Vec<Transaction>,
}

impl InMemoryStorage {
    pub open spec fn users_v(&self) -> Seq<UserV> {
        self.users.deep_view()
    }

    pub open spec fn ledger_v(&self) -> Seq<TransactionV> {
        self.transactions.deep_view()
    }

    pub fn new() -> (r: Self)
        ensures
            r.users_v() == Seq::<UserV>::empty(),
            r.ledger_v() == Seq::<TransactionV>::empty(),
    {
        let r = InMemoryStorage { users: Vec::new(), transactions: Vec::new() };
        proof {
            assert(r.users_v() =~= Seq::<UserV>::empty());
            assert(r.ledger_v() =~= Seq::<TransactionV>::empty());
        }
        r
    }

    /// Insert-or-update of one user record; never fails.
    pub fn upsert_user(&mut self, user: &User)
        ensures
            final(self).users_v() == upsert_users(old(self).users_v(), user@),
            final(self).transactions == old(self).transactions,
    {
        let ghost usersv = self.users.deep_view();
        let mut i: usize = 0;
        while i < self.users.len()
            invariant
                i <= self.users.len(),
                self.users == old(self).users,
                self.transactions == old(self).transactions,
                usersv == self.users.deep_view(),
                forall|j: int| 0 <= j < i ==> (#[trigger] usersv[j]).id != user.id@,
            decreases self.users.len() - i,
        {
            if string_eq(self.users[i].id.as_str(), user.id.as_str()) {
                proof {
                    lemma_user_index_skip(usersv, user.id@, i as int);
                    assert(usersv.skip(i as int)[0] == usersv[i as int]);
                    assert(user_index(usersv, user.id@) == Some(i as int));
                }
                self.users.set(i, user.duplicate());
                proof {
                    assert(self.users.deep_view() =~= usersv.update(i as int, user@));
                }
                return;
            }
            i += 1;
        }
        proof {
            lemma_user_index_skip(usersv, user.id@, usersv.len() as int);
            assert(usersv.skip(usersv.len() as int).len() == 0);
            assert(user_index(usersv, user.id@) is None);
        }
        self.users.push(user.duplicate());
        proof {
            assert(self.users.deep_view() =~= usersv.push(user@));
        }
    }

    /// Appends the debit of one purchase, timestamped now. Fails exactly
    /// when the ledger is full or the debit is not representable.
    pub fn append_purchase(&mut self, product: &Product, sender: &User) -> (r: Result<(), ()>)
        ensures
            r is Ok <==> old(self).transactions@.len() < MAX_LEDGER_LEN && product@.price
                != i32::MIN,
            r matches Ok(()) ==> exists|ts: int|
                final(self).ledger_v() == old(self).ledger_v().push(
                    #[trigger] purchase_entry(product@, sender.id@, ts),
                ),
            r is Err ==> final(self).transactions == old(self).transactions,
            final(self).users == old(self).users,
    {
        if product.price == i32::MIN || self.transactions.len() >= MAX_LEDGER_LEN {
            return Err(());
        }
        let ts = unix_timestamp_millis();
        let entry = Transaction {
            amount: -product.price,
            timestamp: ts,
            user: sender.id.clone(),
            product_name: Some(product.name.clone()),
        };
        let ghost before = self.transactions.deep_view();
        let ghost entryv = entry@;
        self.transactions.push(entry);
        proof {
            assert(self.transactions.deep_view() =~= before.push(entryv));
            assert(entryv == purchase_entry(product@, sender.id@, ts as int));
        }
        Ok(())
    }

    /// Appends one free-form movement, the amount exactly as given,
    /// timestamped now. Fails exactly when the ledger is full.
    pub fn append_amount(&mut self, amount: i32, sender: &User) -> (r: Result<(), ()>)
        ensures
            r is Ok <==> old(self).transactions@.len() < MAX_LEDGER_LEN,
            r matches Ok(()) ==> exists|ts: int|
                final(self).ledger_v() == old(self).ledger_v().push(
                    #[trigger] amount_entry(amount as int, sender.id@, ts),
                ),
            r is Err ==> final(self).transactions == old(self).transactions,
            final(self).users == old(self).users,
    {
        if self.transactions.len() >= MAX_LEDGER_LEN {
            return Err(());
        }
        let ts = unix_timestamp_millis();
        let entry = Transaction {
            amount,
            timestamp: ts,
            user: sender.id.clone(),
            product_name: None,
        };
        let ghost before = self.transactions.deep_view();
        let ghost entryv = entry@;
        self.transactions.push(entry);
        proof {
            assert(self.transactions.deep_view() =~= before.push(entryv));
            assert(entryv == amount_entry(amount as int, sender.id@, ts as int));
        }
        Ok(())
    }

    /// Derives every user's balance by summing the whole ledger.
    pub fn compute_balances(&self) -> (r: Result<Vec<Balance>, ()>)
        ensures
            balances_reading_post(
                self.users_v(),
                self.ledger_v(),
                match r {
                    Ok(v) => Some(v.deep_view()),
                    Err(_) => None,
                },
            ),
    {
        let ghost usersv = self.users.deep_view();
        let ghost txsv = self.transactions.deep_view();
        let ghost bs = balances_of(usersv, txsv);
        if self.transactions.len() > MAX_LEDGER_LEN {
            return Err(());
        }
        let mut out: Vec<Balance> = Vec::new();
        let mut i: usize = 0;
        while i < self.users.len()
            invariant
                i <= self.users.len(),
                usersv == self.users.deep_view(),
                txsv == self.transactions.deep_view(),
                bs == balances_of(usersv, txsv),
                self.transactions@.len() <= MAX_LEDGER_LEN,
                out.deep_view() =~= bs.take(i as int),
                forall|q: int| 0 <= q < i ==> i32::MIN <= (#[trigger] bs[q]).amount <= i32::MAX,
            decreases self.users.len() - i,
        {
            let ghost id = usersv[i as int].id;
            let mut acc: i64 = 0;
            let mut j: usize = 0;
            while j < self.transactions.len()
                invariant
                    j <= self.transactions.len(),
                    i < self.users.len(),
                    usersv == self.users.deep_view(),
                    txsv == self.transactions.deep_view(),
                    self.transactions@.len() <= MAX_LEDGER_LEN,
                    id == usersv[i as int].id,
                    acc as int == sum_amounts(id, txsv.take(j as int)),
                    -(j as int) * 0x8000_0000 <= acc as int <= (j as int) * 0x8000_0000,
                decreases self.transactions.len() - j,
            {
                proof {
                    assert(txsv.take(j as int + 1).drop_last() =~= txsv.take(j as int));
                    assert(txsv.take(j as int + 1).last() == txsv[j as int]);
                    assert(txsv[j as int] == self.transactions@[j as int].deep_view());
                }
                let tx = &self.transactions[j];
                if string_eq(tx.user.as_str(), self.users[i].id.as_str()) {
                    acc = acc + tx.amount as i64;
                }
                j += 1;
            }
            proof {
                assert(txsv.take(txsv.len() as int) =~= txsv);
                assert(bs[i as int].amount == sum_amounts(id, txsv));
            }
            if acc < i32::MIN as i64 || acc > i32::MAX as i64 {
                proof {
                    assert(!balances_fit(bs));
                }
                return Err(());
            }
            let user = &self.users[i];
            let ghost out_before = out.deep_view();
            let line = Balance {
                user_id: user.id.clone(),
                name: user.name.clone(),
                amount: acc as i32,
            };
            proof {
                assert(line@ == bs[i as int]);
            }
            out.push(line);
            proof {
                assert(out.deep_view() =~= out_before.push(bs[i as int]));
                assert(out_before.push(bs[i as int]) =~= bs.take(i as int + 1));
            }
            i += 1;
        }
        proof {
            assert(out.deep_view() =~= bs);
            assert(balances_fit(bs));
        }
        Ok(out)
    }
}

impl UserService for InMemoryStorage {
    open spec fn users(&self) -> Seq<UserV> {
        self.users_v()
    }

    fn update_user(&mut self, user: &User) -> (r: Result<(), ()>)
        ensures
            r is Ok,
    {
        self.upsert_user(user);
        Ok(())
    }
}

impl TransactionService for InMemoryStorage {
    open spec fn ledger(&self) -> Seq<TransactionV> {
        self.ledger_v()
    }

    fn register_product_transaction(&mut self, product: &Product, sender: &User) -> (r: Result<
        (),
        (),
    >)
        ensures
            r is Ok <==> old(self).transactions@.len() < MAX_LEDGER_LEN && product@.price
                != i32::MIN,
    {
        self.append_purchase(product, sender)
    }

    fn register_amount_transaction(&mut self, amount: i32, sender: &User) -> (r: Result<(), ()>)
        ensures
            r is Ok <==> old(self).transactions@.len() < MAX_LEDGER_LEN,
    {
        self.append_amount(amount, sender)
    }
}

impl BalanceService for InMemoryStorage {
    open spec fn balances(&self) -> Seq<BalanceV> {
        balances_of(self.users_v(), self.ledger_v())
    }

    fn get_balances(&self) -> (r: Result<Vec<Balance>, ()>)
        ensures
            balances_reading_post(
                self.users_v(),
                self.ledger_v(),
                match r {
                    Ok(v) => Some(v.deep_view()),
                    Err(_) => None,
                },
            ),
    {
        self.compute_balances()
    }
}

} // verus!
