//! Appending signed movements to the ledger.

use crate::models::{Product, ProductV, Rappen, TransactionV, User};
use vstd::prelude::*;

verus! {

/// The entry a purchase appends: the price debited, the product named.
pub open spec fn purchase_entry(p: ProductV, user_id: Seq<char>, ts: int) -> TransactionV {
    TransactionV { amount: -p.price, timestamp: ts, user: user_id, product_name: Some(p.name) }
}

/// The entry a free-form amount appends: the amount exactly as given.
pub open spec fn amount_entry(amount: int, user_id: Seq<char>, ts: int) -> TransactionV {
    TransactionV { amount: amount, timestamp: ts, user: user_id, product_name: None }
}

/// The ledger interface. An append either happens whole, at some
/// timestamp the clock supplied, or reports `Err` leaving the ledger as
/// it was.
pub trait TransactionService {
    spec fn ledger(&self) -> Seq<TransactionV>;

    fn register_product_transaction(&mut self, product: &Product, sender: &User) -> (r: Result<
        (),
        (),
    >)
        ensures
            r matches Ok(()) ==> exists|ts: int|
                final(self).ledger() == old(self).ledger().push(
                    #[trigger] purchase_entry(product@, sender.id@, ts),
                ),
            r is Err ==> final(self).ledger() == old(self).ledger(),
    ;

    fn register_amount_transaction(&mut self, amount: Rappen, sender: &User) -> (r: Result<(), ()>)
        ensures
            r matches Ok(()) ==> exists|ts: int|
                final(self).ledger() == old(self).ledger().push(
                    #[trigger] amount_entry(amount as int, sender.id@, ts),
                ),
            r is Err ==> final(self).ledger() == old(self).ledger(),
    ;
}

} // verus!
