//! Deriving per-user balances from the ledger.

use crate::models::{Balance, BalanceV, TransactionV, UserV};
use vstd::prelude::*;

verus! {

/// The sum of every ledger movement of one user.
pub open spec fn sum_amounts(id: Seq<char>, txs: Seq<TransactionV>) -> int
    decreases txs.len(),
{
    if txs.len() == 0 {
        0
    } else {
        sum_amounts(id, txs.drop_last()) + (if txs.last().user == id {
            txs.last().amount
        } else {
            0
        })
    }
}

/// One balance line per known user, in directory order. A user is known
/// through the directory alone: the orchestrator upserts the sender
/// before any append, so every ledger entry's user has a line; entries
/// written for a never-upserted sender would not be shown.
pub open spec fn balances_of(users: Seq<UserV>, txs: Seq<TransactionV>) -> Seq<BalanceV> {
    Seq::new(
        users.len(),
        |i: int| BalanceV {
            user_id: users[i].id,
            name: users[i].name,
            amount: sum_amounts(users[i].id, txs),
        },
    )
}

/// Whether every derived total fits the amount type.
pub open spec fn balances_fit(bs: Seq<BalanceV>) -> bool {
    forall|i: int| 0 <= i < bs.len() ==> i32::MIN <= (#[trigger] bs[i]).amount <= i32::MAX
}

/// The balance interface. Whatever a reading returns must be the derived
/// balances of its state.
pub trait BalanceService {
    spec fn balances(&self) -> Seq<BalanceV>;

    fn get_balances(&self) -> (r: Result<Vec<Balance>, ()>)
        ensures
            r matches Ok(v) ==> v.deep_view() == self.balances(),
    ;
}

} // verus!
