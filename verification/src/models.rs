//! Data model of the coffee-fund core, with its mathematical images.
//!
//! Each persistent type has a view struct over `Seq<char>` and `int`, so
//! that contracts speak of values, not of heap objects.

use crate::text::string_eq;
use vstd::prelude::*;

verus! {

/// A signed amount of money, counted in the smallest currency unit.
pub type Rappen = i32;

/// A purchasable item of the catalog; `identifier` is its unique key.
#[derive(Clone, Debug)]
pub struct Product {
    pub identifier: String,
    pub name: String,
    pub price: Rappen,
}

pub struct ProductV {
    pub identifier: Seq<char>,
    pub name: Seq<char>,
    pub price: int,
}

impl View for Product {
    type V = ProductV;

    open spec fn view(&self) -> ProductV {
        ProductV { identifier: self.identifier@, name: self.name@, price: self.price as int }
    }
}

impl DeepView for Product {
    type V = ProductV;

    open spec fn deep_view(&self) -> ProductV {
        self@
    }
}

impl PartialEq for Product {
    /// Products are the same product when their keys are the same.
    fn eq(&self, other: &Self) -> (r: bool) {
        string_eq(self.identifier.as_str(), other.identifier.as_str())
    }
}

impl vstd::std_specs::cmp::PartialEqSpecImpl for Product {
    open spec fn obeys_eq_spec() -> bool {
        true
    }

    open spec fn eq_spec(&self, other: &Product) -> bool {
        self.identifier@ == other.identifier@
    }
}

impl Product {
    /// A copy with the same view; the derived clone carries no contract.
    pub fn duplicate(&self) -> (r: Product)
        ensures
            r@ == self@,
    {
        Product {
            identifier: self.identifier.clone(),
            name: self.name.clone(),
            price: self.price,
        }
    }
}

/// A chat participant; `id` is the platform identity and unique key.
#[derive(Clone, Debug)]
pub struct User {
    pub id: String,
    pub name: String,
}

pub struct UserV {
    pub id: Seq<char>,
    pub name: Seq<char>,
}

impl View for User {
    type V = UserV;

    open spec fn view(&self) -> UserV {
        UserV { id: self.id@, name: self.name@ }
    }
}

impl DeepView for User {
    type V = UserV;

    open spec fn deep_view(&self) -> UserV {
        self@
    }
}

impl PartialEq for User {
    /// Users are the same user when their platform identities match.
    fn eq(&self, other: &Self) -> (r: bool) {
        string_eq(self.id.as_str(), other.id.as_str())
    }
}

impl vstd::std_specs::cmp::PartialEqSpecImpl for User {
    open spec fn obeys_eq_spec() -> bool {
        true
    }

    open spec fn eq_spec(&self, other: &User) -> bool {
        self.id@ == other.id@
    }
}

impl User {
    /// A copy with the same view; the derived clone carries no contract.
    pub fn duplicate(&self) -> (r: User)
        ensures
            r@ == self@,
    {
        User { id: self.id.clone(), name: self.name.clone() }
    }
}

/// An incoming chat message.
#[derive(Clone, Debug, PartialEq)]
pub struct Message {
    pub sender: User,
    pub contents: String,
}

/// An outgoing reply; plain text, nothing more.
#[derive(Clone, Debug, PartialEq)]
pub struct Response {
    pub contents: String,
}

impl View for Response {
    type V = Seq<char>;

    open spec fn view(&self) -> Seq<char> {
        self.contents@
    }
}

impl DeepView for Response {
    type V = Seq<char>;

    open spec fn deep_view(&self) -> Seq<char> {
        self.contents@
    }
}

/// The two query commands of the fixed vocabulary.
#[derive(Clone, Copy, Debug, PartialEq, Eq, Structural)]
pub enum Command {
    GetCurrentStats,
    ListAvailableItems,
}

/// What a classified message asks for.
#[derive(Clone, Debug, PartialEq)]
pub enum MessageAction {
    Amount(Rappen),
    Command(Command),
    Product(Product),
}

/// One appended ledger movement; never mutated afterwards.
#[derive(Clone, Debug)]
pub struct Transaction {
    pub amount: Rappen,
    pub timestamp: i64,
    pub user: String,
    pub product_name: Option<String>,
}

pub struct TransactionV {
    pub amount: int,
    pub timestamp: int,
    pub user: Seq<char>,
    pub product_name: Option<Seq<char>>,
}

impl View for Transaction {
    type V = TransactionV;

    open spec fn view(&self) -> TransactionV {
        TransactionV {
            amount: self.amount as int,
            timestamp: self.timestamp as int,
            user: self.user@,
            product_name: match self.product_name {
                Some(n) => Some(n@),
                None => None,
            },
        }
    }
}

impl DeepView for Transaction {
    type V = TransactionV;

    open spec fn deep_view(&self) -> TransactionV {
        self@
    }
}

/// A derived per-user total; recomputed, never stored.
#[derive(Clone, Debug)]
pub struct Balance {
    pub user_id: String,
    pub name: String,
    pub amount: Rappen,
}

pub struct BalanceV {
    pub user_id: Seq<char>,
    pub name: Seq<char>,
    pub amount: int,
}

impl View for Balance {
    type V = BalanceV;

    open spec fn view(&self) -> BalanceV {
        BalanceV { user_id: self.user_id@, name: self.name@, amount: self.amount as int }
    }
}

impl DeepView for Balance {
    type V = BalanceV;

    open spec fn deep_view(&self) -> BalanceV {
        self@
    }
}

} // verus!
