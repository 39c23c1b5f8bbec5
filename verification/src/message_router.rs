//! Classifying a message: command, product reference, or free amount.

use crate::currency_handling::currency_parser::CurrencyParser;
use crate::currency_handling::notation::parse_amount_spec;
use crate::models::{Command, Message, MessageAction, Product, ProductV};
use crate::services::product_service::{find_product, ProductService};
use crate::text::string_eq;
use vstd::prelude::*;
use vstd::string::*;

verus! {

/// The key looked up in the catalog: the message text with at most one
/// leading slash removed.
pub open spec fn strip_slash(c: Seq<char>) -> Seq<char> {
    if c.len() >= 1 && c[0] == '/' {
        c.drop_first()
    } else {
        c
    }
}

/// The fixed command vocabulary; nothing else is a command.
pub open spec fn command_of(c: Seq<char>) -> Option<Command> {
    if c == "/list"@ {
        Some(Command::ListAvailableItems)
    } else if c == "/stats"@ {
        Some(Command::GetCurrentStats)
    } else {
        None
    }
}

/// What a classification owes, given the catalog it consults: commands
/// come first, then products, then the currency reading; `Ok(None)` means
/// no alternative recognized the text. `Err` is a catalog failure during
/// the lookup — never possible over an infallible catalog, so a lookup
/// failure cannot be passed off as "no match".
pub open spec fn route_outcome(
    catalog: Seq<ProductV>,
    infallible: bool,
    c: Seq<char>,
    r: Result<Option<MessageAction>, ()>,
) -> bool {
    match command_of(c) {
        Some(command) => r == Ok::<Option<MessageAction>, ()>(
            Some(MessageAction::Command(command)),
        ),
        None => match r {
            Ok(Some(MessageAction::Product(p))) => find_product(catalog, strip_slash(c)) == Some(
                p@,
            ),
            Ok(Some(MessageAction::Amount(a))) => find_product(catalog, strip_slash(c)) is None
                && parse_amount_spec(c) == Some(a as int),
            Ok(Some(MessageAction::Command(_))) => false,
            Ok(None) => find_product(catalog, strip_slash(c)) is None && (match parse_amount_spec(
                c,
            ) {
                Some(v) => !(i32::MIN <= v && v <= i32::MAX),
                None => true,
            }),
            Err(()) => !infallible,
        },
    }
}

pub trait MessageRouter {
    spec fn catalog(&self) -> Seq<ProductV>;

    /// Whether classification can never fail over this router's catalog.
    spec fn infallible(&self) -> bool;

    fn route_message(&self, message: &Message) -> (r: Result<Option<MessageAction>, ()>)
        ensures
            route_outcome(self.catalog(), self.infallible(), message.contents@, r),
    ;
}

pub struct MessageRouterImpl<P: ProductService, C: CurrencyParser> {
    pub product_service: P,
    pub currency_parser: C,
}

impl<P: ProductService, C: CurrencyParser> MessageRouterImpl<P, C> {
    pub fn new(product_service: P, currency_parser: C) -> (r: Self)
        ensures
            r.product_service == product_service,
            r.currency_parser == currency_parser,
    {
        Self { product_service, currency_parser }
    }

    /// The command the text names, if any.
    pub fn get_command(&self, message: &Message) -> (r: Option<Command>)
        ensures
            r == command_of(message.contents@),
    {
        if string_eq(message.contents.as_str(), "/list") {
            Some(Command::ListAvailableItems)
        } else if string_eq(message.contents.as_str(), "/stats") {
            Some(Command::GetCurrentStats)
        } else {
            None
        }
    }

    /// The catalog lookup for the slash-stripped text.
    pub fn get_product(&self, message: &Message) -> (r: Result<Option<Product>, ()>)
        ensures
            r matches Ok(p) ==> (match p {
                Some(q) => find_product(self.product_service.catalog(), strip_slash(
                    message.contents@,
                )) == Some(q@),
                None => find_product(self.product_service.catalog(), strip_slash(message.contents@))
                    is None,
            }),
            self.product_service.infallible() ==> r is Ok,
    {
        let contents = message.contents.as_str();
        let n = contents.unicode_len();
        let stripped: &str = if n >= 1 && contents.get_char(0) == '/' {
            let rest = contents.substring_char(1, n);
            proof {
                assert(rest@ =~= strip_slash(message.contents@));
            }
            rest
        } else {
            contents
        };
        self.product_service.get_product_with_identifier(stripped)
    }
}

impl<P: ProductService, C: CurrencyParser> MessageRouter for MessageRouterImpl<P, C> {
    open spec fn catalog(&self) -> Seq<ProductV> {
        self.product_service.catalog()
    }

    open spec fn infallible(&self) -> bool {
        self.product_service.infallible()
    }

    fn route_message(&self, message: &Message) -> (r: Result<Option<MessageAction>, ()>) {
        if let Some(command) = self.get_command(message) {
            return Ok(Some(MessageAction::Command(command)));
        }
        match self.get_product(message) {
            Err(()) => {
                return Err(());
            },
            Ok(Some(product)) => {
                return Ok(Some(MessageAction::Product(product)));
            },
            Ok(None) => {},
        }
        if let Ok(amount) = self.currency_parser.parse_text(message.contents.as_str()) {
            return Ok(Some(MessageAction::Amount(amount)));
        }
        Ok(None)
    }
}

} // verus!
