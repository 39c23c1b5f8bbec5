use kafi_kaesseli::currency_handling::currency_parser::{CurrencyParser, CurrencyParserImpl};
use kafi_kaesseli::models::{Command, Message, MessageAction, Product, Rappen, User};
use kafi_kaesseli::services::product_service::{ProductService, ProductServiceImpl};
use kafi_kaesseli::message_router::{MessageRouter, MessageRouterImpl};

fn message(contents: &str) -> Message {
    Message {
        sender: User {
            id: "some id".to_string(),
            name: "Test".to_string(),
        },
        contents: contents.to_string(),
    }
}

/// A catalog stand-in whose lookups always fail.
struct FailingProductService;

impl ProductService for FailingProductService {
    fn catalog(&self) -> vstd::prelude::Seq<kafi_kaesseli::models::ProductV> {
        unreachable!()
    }

    fn infallible(&self) -> bool {
        unreachable!()
    }

    fn get_available_products(&self) -> Result<Vec<Product>, ()> {
        Err(())
    }

    fn get_product_with_identifier(&self, _identifier: &str) -> Result<Option<Product>, ()> {
        Err(())
    }
}

/// A parser stand-in that recognizes nothing.
struct RejectingCurrencyParser;

impl CurrencyParser for RejectingCurrencyParser {
    fn parse_text(&self, _text: &str) -> Result<Rappen, ()> {
        Err(())
    }
}

#[test]
fn unknown_message() {
    let product_service = ProductServiceImpl::new(vec![]);
    let currency_parser = CurrencyParserImpl::new();

    let router = MessageRouterImpl::new(product_service, currency_parser);

    let action = router.route_message(&message("Foo")).unwrap();
    assert_eq!(None, action);
}

#[test]
fn stats_command() {
    let product_service = ProductServiceImpl::new(vec![]);
    let currency_parser = CurrencyParserImpl::new();

    let router = MessageRouterImpl::new(product_service, currency_parser);

    let action = router.route_message(&message("/stats")).unwrap();
    assert_eq!(
        Some(MessageAction::Command(Command::GetCurrentStats)),
        action
    );
}

#[test]
fn list_available_items_command() {
    let product_service = ProductServiceImpl::new(vec![]);
    let currency_parser = CurrencyParserImpl::new();

    let router = MessageRouterImpl::new(product_service, currency_parser);

    let action = router.route_message(&message("/list")).unwrap();
    assert_eq!(
        Some(MessageAction::Command(Command::ListAvailableItems)),
        action
    );
}

#[test]
fn known_product() {
    let product = Product {
        identifier: "foo".to_string(),
        name: "test product".to_string(),
        price: 60,
    };

    let product_service = ProductServiceImpl::new(vec![product.clone()]);
    let currency_parser = CurrencyParserImpl::new();

    let router = MessageRouterImpl::new(product_service, currency_parser);

    let action = router.route_message(&message("/foo")).unwrap();
    assert_eq!(Some(MessageAction::Product(product)), action);
}

#[test]
fn known_product_without_slash() {
    let product = Product {
        identifier: "foo".to_string(),
        name: "test product".to_string(),
        price: 60,
    };

    let product_service = ProductServiceImpl::new(vec![product.clone()]);
    let currency_parser = CurrencyParserImpl::new();

    let router = MessageRouterImpl::new(product_service, currency_parser);

    let action = router.route_message(&message("foo")).unwrap();
    assert_eq!(Some(MessageAction::Product(product)), action);
}

#[test]
fn amount() {
    let product_service = ProductServiceImpl::new(vec![]);
    let currency_parser = CurrencyParserImpl::new();

    let router = MessageRouterImpl::new(product_service, currency_parser);

    let action = router.route_message(&message("1.20")).unwrap();
    assert_eq!(Some(MessageAction::Amount(120)), action);
}

#[test]
fn error_in_product_service() {
    let router = MessageRouterImpl::new(FailingProductService, RejectingCurrencyParser);

    router.route_message(&message("1.20")).unwrap_err();
}
