use kafi_kaesseli::currency_handling::currency_formatter::CurrencyFormatterImpl;
use kafi_kaesseli::currency_handling::currency_parser::{CurrencyParser, CurrencyParserImpl};
use kafi_kaesseli::message_handler::{MessageHandler, MessageHandlerImpl};
use kafi_kaesseli::message_router::{MessageRouter, MessageRouterImpl};
use kafi_kaesseli::models::{Command, Message, MessageAction, Product, Rappen, User};
use kafi_kaesseli::services::balance_service::BalanceService;
use kafi_kaesseli::services::product_service::{ProductService, ProductServiceImpl};
use kafi_kaesseli::services::storage::InMemoryStorage;

fn catalog() -> Vec<Product> {
    vec![Product {
        identifier: "coke".to_string(),
        name: "a coke".to_string(),
        price: 420,
    }]
}

fn handler_with_catalog(
    products: Vec<Product>,
) -> MessageHandlerImpl<
    MessageRouterImpl<ProductServiceImpl, CurrencyParserImpl>,
    ProductServiceImpl,
    CurrencyFormatterImpl,
> {
    let router = MessageRouterImpl::new(
        ProductServiceImpl::new(products.clone()),
        CurrencyParserImpl::new(),
    );
    MessageHandlerImpl::new(
        router,
        ProductServiceImpl::new(products),
        InMemoryStorage::new(),
        CurrencyFormatterImpl,
    )
}

fn message_from(id: &str, name: &str, contents: &str) -> Message {
    Message {
        sender: User {
            id: id.to_string(),
            name: name.to_string(),
        },
        contents: contents.to_string(),
    }
}

/// A catalog stand-in whose lookups always fail.
struct FailingProductService;

impl ProductService for FailingProductService {
    fn catalog(&self) -> vstd::prelude::Seq<kafi_kaesseli::models::ProductV> {
        unreachable!()
    }

    fn infallible(&self) -> bool {
        unreachable!()
    }

    fn get_available_products(&self) -> Result<Vec<Product>, ()> {
        Err(())
    }

    fn get_product_with_identifier(&self, _identifier: &str) -> Result<Option<Product>, ()> {
        Err(())
    }
}

#[test]
fn command_beats_product_with_same_name() {
    let products = vec![Product {
        identifier: "list".to_string(),
        name: "the list product".to_string(),
        price: 100,
    }];
    let router = MessageRouterImpl::new(ProductServiceImpl::new(products), CurrencyParserImpl::new());

    let action = router
        .route_message(&message_from("some id", "Test", "/list"))
        .unwrap();
    assert_eq!(
        Some(MessageAction::Command(Command::ListAvailableItems)),
        action
    );
}

#[test]
fn product_beats_currency_reading() {
    let product = Product {
        identifier: "1.20".to_string(),
        name: "oddly named".to_string(),
        price: 55,
    };
    let router = MessageRouterImpl::new(
        ProductServiceImpl::new(vec![product.clone()]),
        CurrencyParserImpl::new(),
    );

    let action = router
        .route_message(&message_from("some id", "Test", "1.20"))
        .unwrap();
    assert_eq!(Some(MessageAction::Product(product)), action);
}

#[test]
fn purchase_records_debit_and_marks_sender_line() {
    let mut handler = handler_with_catalog(catalog());

    let responses = handler.handle_message(&message_from("bob-id", "Bob", "1.-"));
    assert_eq!("Recorded 1.-", responses[0].contents);

    let responses = handler.handle_message(&message_from("alice-id", "Alice", "/coke"));
    assert_eq!(2, responses.len());
    assert_eq!("Recorded a coke", responses[0].contents);

    assert_eq!(2, handler.storage.transactions.len());
    let purchase = &handler.storage.transactions[1];
    assert_eq!(-420, purchase.amount);
    assert_eq!("alice-id", purchase.user);
    assert_eq!(Some("a coke".to_string()), purchase.product_name);

    let responses = handler.handle_message(&message_from("alice-id", "Alice", "/stats"));
    assert_eq!(1, responses.len());
    assert_eq!(
        "Current stats:\n- Bob (1.-)\n**- Alice (- 4.20)**",
        responses[0].contents
    );
}

#[test]
fn second_message_updates_display_name_last_write_wins() {
    let mut handler = handler_with_catalog(catalog());

    handler.handle_message(&message_from("carol-id", "Carol", "0.5"));
    handler.handle_message(&message_from("carol-id", "Caroline", "0.5"));

    assert_eq!(1, handler.storage.users.len());
    assert_eq!("carol-id", handler.storage.users[0].id);
    assert_eq!("Caroline", handler.storage.users[0].name);

    assert_eq!(2, handler.storage.transactions.len());
    assert_eq!(50, handler.storage.transactions[0].amount);
    assert_eq!(50, handler.storage.transactions[1].amount);
}

#[test]
fn balances_twice_without_writes_are_identical() {
    let mut handler = handler_with_catalog(catalog());
    handler.handle_message(&message_from("bob-id", "Bob", "2.-"));
    handler.handle_message(&message_from("alice-id", "Alice", "/coke"));

    let first = handler.storage.get_balances().unwrap();
    let second = handler.storage.get_balances().unwrap();

    assert_eq!(first.len(), second.len());
    for (a, b) in first.iter().zip(second.iter()) {
        assert_eq!(a.user_id, b.user_id);
        assert_eq!(a.name, b.name);
        assert_eq!(a.amount, b.amount);
    }
}

#[test]
fn classifier_failure_surfaces_as_internal_error() {
    let router = MessageRouterImpl::new(FailingProductService, CurrencyParserImpl::new());
    let mut handler = MessageHandlerImpl::new(
        router,
        ProductServiceImpl::new(vec![]),
        InMemoryStorage::new(),
        CurrencyFormatterImpl,
    );

    let responses = handler.handle_message(&message_from("some id", "Test", "whatever"));
    assert_eq!(1, responses.len());
    assert_eq!("Internal error (1)", responses[0].contents);
    assert!(handler.storage.users.is_empty());
    assert!(handler.storage.transactions.is_empty());
}

#[test]
fn unrecognized_text_is_refused_without_writes() {
    let mut handler = handler_with_catalog(catalog());

    let responses = handler.handle_message(&message_from("some id", "Test", "hello there"));
    assert_eq!(1, responses.len());
    assert_eq!("Invalid input", responses[0].contents);
    assert!(handler.storage.users.is_empty());
    assert!(handler.storage.transactions.is_empty());
}

#[test]
fn parse_rejects_malformed_and_unrepresentable_text() {
    let parser = CurrencyParserImpl::new();
    let rejected = [
        "", "-", "- ", ".5", "1.", "2.005", "1.2x", "2.-5", "a1", "1a", "1..", "1,,", "- .5",
        "21474836.48",
    ];
    for text in rejected {
        assert_eq!(Err(()), parser.parse_text(text), "{text:?}");
    }
}

#[test]
fn parse_accepts_edge_notations() {
    let parser = CurrencyParserImpl::new();
    let accepted: [(&str, Rappen); 8] = [
        ("007", 700),
        ("--.99", -99),
        ("-  2.5", -250),
        ("0.00", 0),
        ("0", 0),
        ("21474836.47", 2147483647),
        ("- 21474836.48", -2147483648),
        ("- 0.-", 0),
    ];
    for (text, expected) in accepted {
        assert_eq!(Ok(expected), parser.parse_text(text), "{text:?}");
    }
}

#[test]
fn listing_command_reads_without_touching_storage() {
    let mut handler = handler_with_catalog(catalog());

    let responses = handler.handle_message(&message_from("some id", "Test", "/list"));
    assert_eq!(
        vec!["Available products:\n/coke - a coke (4.20)".to_string()],
        responses
            .iter()
            .map(|r| r.contents.clone())
            .collect::<Vec<_>>()
    );
    assert!(handler.storage.users.is_empty());
    assert!(handler.storage.transactions.is_empty());
}
