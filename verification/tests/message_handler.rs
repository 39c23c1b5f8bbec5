use kafi_kaesseli::currency_handling::currency_formatter::{
    CurrencyFormatter, CurrencyFormatterImpl,
};
use kafi_kaesseli::message_handler::{MessageHandler, MessageHandlerImpl};
use kafi_kaesseli::message_router::MessageRouter;
use kafi_kaesseli::models::{Command, Message, MessageAction, Product, Response, User};
use kafi_kaesseli::services::product_service::ProductServiceImpl;
use kafi_kaesseli::services::storage::InMemoryStorage;

/// A router stand-in answering a fixed classification, as the original
/// test doubles did.
struct FixedRouter(Option<MessageAction>);

impl MessageRouter for FixedRouter {
    fn catalog(&self) -> vstd::prelude::Seq<kafi_kaesseli::models::ProductV> {
        unreachable!()
    }

    fn infallible(&self) -> bool {
        unreachable!()
    }

    fn route_message(&self, _message: &Message) -> Result<Option<MessageAction>, ()> {
        Ok(self.0.clone())
    }
}

/// A formatter stand-in with fixed answers, as the original test double
/// gave them.
struct StubFormatter;

impl CurrencyFormatter for StubFormatter {
    fn format_amount(&self, amount: i32) -> String {
        match amount {
            420 => "4.20".to_string(),
            50 => "0.50".to_string(),
            _ => panic!("unexpected amount"),
        }
    }
}

#[test]
fn invalid_input() {
    let mut message_handler = MessageHandlerImpl::new(
        FixedRouter(None),
        ProductServiceImpl::new(vec![]),
        InMemoryStorage::new(),
        CurrencyFormatterImpl,
    );

    let responses = message_handler.handle_message(&Message {
        sender: User {
            id: "some id".to_string(),
            name: "foo".to_string(),
        },
        contents: "bar".to_string(),
    });
    assert_eq!(
        vec![Response {
            contents: "Invalid input".to_string()
        }],
        responses
    );
}

#[test]
fn list_command() {
    let products = vec![
        Product {
            identifier: "coke".to_string(),
            name: "a coke".to_string(),
            price: 420,
        },
        Product {
            identifier: "energy".to_string(),
            name: "energy drink".to_string(),
            price: 50,
        },
    ];

    let mut message_handler = MessageHandlerImpl::new(
        FixedRouter(Some(MessageAction::Command(Command::ListAvailableItems))),
        ProductServiceImpl::new(products),
        InMemoryStorage::new(),
        StubFormatter,
    );

    let responses = message_handler.handle_message(&Message {
        sender: User {
            id: "some id".to_string(),
            name: "foo".to_string(),
        },
        contents: "bar".to_string(),
    });

    assert_eq!(
        vec![Response {
            contents: "Available products:\n/coke - a coke (4.20)\n/energy - energy drink (0.50)"
                .to_string()
        }],
        responses
    );
}
