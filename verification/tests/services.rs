use kafi_kaesseli::models::{Product, User};
use kafi_kaesseli::services::product_service::{ProductService, ProductServiceImpl};
use kafi_kaesseli::services::storage::InMemoryStorage;
use kafi_kaesseli::services::transaction_service::TransactionService;
use kafi_kaesseli::services::user_service::UserService;

#[test]
fn get_product_with_empty_database() {
    let product_service = ProductServiceImpl::new(vec![]);

    let result = product_service.get_product_with_identifier("foo");
    assert!(result.unwrap().is_none());
}

#[test]
fn get_product() {
    let product = Product {
        identifier: "foo".to_string(),
        name: "bar".to_string(),
        price: 120,
    };

    let product_service = ProductServiceImpl::new(vec![product.clone()]);

    let result = product_service.get_product_with_identifier("foo");
    assert_eq!(Some(product), result.unwrap());
}

#[test]
fn register_product_transaction() {
    let mut storage = InMemoryStorage::new();

    let sender = User {
        id: "foo".to_string(),
        name: "bar".to_string(),
    };

    let product = Product {
        identifier: "lorem".to_string(),
        name: "ipsum".to_string(),
        price: 200,
    };

    storage
        .register_product_transaction(&product, &sender)
        .unwrap();

    assert_eq!(storage.transactions.len(), 1);

    let transaction = &storage.transactions[0];
    assert_eq!(transaction.amount, -200);
    assert_eq!(transaction.user, "foo");
    assert_eq!(transaction.product_name, Some("ipsum".to_string()));
}

#[test]
fn register_amount_transaction() {
    let mut storage = InMemoryStorage::new();

    let sender = User {
        id: "foo".to_string(),
        name: "bar".to_string(),
    };

    let amount = 120;

    storage
        .register_amount_transaction(amount, &sender)
        .unwrap();

    assert_eq!(storage.transactions.len(), 1);

    let transaction = &storage.transactions[0];
    assert_eq!(transaction.amount, 120);
    assert_eq!(transaction.user, "foo");
    assert_eq!(transaction.product_name, None);
}

#[test]
fn insert_user() {
    let mut storage = InMemoryStorage::new();

    let user = User {
        id: "foo".to_string(),
        name: "bar".to_string(),
    };

    storage.update_user(&user).unwrap();

    assert_eq!(vec![user], storage.users);
}

#[test]
fn update_user() {
    let mut storage = InMemoryStorage::new();

    let mut user = User {
        id: "foo".to_string(),
        name: "bar".to_string(),
    };

    storage.update_user(&user).unwrap();

    user.name = "baz".to_string();

    storage.update_user(&user).unwrap();

    assert_eq!(vec![user.clone()], storage.users);
    assert_eq!("baz", storage.users[0].name);
}
