//! The collaborator interfaces of the core, and its in-memory storage.

pub mod balance_service;
pub mod product_service;
pub mod storage;
pub mod transaction_service;
pub mod user_service;
