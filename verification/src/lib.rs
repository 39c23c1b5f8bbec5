//! Message interpretation and ledger accounting for a group coffee-fund bot.
//!
//! The crate turns free-form chat messages into actions (query commands,
//! product purchases, free-form amounts), keeps a per-user ledger, and
//! formats replies, including amounts in a dash-marker currency notation.

mod clock;
pub mod currency_handling;
pub mod message_handler;
pub mod message_router;
pub mod models;
pub mod services;
pub mod text;
