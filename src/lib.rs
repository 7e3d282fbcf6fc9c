//! A small card duelling game for a chat bot: a verified matchmaker that
//! moves pairs of users from no relationship to a pending challenge and
//! then to an ongoing one, an in-memory challenge store that enforces the
//! same rules, a card dealer, and the text that the bot replies with.
pub mod models;
pub mod error;
pub mod store;
pub mod matchmaker;
pub mod laws;
pub mod dealer;
pub mod text;
pub mod command;
