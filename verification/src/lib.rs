//! Tag subscriptions for a booru image board.
//!
//! Users follow tags. A polling cycle fetches the posts that are newer than
//! the stored post index, moves the index up to the newest of them, and
//! sends every user who follows a tag of a fetched post one message about
//! that post.
//!
//! - `api`: the posts of the board, their tags, ids and addresses.
//! - `db`: the subscription store as a trait, with the contract that every
//!   store is held to.
//! - `memory`: a store in memory.
//! - `notifier`: the cycle, from the fetched page to the messages.
//! - `dispatcher`: the sending of the messages, one attempt each.
//! - `bot`: the commands by which users subscribe and unsubscribe.
//! - `text`: splitting, joining and decimal numerals.
//!
//! Fetching, the database and the messenger are not part of the library: a
//! program asks the board for the posts after the stored index, hands the
//! page and its store to `notifier::run`, and sends what comes back.

pub mod api;
pub mod bot;
pub mod db;
pub mod dispatcher;
pub mod memory;
pub mod notifier;
pub mod text;
