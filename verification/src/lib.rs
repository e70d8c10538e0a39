//! A shared board of posts in a transactional key-value store, and the hub
//! that tells every connected viewer of each change.
//!
//! - `keyspace`: the order of the store's keys and the range kept for posts.
//! - `store`: the rows and writes that travel to and from the store, and a
//!   model of what it holds.
//! - `repository`: what each operation on the posts writes and answers.
//! - `session`: one operation as a conversation with the store, with its
//!   bounded attempts.
//! - `laws`: what holds of the operations, whatever the store holds.
//! - `hub`: the registry of subscribers and the fan-out to them.
//! - `notify`: the text of a notification.
//! - `request`: the text that arrives from a viewer.
//! - `catalog`: the seed posts.
//! - `simulator`: the plan of a pool of workers that load the repository.
//! - `text`: text and bytes.

pub mod catalog;
pub mod hub;
pub mod keyspace;
pub mod laws;
pub mod notify;
pub mod repository;
pub mod request;
pub mod session;
pub mod simulator;
pub mod store;
pub mod text;
