//! The decisions of a backtest node, which connects data catalogs with backtest engines.
//!
//! [`node::BacktestNode`] holds run configurations and the engines that were built for them.
//! Its methods `build` and `run` perform no outside work: each call takes the reply to the
//! last action and returns the next one, and the embedding application performs it. What is
//! decided between two actions is stated in the contracts and proved.
//!
//! - [`validate`] says which configurations are accepted.
//! - [`setup`] and [`venue`] say how an engine is set up for a run.
//! - [`catalog`] says which catalog is opened and what it is queried for.
//! - [`oneshot`] runs an engine once over all data; [`streaming`] feeds it in chunks, which
//!   [`chunk`] cuts and [`stream`] hands over. [`stream_laws`] states what holds of every
//!   stream, and [`order_laws`] what its two kinds have in common.
//! - [`ordering`] watches a merged stream.
//! - [`run`] puts these together.
//!
//! What holds of the library as a whole is stated apart from the contracts, over the settings
//! that go in and over the rows of what is asked for and told: in [`catalog_laws`],
//! [`validate_laws`], [`venue_laws`], [`setup_laws`], [`load_laws`], [`feed_laws`],
//! [`watch_laws`] and [`run_laws`], and for views and texts in [`view_laws`] and [`text_laws`].
pub mod catalog;
pub mod catalog_laws;
pub mod chunk;
pub mod config;
pub mod data;
pub mod error;
pub mod feed_laws;
pub mod hashed;
pub mod load_laws;
pub mod node;
pub mod oneshot;
pub mod order_laws;
pub mod ordering;
pub mod report;
pub mod run;
pub mod run_laws;
pub mod setup;
pub mod setup_laws;
pub mod step;
pub mod stream;
pub mod stream_laws;
pub mod streaming;
pub mod text;
pub mod text_laws;
pub mod time;
pub mod validate;
pub mod validate_laws;
pub mod venue;
pub mod venue_laws;
pub mod view_laws;
pub mod watch_laws;
