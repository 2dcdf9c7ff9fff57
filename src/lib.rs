//! Finds sell offers worth contacting on a trading marketplace, ranks them by
//! seller value, and composes the whisper messages that open a negotiation.
//!
//! The stages: `fetch` schedules one retrieval per item under a concurrency
//! limit and merges the outcomes; `filter` decides which offers qualify;
//! `ranking` aggregates them by seller and orders them; `message` composes
//! the text to send for each. `settings` holds what the user configures, and
//! `contacted` the offers already contacted.

pub mod contacted;
pub mod fetch;
pub mod filter;
pub mod item_info;
pub mod message;
pub mod order;
pub mod ranking;
pub mod settings;
pub mod text;

pub use contacted::{contacted_record, record_id, ContactLog};
pub use fetch::{FetchFailure, FetchReport, FetchRequest, OrderFetcher, BASE_URL};
pub use filter::{
    default_order_filter, OrderFilter, MAX_PRICE_TO_SEARCH, MIN_QUANTITY_TO_SEARCH, PRICE_TO_OFFER,
};
pub use message::{generate_message, generate_messages};
pub use order::{GetOrdersResponse, Order, Payload, User};
pub use ranking::{filter_orders, process_orders, rank_orders};
pub use settings::{ConfigError, Preset, Settings, SettingsManager, PROFITABLE_ITEM_NAMES};
