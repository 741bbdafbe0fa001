//! A verified core for a real-time price streaming client and relay.
//!
//! The library models the engine that supervises one upstream streaming
//! session (connect, authenticate, subscribe, receive, detect failure, back
//! off, reconnect), the event bus that fans decoded updates out to any number
//! of independent readers, and the per-downstream-connection relay that maps a
//! changing set of client-requested symbols onto upstream sessions.
//!
//! All decisions are pure functions of state and event, stated in contracts
//! and proved; the surrounding transport, HTTP and process plumbing lives in
//! the unverified application shell that drives these functions.

pub mod codec;
pub mod eventbus;
pub mod feed_loader;
pub mod json;
pub mod metrics;
pub mod relay;
pub mod server;
pub mod subscription;
pub mod supervisor;
pub mod text;
pub mod types;

pub use eventbus::{EventBus, EventBusReader, ReadOutcome};
pub use feed_loader::FeedLoader;
pub use metrics::ConnectionMetrics;
pub use relay::{ClientMessage, RelayMultiplexer, ServerMessage, SessionDirective};
pub use server::{PricesQuery, ServerConfig, SymbolsQuery};
pub use subscription::SubscriptionSet;
pub use supervisor::{
    ConnectionState, ConnectionSupervisor, SessionEvent, SupervisorAction,
};
pub use types::{
    Feed, OracleQuoteIx, SubscriptionRequest, SurgeConfig, SurgeError, SurgeEvent, SurgeFeedInfo,
    SurgeUpdate, SurgeUpdateData, Symbol, SymbolRequest,
};
