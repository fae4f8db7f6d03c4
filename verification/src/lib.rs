//! Cost and complexity routing between a local language model and paid services.
//!
//! Each request goes to the cheapest route that is likely to do: the complexity
//! of the prompt is estimated without calling any model, the spending of the day
//! is held against a budget, and a circuit breaker keeps traffic away from routes
//! that keep failing.
//!
//! [`Router`] takes decisions alone, for a host that makes the calls itself;
//! [`AutopilotEngine`] also calls the providers, falls back once when a call
//! fails, and keeps the journal. Fractions and amounts of money are exact
//! integers, see [`units`]. Functions that read a clock have a variant that takes
//! the reading as an argument and states its result exactly.

pub mod circuit;
pub mod clock;
pub mod complexity;
pub mod demo_backend;
pub mod engine;
pub mod laws;
pub mod pricing;
pub mod provider;
pub mod report;
pub mod router;
pub mod routes;
pub mod simulation;
pub mod store;
pub mod text;
pub mod tokens;
pub mod units;

pub use complexity::{analyze, ComplexityScore, ComplexitySignal};
pub use engine::{AutopilotEngine, AutopilotError, RoutedCompletion};
pub use pricing::{PricingTable, RoutePricing};
pub use provider::{
    CompletionRequest, CompletionResponse, HttpProvider, Provider, ProviderError, Usage,
};
pub use router::{AutopilotConfig, Router, RoutingDecision, ROUTE_TIERS};
pub use tokens::{estimate_chat_tokens, estimate_tokens};
pub use units::{Ratio, Usd};
