//! Decision core of a trading bridge: trade intents arrive as JSON payloads,
//! are decoded, have their prices rounded conservatively to whole cents, and
//! are translated into the order requests a brokerage accepts.
//!
//! Everything here is plain data in, plain data out. Network and bus I/O live
//! with the caller, which feeds results back into the state machines of
//! [`retry`] and [`dispatch`].

pub mod decimal;
pub mod decode;
pub mod dispatch;
pub mod id;
pub mod intent;
pub mod json;
pub mod normalize;
pub mod order;
pub mod retry;
pub mod settings;
pub mod telemetry;
pub mod translate;

pub use decode::parse_message;
pub use normalize::normalize_intent;
pub use settings::AlpacaSettings;
pub use translate::translate_intent;
