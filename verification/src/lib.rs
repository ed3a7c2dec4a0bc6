//! Alligator gathers messages from chat services into one timeline, and keeps
//! the tokens of those services in an encrypted vault.
//!
//! Timeline: [`timeline`] holds rooms and messages, [`bridge`] what delivers
//! them, [`screen`] what is shown of them. Vault: [`crypto`] names the outside
//! primitives, [`envelope`] wraps keys and encrypts bytes, [`model`] is what a
//! vault is made of, [`vault`] and [`unlocked`] are the vault closed and open,
//! [`auth`] guards it, and [`providers`] keeps its tokens fresh. The modules
//! whose names end in `_laws` state what the others promise together.
pub mod account_laws;
pub mod auth;
pub mod auth_laws;
pub mod bridge;
pub mod bridge_laws;
pub mod crypto;
pub mod envelope;
pub mod envelope_laws;
pub mod error;
pub mod model;
pub mod model_laws;
pub mod outcome_laws;
pub mod provider_laws;
pub mod providers;
pub mod screen;
pub mod screen_laws;
pub mod span;
pub mod span_laws;
pub mod string_map;
pub mod text;
pub mod text_laws;
pub mod timeline;
pub mod timeline_laws;
pub mod unlocked;
pub mod vault;
pub mod vault_laws;

pub use bridge::{demo_bridge, Bridge, MockBridge};
pub use span::Span;
pub use timeline::{Message, Room, Source, UnifiedTimeline};
