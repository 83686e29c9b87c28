//! A point-to-point proof relay built atop a generic gossip transport.
//!
//! Encrypted per-authority proof payloads travel between participants over a
//! single shared broadcast topic.  This crate holds the verified core of the
//! relay: the wire codec for proof messages, the permissive topic validator,
//! and the bridge's per-step decision logic.  The asynchronous plumbing that
//! drives these decisions against a live transport lives outside the library.

pub mod bridge;
pub mod codec;
pub mod message;
pub mod topic;

pub use bridge::GossipValidator;
pub use bridge::NetworkBridge;
pub use bridge::PublishCommand;
pub use bridge::StepOutcome;
pub use bridge::ValidationAction;
pub use message::ProofMessage;
pub use message::ProofMessageView;
