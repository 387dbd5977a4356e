//! Verified core of the agent-team mailbox protocol: envelopes and control
//! messages, the text shown to a teammate, inbox routing decisions, and the
//! teammate identity line.

pub mod text;
pub mod clock;
pub mod protocol;
pub mod inbox;
pub mod watcher;
pub mod identity;
