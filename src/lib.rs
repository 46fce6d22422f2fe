//! A peer-to-peer message bus core: a binary wire codec, a membership tree of
//! known peers, the decisions of the gossip transport, and the orchestrator that
//! ties membership to greetings.

pub mod codec;
pub mod data_message;
pub mod message;
pub mod node;
pub mod orchestrator;
pub mod status_message;
pub mod transport;

pub use codec::CodecError;
pub use data_message::{DataMessage, DataType};
pub use message::{Message, MessageType};
pub use node::Node;
pub use orchestrator::{Config, Core, Mode, Reaction};
pub use status_message::{StatusMessage, StatusType};
pub use transport::{transport_reaction, TransportAction, TransportEvent};
