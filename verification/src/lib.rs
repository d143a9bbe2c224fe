//! A minimal peer-to-peer message-flooding library.
//!
//! Nodes exchange fixed-size framed messages over byte streams and
//! re-broadcast every newly seen message to all other known peers,
//! suppressing duplicates with a bounded FIFO cache and never echoing
//! a message back to the address it arrived from.

mod cmds;
mod msg;
mod node;
mod queue;

pub use queue::Queue;
pub use msg::Msg;
pub use msg::TryFromStringToMsgError;
pub use msg::TryFromArrayToMsgError;
pub use msg::CAPACITY;
pub use node::Peer;
pub use node::OutFrame;
pub use node::Node;
pub use node::FrameOutcome;
pub use node::DEDUP_CAPACITY;
pub use cmds::Command;
pub use cmds::ParseCommandError;
pub use cmds::parse_command;
pub use node::broadcast;
pub use node::propagate;
