//! A bridge between a display controller's serial link and a touch sensor's
//! serial link: frame extraction, command classification, the packed touch
//! sample slot and the decision logic of the relay, streaming and draining.

pub mod bytes;
pub mod command;
pub mod touchbuffer;
pub mod framer;
pub mod drain;
pub mod relay;
