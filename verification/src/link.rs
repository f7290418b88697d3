//! Events and messages exchanged over the serial link.
pub mod event;
pub mod convertion;
pub mod wire;
pub mod messages_enums;
pub mod error;
pub mod bus_message;
pub mod response;
pub mod input_buffer;
