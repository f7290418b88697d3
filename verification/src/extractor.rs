//! The host tool that talks to the sensor: its commands and the choices of its user
//! interface.
pub mod commands;
pub mod messages;
pub mod serial_messages;
pub mod ui;
