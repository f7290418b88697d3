//! The event log kept in the sensor's EEPROM.
pub mod event;
pub mod event_storage;
