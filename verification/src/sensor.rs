//! The sensor firmware's logic: its event log and where it keeps it.
pub mod eeprom;
pub mod light;
pub mod storage;
pub mod tasks;
