//! Message link, event formats and storage layout of an ultra low power light
//! sensor that logs an event each time the luminosity crosses a threshold.
pub mod common_data;
pub mod extractor;
pub mod extractor_iced;
pub mod link;
pub mod rtc;
pub mod sensor;
