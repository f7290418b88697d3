//! Messages of the sensor's serial protocol, shared by the sensor and the host tools.
pub mod request;

pub mod response;
