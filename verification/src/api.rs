//! The payloads of the REST client, one module per endpoint family.

pub mod auth;
pub mod sensor;
pub mod session;
pub mod session_sensor;
pub mod session_sensor_data;
pub mod user;
