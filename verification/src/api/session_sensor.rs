//! The session-sensor link payload.

use vstd::prelude::*;

verus! {

/// A link between a session and one of its sensors.
#[derive(Debug)]
pub struct SessionSensor {
    pub session_id: String,
    pub sensor_id: String,
}

} // verus!
