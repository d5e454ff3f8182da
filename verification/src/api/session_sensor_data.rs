//! The datapoint payloads.

use vstd::prelude::*;

verus! {

/// A single datapoint recorded by a session's sensor.
#[derive(Debug)]
pub struct SessionSensorData {
    pub id: String,
    pub datetime: String,
    pub data_blob: String,
}

/// A batch of datapoints uploaded in one request.
#[derive(Debug)]
pub struct Batch {
    pub datapoints: Vec<SessionSensorData>,
}

} // verus!
