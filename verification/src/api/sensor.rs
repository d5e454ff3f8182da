//! The sensor payload.

use vstd::prelude::*;

verus! {

/// A sensor to create or update, named by its type.
#[derive(Debug)]
pub struct Sensor {
    pub sensor_type: String,
}

} // verus!
