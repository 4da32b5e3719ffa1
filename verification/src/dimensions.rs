//! The fixed sensor geometry.

use vstd::prelude::*;

verus! {

/// Number of columns of the sensor.
pub const WIDTH: usize = 1864;

/// Number of rows of the sensor.
pub const HEIGHT: usize = 1632;

} // verus!
