//! The sensing core of an analog-matrix keyboard: a multiplexed scan that
//! smooths each switch's raw ADC samples with a per-cell Kalman filter,
//! debounces the thresholded estimates into press edges, and a scheduler
//! whose two periodic tasks and sleep policy pace the whole device.

pub mod layout;
pub mod scheduler;
pub mod switches;

pub use switches::SwitchIdentifier;
