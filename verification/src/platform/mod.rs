//! Platform surfaces: the Android firing surface, the sensor state the
//! sensor callbacks update, and the callback registration API.
pub mod android_firing;
pub mod callbacks;
pub mod sensor_state;
