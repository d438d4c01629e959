pub mod buffer;
pub mod kalman_filter;
pub mod key_matrix;
pub mod switch_identifier;

pub use key_matrix::KeyMatrix;
pub use switch_identifier::SwitchIdentifier;
