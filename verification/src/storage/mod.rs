pub mod key;
pub mod range;
