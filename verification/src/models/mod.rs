pub mod clock;
pub mod event;
pub mod keycode;

pub use event::{EventType, KeystrokeEvent, Modifier};
