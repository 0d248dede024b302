pub mod app;
pub mod keyboard_layout;
pub mod trends;

pub use app::{App, DashboardKey, DashboardStats, TimeRange, View};
pub use keyboard_layout::{Finger, Hand, KeyInfo, QwertyLayout};
