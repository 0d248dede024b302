pub mod event_monitor;
