use crate::models::clock::now_millis;
use vstd::prelude::*;

verus! {

/// Whether a key went down or came back up.
#[derive(Debug, Clone, Copy, PartialEq, Eq, Structural)]
pub enum EventType {
    Press,
    Release,
}

/// A modifier key that was active while an event was recorded.
#[derive(Debug, Clone, Copy, PartialEq, Eq, Structural)]
pub enum Modifier {
    Shift,
    Control,
    Alt,
    Command,
    CapsLock,
    Function,
}

/// One recorded key transition.
#[derive(Debug, Clone)]
pub struct KeystrokeEvent {
    /// Milliseconds since the Unix epoch.
    pub timestamp: i64,
    /// Platform scan code of the key.
    pub key_code: u32,
    pub event_type: EventType,
    pub modifiers: Vec<Modifier>,
    /// Identifier of the application that had focus.
    pub application: String,
}

impl KeystrokeEvent {
    /// An event stamped with the given time.
    pub fn at(
        timestamp: i64,
        key_code: u32,
        event_type: EventType,
        modifiers: Vec<Modifier>,
        application: String,
    ) -> (event: Self)
        ensures
            event.timestamp == timestamp,
            event.key_code == key_code,
            event.event_type == event_type,
            event.modifiers == modifiers,
            event.application == application,
    {
        KeystrokeEvent { timestamp, key_code, event_type, modifiers, application }
    }

    /// An event stamped with the current time. A clock that is set before the
    /// Unix epoch stamps the event with 0.
    pub fn new(
        key_code: u32,
        event_type: EventType,
        modifiers: Vec<Modifier>,
        application: String,
    ) -> (event: Self)
        ensures
            event.key_code == key_code,
            event.event_type == event_type,
            event.modifiers == modifiers,
            event.application == application,
            event.timestamp >= 0,
    {
        let timestamp = now_millis();
        KeystrokeEvent::at(timestamp, key_code, event_type, modifiers, application)
    }

    /// True for a key-down event.
    pub open spec fn is_press(&self) -> bool {
        self.event_type == EventType::Press
    }
}

impl EventType {
    /// The lower-case name of an event type.
    pub open spec fn name(&self) -> Seq<char> {
        match self {
            EventType::Press => "press"@,
            EventType::Release => "release"@,
        }
    }

    /// The lower-case name.
    pub fn as_str(&self) -> (s: &'static str)
        ensures
            s@ == self.name(),
    {
        match self {
            EventType::Press => "press",
            EventType::Release => "release",
        }
    }

    /// The lower-case name as an owned string.
    pub fn to_string(&self) -> (s: String)
        ensures
            s@ == self.name(),
    {
        self.as_str().to_string()
    }
}

impl Modifier {
    /// The lower-case name of a modifier.
    pub open spec fn name(&self) -> Seq<char> {
        match self {
            Modifier::Shift => "shift"@,
            Modifier::Control => "control"@,
            Modifier::Alt => "alt"@,
            Modifier::Command => "command"@,
            Modifier::CapsLock => "capslock"@,
            Modifier::Function => "function"@,
        }
    }

    /// The lower-case name.
    pub fn as_str(&self) -> (s: &'static str)
        ensures
            s@ == self.name(),
    {
        match self {
            Modifier::Shift => "shift",
            Modifier::Control => "control",
            Modifier::Alt => "alt",
            Modifier::Command => "command",
            Modifier::CapsLock => "capslock",
            Modifier::Function => "function",
        }
    }

    /// The lower-case name as an owned string.
    pub fn to_string(&self) -> (s: String)
        ensures
            s@ == self.name(),
    {
        self.as_str().to_string()
    }
}

} // verus!
