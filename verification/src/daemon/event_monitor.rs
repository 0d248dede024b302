use crate::models::keycode::{scan_code, Key, KeyCode};
use crate::models::{EventType, KeystrokeEvent, Modifier};
use vstd::prelude::*;

verus! {

/// What the keyboard listener reports.
#[derive(Debug, Clone, Copy, PartialEq, Eq, Structural)]
pub enum InputEvent {
    KeyPress(Key),
    KeyRelease(Key),
    /// Anything that is no key transition: a mouse move, a click, a wheel.
    Other,
}

/// An upper-case ASCII letter as its lower-case letter, any other character
/// as itself.
pub open spec fn ascii_lower(c: char) -> char {
    if 'A' <= c <= 'Z' {
        ((c as u8 + 32) as u8) as char
    } else {
        c
    }
}

/// The characters of `s` with the ASCII letters in lower case.
pub open spec fn fold_case(s: Seq<char>) -> Seq<char> {
    Seq::new(s.len(), |i: int| ascii_lower(s[i]))
}

/// Bundle identifiers of applications whose keystrokes are never recorded:
/// password managers, system security, banking, wallets, terminals and
/// editors that often hold secrets, and VPN clients.
pub open spec fn sensitive_apps() -> Seq<Seq<char>> {
    seq![
        "com.1password.1password"@,
        "com.agilebits.onepassword7"@,
        "com.agilebits.onepassword-osx"@,
        "com.bitwarden.desktop"@,
        "com.lastpass.LastPass"@,
        "com.dashlane.dashlanephonefinal"@,
        "com.keepersecurity.keeper"@,
        "com.enpass.Enpass"@,
        "org.nickvision.keyring"@,
        "com.apple.keychainaccess"@,
        "com.apple.systempreferences"@,
        "com.apple.Passwords"@,
        "com.chase.sig.android"@,
        "com.bankofamerica.bofa"@,
        "com.wellsfargo.mobile"@,
        "com.citi.mobile"@,
        "io.metamask.desktop"@,
        "com.ledger.live"@,
        "com.exodus.wallet"@,
        "com.apple.Terminal"@,
        "com.googlecode.iterm2"@,
        "dev.warp.Warp-Stable"@,
        "com.microsoft.VSCode"@,
        "com.jetbrains.intellij"@,
        "com.nordvpn.NordVPN"@,
        "com.expressvpn.ExpressVPN"@,
    ]
}

/// True when `bundle_id` is one of the sensitive applications, whatever the
/// case of its ASCII letters.
pub open spec fn is_sensitive(bundle_id: Seq<char>) -> bool {
    exists|i: int|
        0 <= i < sensitive_apps().len() && fold_case(#[trigger] sensitive_apps()[i]) == fold_case(
            bundle_id,
        )
}

/// The modifier that a physical key stands for, if it is a modifier key.
pub open spec fn modifiers_of(key: Key) -> Seq<Modifier> {
    match key {
        Key::ShiftLeft | Key::ShiftRight => seq![Modifier::Shift],
        Key::ControlLeft | Key::ControlRight => seq![Modifier::Control],
        Key::Alt | Key::AltGr => seq![Modifier::Alt],
        Key::MetaLeft | Key::MetaRight => seq![Modifier::Command],
        Key::CapsLock => seq![Modifier::CapsLock],
        Key::Function => seq![Modifier::Function],
        _ => Seq::empty(),
    }
}

/// Compares with `str::eq_ignore_ascii_case`: true exactly when the two
/// strings are equal once their ASCII letters are in lower case.
#[verifier::external_body]
fn same_ignoring_case(a: &str, b: &str) -> (same: bool)
    ensures
        same == (fold_case(a@) == fold_case(b@)),
{
    a.eq_ignore_ascii_case(b)
}

/// The list of sensitive applications.
fn blocklist() -> (list: Vec<&'static str>)
    ensures
        list@.len() == sensitive_apps().len(),
        forall|i: int| 0 <= i < list@.len() ==> (#[trigger] list@[i])@ == sensitive_apps()[i],
{
    vec![
        "com.1password.1password",
        "com.agilebits.onepassword7",
        "com.agilebits.onepassword-osx",
        "com.bitwarden.desktop",
        "com.lastpass.LastPass",
        "com.dashlane.dashlanephonefinal",
        "com.keepersecurity.keeper",
        "com.enpass.Enpass",
        "org.nickvision.keyring",
        "com.apple.keychainaccess",
        "com.apple.systempreferences",
        "com.apple.Passwords",
        "com.chase.sig.android",
        "com.bankofamerica.bofa",
        "com.wellsfargo.mobile",
        "com.citi.mobile",
        "io.metamask.desktop",
        "com.ledger.live",
        "com.exodus.wallet",
        "com.apple.Terminal",
        "com.googlecode.iterm2",
        "dev.warp.Warp-Stable",
        "com.microsoft.VSCode",
        "com.jetbrains.intellij",
        "com.nordvpn.NordVPN",
        "com.expressvpn.ExpressVPN",
    ]
}

/// True when keystrokes typed into the application `bundle_id` must not be
/// recorded.
pub fn is_sensitive_app(bundle_id: &str) -> (sensitive: bool)
    ensures
        sensitive == is_sensitive(bundle_id@),
{
    let list = blocklist();
    let mut i: usize = 0;
    while i < list.len()
        invariant
            i <= list@.len(),
            list@.len() == sensitive_apps().len(),
            forall|k: int| 0 <= k < list@.len() ==> (#[trigger] list@[k])@ == sensitive_apps()[k],
            forall|k: int|
                0 <= k < i ==> fold_case(#[trigger] sensitive_apps()[k]) != fold_case(bundle_id@),
        decreases list@.len() - i,
    {
        if same_ignoring_case(bundle_id, list[i]) {
            assert(fold_case(sensitive_apps()[i as int]) == fold_case(bundle_id@));
            return true;
        }
        i += 1;
    }
    false
}

/// The modifier that a physical key stands for, if it is a modifier key.
pub fn extract_modifiers(key: &Key) -> (modifiers: Vec<Modifier>)
    ensures
        modifiers@ == modifiers_of(*key),
{
    let mut modifiers: Vec<Modifier> = Vec::new();
    match key {
        Key::ShiftLeft | Key::ShiftRight => modifiers.push(Modifier::Shift),
        Key::ControlLeft | Key::ControlRight => modifiers.push(Modifier::Control),
        Key::Alt | Key::AltGr => modifiers.push(Modifier::Alt),
        Key::MetaLeft | Key::MetaRight => modifiers.push(Modifier::Command),
        Key::CapsLock => modifiers.push(Modifier::CapsLock),
        Key::Function => modifiers.push(Modifier::Function),
        _ => {},
    }
    assert(modifiers@ =~= modifiers_of(*key));
    modifiers
}

/// Turns what the listener reports into the event to record, stamped with
/// the current time. Nothing is recorded for what is no key transition, nor
/// for a key typed into a sensitive application.
pub fn process_event(event: &InputEvent, application: String) -> (recorded: Option<
    KeystrokeEvent,
>)
    ensures
        recorded is None <==> (*event == InputEvent::Other || is_sensitive(application@)),
        match recorded {
            Some(keystroke) => {
                &&& keystroke.application == application
                &&& match *event {
                    InputEvent::KeyPress(key) => {
                        &&& keystroke.event_type == EventType::Press
                        &&& keystroke.key_code == scan_code(key)
                        &&& keystroke.modifiers@ == modifiers_of(key)
                    },
                    InputEvent::KeyRelease(key) => {
                        &&& keystroke.event_type == EventType::Release
                        &&& keystroke.key_code == scan_code(key)
                        &&& keystroke.modifiers@ == modifiers_of(key)
                    },
                    InputEvent::Other => false,
                }
            },
            None => true,
        },
{
    let (key, event_type) = match event {
        InputEvent::KeyPress(key) => (key, EventType::Press),
        InputEvent::KeyRelease(key) => (key, EventType::Release),
        InputEvent::Other => {
            return None;
        },
    };
    if is_sensitive_app(application.as_str()) {
        return None;
    }
    let key_code = KeyCode::from_rdev_key(key);
    let modifiers = extract_modifiers(key);
    Some(KeystrokeEvent::new(key_code.0, event_type, modifiers, application))
}

} // verus!
