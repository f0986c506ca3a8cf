//! Keys, modifier flags and the event templates that are built once per key.

use vstd::prelude::*;

verus! {

/// Event type of a synchronisation report.
pub const EV_SYN: u16 = 0;

/// Event type of a key event.
pub const EV_KEY: u16 = 1;

/// Code of the synchronisation report within its event type.
pub const SYN_REPORT_CODE: u16 = 0;

/// Value of a key event that reports a release.
pub const VALUE_UP: i32 = 0;

/// Value of a key event that reports a press.
pub const VALUE_DOWN: i32 = 1;

/// Value of a key event that reports an autorepeat.
pub const VALUE_REPEAT: i32 = 2;

/// The canonical identifier of one physical key: its platform key code.
/// Two keys are equal exactly when their codes are.
#[derive(Clone, Copy, Debug, PartialEq, Eq, Hash, Structural)]
pub struct Key {
    pub code: u16,
}

/// Builds the key with the given platform code.
pub fn make_key(code: u16) -> (key: Key)
    ensures
        key.code == code,
{
    Key { code }
}

/// A set over the four modifiers. The order in which modifiers are added
/// does not matter, and adding one twice changes nothing.
#[derive(Clone, Copy, Debug, PartialEq, Eq, Hash, Structural)]
pub struct KeyModifierFlags {
    pub shift: bool,
    pub ctrl: bool,
    pub alt: bool,
    pub meta: bool,
}

impl KeyModifierFlags {
    /// The set without any modifier.
    pub open spec fn none() -> KeyModifierFlags {
        KeyModifierFlags { shift: false, ctrl: false, alt: false, meta: false }
    }

    /// The set that holds the modifiers of both sets.
    pub open spec fn union(self, other: KeyModifierFlags) -> KeyModifierFlags {
        KeyModifierFlags {
            shift: self.shift || other.shift,
            ctrl: self.ctrl || other.ctrl,
            alt: self.alt || other.alt,
            meta: self.meta || other.meta,
        }
    }

    pub fn new() -> (flags: KeyModifierFlags)
        ensures
            flags == KeyModifierFlags::none(),
    {
        KeyModifierFlags { shift: false, ctrl: false, alt: false, meta: false }
    }

    pub fn shift(&mut self)
        ensures
            *final(self) == (KeyModifierFlags { shift: true, ..*old(self) }),
    {
        self.shift = true;
    }

    pub fn ctrl(&mut self)
        ensures
            *final(self) == (KeyModifierFlags { ctrl: true, ..*old(self) }),
    {
        self.ctrl = true;
    }

    pub fn alt(&mut self)
        ensures
            *final(self) == (KeyModifierFlags { alt: true, ..*old(self) }),
    {
        self.alt = true;
    }

    pub fn meta(&mut self)
        ensures
            *final(self) == (KeyModifierFlags { meta: true, ..*old(self) }),
    {
        self.meta = true;
    }

    /// Adds every modifier of `other` to this set.
    pub fn apply_from(&mut self, other: &KeyModifierFlags)
        ensures
            *final(self) == old(self).union(*other),
    {
        self.shift = self.shift || other.shift;
        self.ctrl = self.ctrl || other.ctrl;
        self.alt = self.alt || other.alt;
        self.meta = self.meta || other.meta;
    }
}

impl Default for KeyModifierFlags {
    fn default() -> (flags: KeyModifierFlags)
        ensures
            flags == KeyModifierFlags::none(),
    {
        KeyModifierFlags::new()
    }
}

/// Combining two sets of modifiers gives the same set in either order.
pub proof fn modifiers_are_order_independent(a: KeyModifierFlags, b: KeyModifierFlags)
    ensures
        a.union(b) == b.union(a),
        a.union(a) == a,
        a.union(KeyModifierFlags::none()) == a,
{
}

/// "Click this key while these modifiers are held."
#[derive(Clone, Copy, Debug, PartialEq, Eq, Hash, Structural)]
pub struct KeyClickActionWithMods {
    pub key: Key,
    pub modifiers: KeyModifierFlags,
}

impl KeyClickActionWithMods {
    pub fn new(key: Key) -> (action: KeyClickActionWithMods)
        ensures
            action.key == key,
            action.modifiers == KeyModifierFlags::none(),
    {
        KeyClickActionWithMods { key, modifiers: KeyModifierFlags::new() }
    }

    pub fn new_with_mods(key: Key, modifiers: KeyModifierFlags) -> (action: KeyClickActionWithMods)
        ensures
            action.key == key,
            action.modifiers == modifiers,
    {
        KeyClickActionWithMods { key, modifiers }
    }
}

/// A key as it was written: a plain reference, or a single capital letter,
/// which asks for shift before any modifier prefix is read.
#[derive(Clone, Copy, Debug, PartialEq, Eq, Hash, Structural)]
pub enum ParsedSingleKey {
    Key(Key),
    CapitalKey(Key),
}

/// The action that a key reference with its modifier prefix stands for.
#[derive(Clone, Copy, Debug, PartialEq, Eq, Hash, Structural)]
pub enum ParsedKeyAction {
    KeyClickAction(KeyClickActionWithMods),
}

/// A point in time as the platform reports it with an event.
#[derive(Clone, Copy, Debug, PartialEq, Eq, Hash, Structural)]
pub struct TimeVal {
    pub tv_sec: i64,
    pub tv_usec: i64,
}

/// One input event: what happened (`event_type`, `code`), how (`value`), and when.
#[derive(Clone, Copy, Debug, PartialEq, Eq, Hash, Structural)]
pub struct InputEvent {
    pub event_type: u16,
    pub code: u16,
    pub value: i32,
    pub time: TimeVal,
}

/// The time that every event template carries until a real one is filled in.
pub open spec fn dummy_time() -> TimeVal {
    TimeVal { tv_sec: 0, tv_usec: 0 }
}

/// The template of a key event with the given value.
pub open spec fn key_event(code: u16, value: i32) -> InputEvent {
    InputEvent { event_type: EV_KEY, code, value, time: dummy_time() }
}

pub fn input_ev_dummy_time() -> (time: TimeVal)
    ensures
        time == dummy_time(),
{
    TimeVal { tv_sec: 0, tv_usec: 0 }
}

/// The synchronisation report that closes a batch of events.
pub fn syn_report() -> (event: InputEvent)
    ensures
        event == (InputEvent {
            event_type: EV_SYN,
            code: SYN_REPORT_CODE,
            value: 0,
            time: dummy_time(),
        }),
{
    InputEvent { event_type: EV_SYN, code: SYN_REPORT_CODE, value: 0, time: input_ev_dummy_time() }
}

/// The three event templates of one key: release, press and autorepeat.
/// They share the key's code and differ only in their value.
#[derive(Clone, Copy, Debug, PartialEq, Eq, Hash, Structural)]
pub struct InputEvGroup {
    pub up: InputEvent,
    pub down: InputEvent,
    pub repeat: InputEvent,
}

impl InputEvGroup {
    /// The group that `new` builds for a key code.
    pub open spec fn of(code: u16) -> InputEvGroup {
        InputEvGroup {
            up: key_event(code, VALUE_UP),
            down: key_event(code, VALUE_DOWN),
            repeat: key_event(code, VALUE_REPEAT),
        }
    }

    pub fn new(key: Key) -> (group: InputEvGroup)
        ensures
            group == InputEvGroup::of(key.code),
    {
        let time = input_ev_dummy_time();
        InputEvGroup {
            up: InputEvent { event_type: EV_KEY, code: key.code, value: VALUE_UP, time },
            down: InputEvent { event_type: EV_KEY, code: key.code, value: VALUE_DOWN, time },
            repeat: InputEvent { event_type: EV_KEY, code: key.code, value: VALUE_REPEAT, time },
        }
    }

    /// The key that the group's templates were built for.
    pub fn to_key(&self) -> (key: Key)
        ensures
            key.code == self.up.code,
    {
        make_key(self.up.code)
    }
}

/// The group built for a key leads back to that key.
pub proof fn group_leads_back_to_its_key(key: Key)
    ensures
        (Key { code: InputEvGroup::of(key.code).up.code }) == key,
        InputEvGroup::of(key.code).up.value == 0,
        InputEvGroup::of(key.code).down.value == 1,
        InputEvGroup::of(key.code).repeat.value == 2,
        InputEvGroup::of(key.code).down.code == key.code,
        InputEvGroup::of(key.code).repeat.code == key.code,
{
}

} // verus!
