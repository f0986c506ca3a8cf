//! The key registry: the names under which a script may refer to a key.
//!
//! Two tables back it. The exact-name table has one entry for every
//! supported physical key, under its upper-case name. The alias table maps
//! single printable characters and the short names of the modifiers to one
//! key each. A name is looked up as it is written: case matters, and only a
//! whole name matches.

use vstd::prelude::*;
use crate::key_defs::{InputEvGroup, Key};
use crate::text::{bytes_equal, copy_range, is_digit, is_upper, literal, utf8};

verus! {

/// One line of a table: a name and the code of the key it stands for.
pub struct KeyName {
    pub name: Seq<u8>,
    pub code: u16,
}

/// What a registry holds: its two tables, in the order in which they are searched.
pub struct KeyTable {
    pub exact: Seq<KeyName>,
    pub aliases: Seq<KeyName>,
}

/// Why a lookup failed. A name without an entry is the only reason.
#[derive(Clone, Copy, Debug, PartialEq, Eq, Structural)]
pub enum KeyLookupError {
    UnknownKeyName,
}

/// The line for the key `code` under the name `text`.
pub open spec fn named(text: &str, code: u16) -> KeyName {
    KeyName { name: utf8(text), code }
}

/// The code of the first line of `lines` whose name is `name`.
pub open spec fn find(lines: Seq<KeyName>, name: Seq<u8>) -> Option<u16>
    decreases lines.len(),
{
    if lines.len() == 0 {
        None
    } else if lines[0].name == name {
        Some(lines[0].code)
    } else {
        find(lines.drop_first(), name)
    }
}

impl KeyTable {
    /// The code that `name` stands for: its entry in the exact-name table,
    /// or else its entry in the alias table.
    pub open spec fn resolve(self, name: Seq<u8>) -> Option<u16> {
        match find(self.exact, name) {
            Some(code) => Some(code),
            None => find(self.aliases, name),
        }
    }

    /// What a lookup of `name` returns.
    pub open spec fn lookup(self, name: Seq<u8>) -> Result<Key, KeyLookupError> {
        match self.resolve(name) {
            Some(code) => Ok(Key { code }),
            None => Err(KeyLookupError::UnknownKeyName),
        }
    }

    /// Whether `line` gives the key `code` a name under which a script can
    /// refer to it: a key word that resolves to the key.
    pub open spec fn writes(self, line: KeyName, code: u16) -> bool {
        line.code == code && is_key_word(line.name) && self.resolve(line.name) == Some(code)
    }

    /// The name under which a script writes the key `code`: that of the
    /// first line that gives it one, the exact names before the aliases.
    pub open spec fn name_of(self, code: u16) -> Option<Seq<u8>> {
        match first_written(self, self.exact, code) {
            Some(name) => Some(name),
            None => first_written(self, self.aliases, code),
        }
    }

    /// Whether one of the two tables has a line under `name`.
    pub open spec fn has_name(self, name: Seq<u8>) -> bool {
        (exists|i: int| 0 <= i < self.exact.len() && self.exact[i].name == name) || (exists|i: int|
            0 <= i < self.aliases.len() && self.aliases[i].name == name)
    }
}

/// A key word: capital letters, digits and `_`, and no digit first. It is
/// what the name of a key looks like once a script's spelling of it is put in
/// upper case.
pub open spec fn is_key_word(name: Seq<u8>) -> bool {
    &&& name.len() > 0
    &&& is_upper(name[0]) || name[0] == 95
    &&& forall|i: int| 0 <= i < name.len() ==> is_upper(name[i]) || is_digit(name[i]) || name[i] == 95
}

/// The name of the first line of `lines` that gives the key `code` a name.
pub open spec fn first_written(table: KeyTable, lines: Seq<KeyName>, code: u16) -> Option<Seq<u8>>
    decreases lines.len(),
{
    if lines.len() == 0 {
        None
    } else if table.writes(lines[0], code) {
        Some(lines[0].name)
    } else {
        first_written(table, lines.drop_first(), code)
    }
}

/// One entry of a registry.
pub struct KeyEntry {
    pub name: Vec<u8>,
    pub code: u16,
}

impl View for KeyEntry {
    type V = KeyName;

    open spec fn view(&self) -> KeyName {
        KeyName { name: self.name@, code: self.code }
    }
}

/// The lines that a vector of entries stands for.
pub open spec fn names(entries: Seq<KeyEntry>) -> Seq<KeyName> {
    Seq::new(entries.len(), |i: int| entries[i]@)
}

fn put(table: &mut Vec<KeyEntry>, name: &str, code: u16)
    ensures
        names(final(table)@) == names(old(table)@).push(named(name, code)),
{
    table.push(KeyEntry { name: literal(name), code });
    assert(names(table@) =~= names(old(table)@).push(named(name, code)));
}

fn append_entries(table: &mut Vec<KeyEntry>, mut tail: Vec<KeyEntry>)
    ensures
        names(final(table)@) == names(old(table)@) + names(tail@),
{
    let ghost before = table@;
    let ghost added = tail@;
    table.append(&mut tail);
    assert(names(table@) =~= names(before) + names(added));
}

/// The letter keys.
pub open spec fn letter_keys() -> Seq<KeyName> {
    seq![
        named("A", 30),
        named("B", 48),
        named("C", 46),
        named("D", 32),
        named("E", 18),
        named("F", 33),
        named("G", 34),
        named("H", 35),
        named("I", 23),
        named("J", 36),
        named("K", 37),
        named("L", 38),
        named("M", 50),
        named("N", 49),
        named("O", 24),
        named("P", 25),
        named("Q", 16),
        named("R", 19),
        named("S", 31),
        named("T", 20),
        named("U", 22),
        named("V", 47),
        named("W", 17),
        named("X", 45),
        named("Y", 21),
        named("Z", 44),
    ]
}

fn build_letter_keys() -> (table: Vec<KeyEntry>)
    ensures
        names(table@) == letter_keys(),
{
    let mut table: Vec<KeyEntry> = Vec::new();
    assert(names(table@) =~= Seq::<KeyName>::empty());
    put(&mut table, "A", 30);
    put(&mut table, "B", 48);
    put(&mut table, "C", 46);
    put(&mut table, "D", 32);
    put(&mut table, "E", 18);
    put(&mut table, "F", 33);
    put(&mut table, "G", 34);
    put(&mut table, "H", 35);
    put(&mut table, "I", 23);
    put(&mut table, "J", 36);
    put(&mut table, "K", 37);
    put(&mut table, "L", 38);
    put(&mut table, "M", 50);
    put(&mut table, "N", 49);
    put(&mut table, "O", 24);
    put(&mut table, "P", 25);
    put(&mut table, "Q", 16);
    put(&mut table, "R", 19);
    put(&mut table, "S", 31);
    put(&mut table, "T", 20);
    put(&mut table, "U", 22);
    put(&mut table, "V", 47);
    put(&mut table, "W", 17);
    put(&mut table, "X", 45);
    put(&mut table, "Y", 21);
    put(&mut table, "Z", 44);
    table
}

/// The digit keys of the main block.
pub open spec fn digit_keys() -> Seq<KeyName> {
    seq![
        named("1", 2),
        named("2", 3),
        named("3", 4),
        named("4", 5),
        named("5", 6),
        named("6", 7),
        named("7", 8),
        named("8", 9),
        named("9", 10),
        named("0", 11),
    ]
}

fn build_digit_keys() -> (table: Vec<KeyEntry>)
    ensures
        names(table@) == digit_keys(),
{
    let mut table: Vec<KeyEntry> = Vec::new();
    assert(names(table@) =~= Seq::<KeyName>::empty());
    put(&mut table, "1", 2);
    put(&mut table, "2", 3);
    put(&mut table, "3", 4);
    put(&mut table, "4", 5);
    put(&mut table, "5", 6);
    put(&mut table, "6", 7);
    put(&mut table, "7", 8);
    put(&mut table, "8", 9);
    put(&mut table, "9", 10);
    put(&mut table, "0", 11);
    table
}

/// The function keys.
pub open spec fn function_keys() -> Seq<KeyName> {
    seq![
        named("F1", 59),
        named("F2", 60),
        named("F3", 61),
        named("F4", 62),
        named("F5", 63),
        named("F6", 64),
        named("F7", 65),
        named("F8", 66),
        named("F9", 67),
        named("F10", 68),
        named("F11", 87),
        named("F12", 88),
        named("F13", 183),
        named("F14", 184),
        named("F15", 185),
        named("F16", 186),
        named("F17", 187),
        named("F18", 188),
        named("F19", 189),
        named("F20", 190),
        named("F21", 191),
        named("F22", 192),
        named("F23", 193),
        named("F24", 194),
    ]
}

fn build_function_keys() -> (table: Vec<KeyEntry>)
    ensures
        names(table@) == function_keys(),
{
    let mut table: Vec<KeyEntry> = Vec::new();
    assert(names(table@) =~= Seq::<KeyName>::empty());
    put(&mut table, "F1", 59);
    put(&mut table, "F2", 60);
    put(&mut table, "F3", 61);
    put(&mut table, "F4", 62);
    put(&mut table, "F5", 63);
    put(&mut table, "F6", 64);
    put(&mut table, "F7", 65);
    put(&mut table, "F8", 66);
    put(&mut table, "F9", 67);
    put(&mut table, "F10", 68);
    put(&mut table, "F11", 87);
    put(&mut table, "F12", 88);
    put(&mut table, "F13", 183);
    put(&mut table, "F14", 184);
    put(&mut table, "F15", 185);
    put(&mut table, "F16", 186);
    put(&mut table, "F17", 187);
    put(&mut table, "F18", 188);
    put(&mut table, "F19", 189);
    put(&mut table, "F20", 190);
    put(&mut table, "F21", 191);
    put(&mut table, "F22", 192);
    put(&mut table, "F23", 193);
    put(&mut table, "F24", 194);
    table
}

/// The cursor and paging keys.
pub open spec fn navigation_keys() -> Seq<KeyName> {
    seq![
        named("UP", 103),
        named("DOWN", 108),
        named("LEFT", 105),
        named("RIGHT", 106),
        named("HOME", 102),
        named("END", 107),
        named("PAGEUP", 104),
        named("PAGEDOWN", 109),
        named("INSERT", 110),
        named("DELETE", 111),
    ]
}

fn build_navigation_keys() -> (table: Vec<KeyEntry>)
    ensures
        names(table@) == navigation_keys(),
{
    let mut table: Vec<KeyEntry> = Vec::new();
    assert(names(table@) =~= Seq::<KeyName>::empty());
    put(&mut table, "UP", 103);
    put(&mut table, "DOWN", 108);
    put(&mut table, "LEFT", 105);
    put(&mut table, "RIGHT", 106);
    put(&mut table, "HOME", 102);
    put(&mut table, "END", 107);
    put(&mut table, "PAGEUP", 104);
    put(&mut table, "PAGEDOWN", 109);
    put(&mut table, "INSERT", 110);
    put(&mut table, "DELETE", 111);
    table
}

/// The editing and locking keys.
pub open spec fn control_keys() -> Seq<KeyName> {
    seq![
        named("ESC", 1),
        named("BACKSPACE", 14),
        named("TAB", 15),
        named("ENTER", 28),
        named("SPACE", 57),
        named("CAPSLOCK", 58),
        named("NUMLOCK", 69),
        named("SCROLLLOCK", 70),
        named("SYSRQ", 99),
        named("PAUSE", 119),
        named("COMPOSE", 127),
        named("MENU", 139),
    ]
}

fn build_control_keys() -> (table: Vec<KeyEntry>)
    ensures
        names(table@) == control_keys(),
{
    let mut table: Vec<KeyEntry> = Vec::new();
    assert(names(table@) =~= Seq::<KeyName>::empty());
    put(&mut table, "ESC", 1);
    put(&mut table, "BACKSPACE", 14);
    put(&mut table, "TAB", 15);
    put(&mut table, "ENTER", 28);
    put(&mut table, "SPACE", 57);
    put(&mut table, "CAPSLOCK", 58);
    put(&mut table, "NUMLOCK", 69);
    put(&mut table, "SCROLLLOCK", 70);
    put(&mut table, "SYSRQ", 99);
    put(&mut table, "PAUSE", 119);
    put(&mut table, "COMPOSE", 127);
    put(&mut table, "MENU", 139);
    table
}

/// The keys of the numeric pad.
pub open spec fn numpad_keys() -> Seq<KeyName> {
    seq![
        named("KP0", 82),
        named("KP1", 79),
        named("KP2", 80),
        named("KP3", 81),
        named("KP4", 75),
        named("KP5", 76),
        named("KP6", 77),
        named("KP7", 71),
        named("KP8", 72),
        named("KP9", 73),
        named("KPPLUS", 78),
        named("KPMINUS", 74),
        named("KPASTERISK", 55),
        named("KPSLASH", 98),
        named("KPDOT", 83),
        named("KPENTER", 96),
        named("KPEQUAL", 117),
        named("KPCOMMA", 121),
    ]
}

fn build_numpad_keys() -> (table: Vec<KeyEntry>)
    ensures
        names(table@) == numpad_keys(),
{
    let mut table: Vec<KeyEntry> = Vec::new();
    assert(names(table@) =~= Seq::<KeyName>::empty());
    put(&mut table, "KP0", 82);
    put(&mut table, "KP1", 79);
    put(&mut table, "KP2", 80);
    put(&mut table, "KP3", 81);
    put(&mut table, "KP4", 75);
    put(&mut table, "KP5", 76);
    put(&mut table, "KP6", 77);
    put(&mut table, "KP7", 71);
    put(&mut table, "KP8", 72);
    put(&mut table, "KP9", 73);
    put(&mut table, "KPPLUS", 78);
    put(&mut table, "KPMINUS", 74);
    put(&mut table, "KPASTERISK", 55);
    put(&mut table, "KPSLASH", 98);
    put(&mut table, "KPDOT", 83);
    put(&mut table, "KPENTER", 96);
    put(&mut table, "KPEQUAL", 117);
    put(&mut table, "KPCOMMA", 121);
    table
}

/// The punctuation keys, by name.
pub open spec fn punctuation_keys() -> Seq<KeyName> {
    seq![
        named("MINUS", 12),
        named("EQUAL", 13),
        named("LEFTBRACE", 26),
        named("RIGHTBRACE", 27),
        named("SEMICOLON", 39),
        named("APOSTROPHE", 40),
        named("GRAVE", 41),
        named("BACKSLASH", 43),
        named("COMMA", 51),
        named("DOT", 52),
        named("SLASH", 53),
    ]
}

fn build_punctuation_keys() -> (table: Vec<KeyEntry>)
    ensures
        names(table@) == punctuation_keys(),
{
    let mut table: Vec<KeyEntry> = Vec::new();
    assert(names(table@) =~= Seq::<KeyName>::empty());
    put(&mut table, "MINUS", 12);
    put(&mut table, "EQUAL", 13);
    put(&mut table, "LEFTBRACE", 26);
    put(&mut table, "RIGHTBRACE", 27);
    put(&mut table, "SEMICOLON", 39);
    put(&mut table, "APOSTROPHE", 40);
    put(&mut table, "GRAVE", 41);
    put(&mut table, "BACKSLASH", 43);
    put(&mut table, "COMMA", 51);
    put(&mut table, "DOT", 52);
    put(&mut table, "SLASH", 53);
    table
}

/// The modifier keys, left and right.
pub open spec fn modifier_keys() -> Seq<KeyName> {
    seq![
        named("LEFTSHIFT", 42),
        named("RIGHTSHIFT", 54),
        named("LEFTCTRL", 29),
        named("RIGHTCTRL", 97),
        named("LEFTALT", 56),
        named("RIGHTALT", 100),
        named("LEFTMETA", 125),
        named("RIGHTMETA", 126),
    ]
}

fn build_modifier_keys() -> (table: Vec<KeyEntry>)
    ensures
        names(table@) == modifier_keys(),
{
    let mut table: Vec<KeyEntry> = Vec::new();
    assert(names(table@) =~= Seq::<KeyName>::empty());
    put(&mut table, "LEFTSHIFT", 42);
    put(&mut table, "RIGHTSHIFT", 54);
    put(&mut table, "LEFTCTRL", 29);
    put(&mut table, "RIGHTCTRL", 97);
    put(&mut table, "LEFTALT", 56);
    put(&mut table, "RIGHTALT", 100);
    put(&mut table, "LEFTMETA", 125);
    put(&mut table, "RIGHTMETA", 126);
    table
}

/// Each lower-case letter stands for its letter key.
pub open spec fn letter_aliases() -> Seq<KeyName> {
    seq![
        named("a", 30),
        named("b", 48),
        named("c", 46),
        named("d", 32),
        named("e", 18),
        named("f", 33),
        named("g", 34),
        named("h", 35),
        named("i", 23),
        named("j", 36),
        named("k", 37),
        named("l", 38),
        named("m", 50),
        named("n", 49),
        named("o", 24),
        named("p", 25),
        named("q", 16),
        named("r", 19),
        named("s", 31),
        named("t", 20),
        named("u", 22),
        named("v", 47),
        named("w", 17),
        named("x", 45),
        named("y", 21),
        named("z", 44),
    ]
}

fn build_letter_aliases() -> (table: Vec<KeyEntry>)
    ensures
        names(table@) == letter_aliases(),
{
    let mut table: Vec<KeyEntry> = Vec::new();
    assert(names(table@) =~= Seq::<KeyName>::empty());
    put(&mut table, "a", 30);
    put(&mut table, "b", 48);
    put(&mut table, "c", 46);
    put(&mut table, "d", 32);
    put(&mut table, "e", 18);
    put(&mut table, "f", 33);
    put(&mut table, "g", 34);
    put(&mut table, "h", 35);
    put(&mut table, "i", 23);
    put(&mut table, "j", 36);
    put(&mut table, "k", 37);
    put(&mut table, "l", 38);
    put(&mut table, "m", 50);
    put(&mut table, "n", 49);
    put(&mut table, "o", 24);
    put(&mut table, "p", 25);
    put(&mut table, "q", 16);
    put(&mut table, "r", 19);
    put(&mut table, "s", 31);
    put(&mut table, "t", 20);
    put(&mut table, "u", 22);
    put(&mut table, "v", 47);
    put(&mut table, "w", 17);
    put(&mut table, "x", 45);
    put(&mut table, "y", 21);
    put(&mut table, "z", 44);
    table
}

/// Printable characters that stand for the key that types them.
pub open spec fn character_aliases() -> Seq<KeyName> {
    seq![
        named(" ", 57),
        named("'", 40),
        named(",", 51),
        named("-", 12),
        named(".", 52),
        named(";", 39),
        named("=", 13),
    ]
}

fn build_character_aliases() -> (table: Vec<KeyEntry>)
    ensures
        names(table@) == character_aliases(),
{
    let mut table: Vec<KeyEntry> = Vec::new();
    assert(names(table@) =~= Seq::<KeyName>::empty());
    put(&mut table, " ", 57);
    put(&mut table, "'", 40);
    put(&mut table, ",", 51);
    put(&mut table, "-", 12);
    put(&mut table, ".", 52);
    put(&mut table, ";", 39);
    put(&mut table, "=", 13);
    table
}

/// Short names of the modifiers; a modifier with two keys is its left one.
pub open spec fn modifier_aliases() -> Seq<KeyName> {
    seq![
        named("SHIFT", 42),
        named("ALT", 56),
        named("META", 125),
        named("CTRL", 29),
        named("CAPS", 58),
    ]
}

fn build_modifier_aliases() -> (table: Vec<KeyEntry>)
    ensures
        names(table@) == modifier_aliases(),
{
    let mut table: Vec<KeyEntry> = Vec::new();
    assert(names(table@) =~= Seq::<KeyName>::empty());
    put(&mut table, "SHIFT", 42);
    put(&mut table, "ALT", 56);
    put(&mut table, "META", 125);
    put(&mut table, "CTRL", 29);
    put(&mut table, "CAPS", 58);
    table
}
/// The exact-name table: every supported physical key under its name.
pub open spec fn exact_names() -> Seq<KeyName> {
    letter_keys() + digit_keys() + function_keys() + navigation_keys() + control_keys()
        + numpad_keys() + punctuation_keys() + modifier_keys()
}

/// The alias table.
pub open spec fn alias_names() -> Seq<KeyName> {
    letter_aliases() + character_aliases() + modifier_aliases()
}

/// The tables of every registry.
pub open spec fn standard_table() -> KeyTable {
    KeyTable { exact: exact_names(), aliases: alias_names() }
}

/// The registry. It is built once and only read afterwards.
pub struct KeyRegistry {
    exact: Vec<KeyEntry>,
    aliases: Vec<KeyEntry>,
}

impl View for KeyRegistry {
    type V = KeyTable;

    closed spec fn view(&self) -> KeyTable {
        KeyTable { exact: names(self.exact@), aliases: names(self.aliases@) }
    }
}

fn search(entries: &Vec<KeyEntry>, name: &[u8]) -> (code: Option<u16>)
    ensures
        code == find(names(entries@), name@),
{
    let mut i: usize = 0;
    assert(names(entries@).subrange(0, entries.len() as int) =~= names(entries@));
    while i < entries.len()
        invariant
            i <= entries.len(),
            find(names(entries@), name@) == find(names(entries@).subrange(i as int, entries.len() as int), name@),
        decreases entries.len() - i,
    {
        let ghost rest = names(entries@).subrange(i as int, entries.len() as int);
        assert(rest[0] == entries@[i as int]@);
        assert(rest.drop_first() =~= names(entries@).subrange(i + 1, entries.len() as int));
        if bytes_equal(entries[i].name.as_slice(), name) {
            return Some(entries[i].code);
        }
        i += 1;
    }
    None
}

fn key_word(name: &[u8]) -> (r: bool)
    ensures
        r == is_key_word(name@),
{
    if name.len() == 0 {
        return false;
    }
    let first = name[0];
    if !((65 <= first && first <= 90) || first == 95) {
        return false;
    }
    let mut i: usize = 0;
    while i < name.len()
        invariant
            i <= name.len(),
            forall|j: int| 0 <= j < i ==> is_upper(name@[j]) || is_digit(name@[j]) || name@[j] == 95,
        decreases name.len() - i,
    {
        let b = name[i];
        if !((65 <= b && b <= 90) || (48 <= b && b <= 57) || b == 95) {
            return false;
        }
        i += 1;
    }
    true
}

impl KeyRegistry {
    fn written_in(&self, entries: &Vec<KeyEntry>, code: u16) -> (name: Option<Vec<u8>>)
        ensures
            match name {
                Some(text) => first_written(self@, names(entries@), code) == Some(text@),
                None => first_written(self@, names(entries@), code) is None,
            },
    {
        let mut i: usize = 0;
        assert(names(entries@).subrange(0, entries.len() as int) =~= names(entries@));
        while i < entries.len()
            invariant
                i <= entries.len(),
                first_written(self@, names(entries@), code) == first_written(
                    self@,
                    names(entries@).subrange(i as int, entries.len() as int),
                    code,
                ),
            decreases entries.len() - i,
        {
            let ghost rest = names(entries@).subrange(i as int, entries.len() as int);
            assert(rest[0] == entries@[i as int]@);
            assert(rest.drop_first() =~= names(entries@).subrange(i + 1, entries.len() as int));
            let entry = &entries[i];
            if entry.code == code && key_word(entry.name.as_slice()) {
                match self.lookup(entry.name.as_slice()) {
                    Ok(key) => {
                        if key.code == code {
                            return Some(copy_range(entry.name.as_slice(), 0, entry.name.len()));
                        }
                    },
                    Err(_) => {},
                }
            }
            i += 1;
        }
        None
    }

    /// The name under which a script writes `key`, if the registry has one.
    pub fn name_of(&self, key: Key) -> (name: Option<Vec<u8>>)
        ensures
            match name {
                Some(text) => self@.name_of(key.code) == Some(text@),
                None => self@.name_of(key.code) is None,
            },
    {
        match self.written_in(&self.exact, key.code) {
            Some(text) => Some(text),
            None => self.written_in(&self.aliases, key.code),
        }
    }

    /// Builds the registry with its two tables.
    pub fn new() -> (registry: KeyRegistry)
        ensures
            registry@ == standard_table(),
    {
        let mut exact = build_letter_keys();
        append_entries(&mut exact, build_digit_keys());
        append_entries(&mut exact, build_function_keys());
        append_entries(&mut exact, build_navigation_keys());
        append_entries(&mut exact, build_control_keys());
        append_entries(&mut exact, build_numpad_keys());
        append_entries(&mut exact, build_punctuation_keys());
        append_entries(&mut exact, build_modifier_keys());
        let mut aliases = build_letter_aliases();
        append_entries(&mut aliases, build_character_aliases());
        append_entries(&mut aliases, build_modifier_aliases());
        KeyRegistry { exact, aliases }
    }

    /// Looks `name` up: first among the exact names, then among the aliases.
    /// A name without an entry is an unknown key name.
    pub fn lookup(&self, name: &[u8]) -> (found: Result<Key, KeyLookupError>)
        ensures
            found == self@.lookup(name@),
    {
        match search(&self.exact, name) {
            Some(code) => Ok(Key { code }),
            None => match search(&self.aliases, name) {
                Some(code) => Ok(Key { code }),
                None => Err(KeyLookupError::UnknownKeyName),
            },
        }
    }

    /// The event templates of the key that `name` stands for.
    pub fn events(&self, name: &[u8]) -> (found: Result<InputEvGroup, KeyLookupError>)
        ensures
            found == match self@.lookup(name@) {
                Ok(key) => Ok(InputEvGroup::of(key.code)),
                Err(e) => Err(e),
            },
    {
        match self.lookup(name) {
            Ok(key) => Ok(InputEvGroup::new(key)),
            Err(e) => Err(e),
        }
    }
}

/// `find` returns a code exactly when some line has the name.
pub proof fn find_succeeds_on_listed_names(lines: Seq<KeyName>, name: Seq<u8>)
    ensures
        find(lines, name) is Some <==> exists|i: int| 0 <= i < lines.len() && lines[i].name == name,
    decreases lines.len(),
{
    if lines.len() == 0 {
    } else if lines[0].name == name {
    } else {
        let rest = lines.drop_first();
        find_succeeds_on_listed_names(rest, name);
        if find(rest, name) is Some {
            let i = choose|i: int| 0 <= i < rest.len() && rest[i].name == name;
            assert(lines[i + 1].name == name);
        }
        if exists|i: int| 0 <= i < lines.len() && lines[i].name == name {
            let i = choose|i: int| 0 <= i < lines.len() && lines[i].name == name;
            assert(rest[i - 1].name == name);
        }
    }
}

/// The name that `first_written` finds gives the key a name.
pub proof fn first_written_is_written(table: KeyTable, lines: Seq<KeyName>, code: u16)
    ensures
        first_written(table, lines, code) matches Some(name) ==> is_key_word(name)
            && table.resolve(name) == Some(code),
        (exists|i: int| 0 <= i < lines.len() && table.writes(lines[i], code)) ==> first_written(
            table,
            lines,
            code,
        ) is Some,
    decreases lines.len(),
{
    if lines.len() > 0 && !table.writes(lines[0], code) {
        let rest = lines.drop_first();
        first_written_is_written(table, rest, code);
        if exists|i: int| 0 <= i < lines.len() && table.writes(lines[i], code) {
            let i = choose|i: int| 0 <= i < lines.len() && table.writes(lines[i], code);
            assert(table.writes(rest[i - 1], code));
        }
    }
}

/// The name under which a key is written leads back to the key.
pub proof fn written_name_resolves(table: KeyTable, code: u16)
    ensures
        table.name_of(code) matches Some(name) ==> is_key_word(name) && table.lookup(name) == Ok::<
            Key,
            KeyLookupError,
        >(Key { code }),
{
    first_written_is_written(table, table.exact, code);
    first_written_is_written(table, table.aliases, code);
}

/// A key that a key word resolves to has a name under which it is written.
pub proof fn resolved_key_has_a_name(table: KeyTable, word: Seq<u8>, code: u16)
    requires
        is_key_word(word),
        table.resolve(word) == Some(code),
    ensures
        table.name_of(code) is Some,
{
    find_gives_a_line(table.exact, word);
    find_gives_a_line(table.aliases, word);
    first_written_is_written(table, table.exact, code);
    first_written_is_written(table, table.aliases, code);
    if find(table.exact, word) is Some {
        let i = choose|i: int|
            0 <= i < table.exact.len() && table.exact[i].name == word && table.exact[i].code
                == find(table.exact, word)->0;
        assert(table.writes(table.exact[i], code));
    } else {
        let i = choose|i: int|
            0 <= i < table.aliases.len() && table.aliases[i].name == word && table.aliases[i].code
                == find(table.aliases, word)->0;
        assert(table.writes(table.aliases[i], code));
    }
}

/// What `find` returns is the code of a line with the name.
pub proof fn find_gives_a_line(lines: Seq<KeyName>, name: Seq<u8>)
    ensures
        find(lines, name) matches Some(code) ==> exists|i: int|
            0 <= i < lines.len() && lines[i].name == name && lines[i].code == code,
    decreases lines.len(),
{
    if lines.len() > 0 && lines[0].name != name {
        let rest = lines.drop_first();
        find_gives_a_line(rest, name);
        if find(rest, name) is Some {
            let code = find(rest, name)->0;
            let i = choose|i: int| 0 <= i < rest.len() && rest[i].name == name && rest[i].code == code;
            assert(lines[i + 1].name == name && lines[i + 1].code == code);
        }
    } else if lines.len() > 0 {
        assert(lines[0].name == name && lines[0].code == find(lines, name)->0);
    }
}

/// Every name of the tables resolves to a key, and a name of neither table
/// fails as an unknown key name and in no other way.
pub proof fn lookup_is_decided_by_the_tables(table: KeyTable, name: Seq<u8>)
    ensures
        table.has_name(name) <==> table.lookup(name) is Ok,
        !table.has_name(name) <==> table.lookup(name) == Err::<Key, KeyLookupError>(
            KeyLookupError::UnknownKeyName,
        ),
{
    find_succeeds_on_listed_names(table.exact, name);
    find_succeeds_on_listed_names(table.aliases, name);
}

/// Lookups of one name in one registry agree, however often they are made.
pub proof fn repeated_lookups_agree(
    table: KeyTable,
    name: Seq<u8>,
    first: Result<Key, KeyLookupError>,
    second: Result<Key, KeyLookupError>,
)
    requires
        first == table.lookup(name),
        second == table.lookup(name),
    ensures
        first == second,
{
}

} // verus!
