//! Key references: a key by its name, the modifier prefix in front of it,
//! and the mapping of one key action to another.

use vstd::prelude::*;
use crate::ast::{Expr, ExprTree};
use crate::key_defs::{Key, KeyClickActionWithMods, KeyModifierFlags, ParsedKeyAction, ParsedSingleKey};
use crate::parsing::error::{CustomError, Failure};
use crate::parsing::primitives::{ident, outcome, plain_outcome, spec_ident, spec_tag, token, Parsed};
use crate::registry::{KeyRegistry, KeyTable};
use crate::text::{is_upper, to_upper, upper_seq};

verus! {

/// The modifier characters: `!` alt, `^` ctrl, `+` shift, `#` meta.
pub open spec fn is_modifier(b: u8) -> bool {
    b == 33 || b == 94 || b == 43 || b == 35
}

/// Whether `flags` holds the modifier that the character `b` stands for.
pub open spec fn has_modifier(flags: KeyModifierFlags, b: u8) -> bool {
    (b == 33 && flags.alt) || (b == 94 && flags.ctrl) || (b == 43 && flags.shift) || (b == 35
        && flags.meta)
}

/// `flags` and the modifier that the character `b` stands for.
pub open spec fn with_modifier(flags: KeyModifierFlags, b: u8) -> KeyModifierFlags {
    KeyModifierFlags {
        shift: flags.shift || b == 43,
        ctrl: flags.ctrl || b == 94,
        alt: flags.alt || b == 33,
        meta: flags.meta || b == 35,
    }
}

/// A modifier prefix: modifier characters as far as they go, added to
/// `flags`. A modifier that stands twice is a failure: a key name was
/// expected in its place.
pub open spec fn spec_modifiers(s: Seq<u8>, pos: int, flags: KeyModifierFlags) -> Parsed<
    KeyModifierFlags,
>
    decreases s.len() - pos,
{
    if 0 <= pos < s.len() && is_modifier(s[pos]) {
        if has_modifier(flags, s[pos]) {
            Err(Failure::expecting(pos, "key name"))
        } else {
            spec_modifiers(s, pos + 1, with_modifier(flags, s[pos]))
        }
    } else {
        Ok((pos, flags))
    }
}

/// Whether a key was written as a single capital letter.
pub open spec fn is_capital(name: Seq<u8>) -> bool {
    name.len() == 1 && is_upper(name[0])
}

/// A key: an identifier whose upper-case form is a name of the registry.
pub open spec fn spec_key(s: Seq<u8>, pos: int, table: KeyTable) -> Parsed<ParsedSingleKey> {
    match spec_ident(s, pos) {
        Err(f) => Err(f),
        Ok((end, name)) => match table.resolve(upper_seq(name)) {
            None => Err(Failure::expecting(pos, "key name")),
            Some(code) => Ok(
                (
                    end,
                    if is_capital(name) {
                        ParsedSingleKey::CapitalKey(Key { code })
                    } else {
                        ParsedSingleKey::Key(Key { code })
                    },
                ),
            ),
        },
    }
}

/// The click of a key with the modifiers of its prefix; a capital key
/// adds shift.
pub open spec fn click(flags: KeyModifierFlags, key: ParsedSingleKey) -> ParsedKeyAction {
    match key {
        ParsedSingleKey::Key(key) => ParsedKeyAction::KeyClickAction(
            KeyClickActionWithMods { key, modifiers: flags },
        ),
        ParsedSingleKey::CapitalKey(key) => ParsedKeyAction::KeyClickAction(
            KeyClickActionWithMods { key, modifiers: KeyModifierFlags { shift: true, ..flags } },
        ),
    }
}

/// A key action: a modifier prefix and a key.
pub open spec fn spec_key_action_with_flags(s: Seq<u8>, pos: int, table: KeyTable) -> Parsed<
    ParsedKeyAction,
> {
    match spec_modifiers(s, pos, KeyModifierFlags::none()) {
        Err(f) => Err(f),
        Ok((at_key, flags)) => match spec_key(s, at_key, table) {
            Err(f) => Err(f),
            Ok((end, key)) => Ok((end, click(flags, key))),
        },
    }
}

/// A key mapping: a key action, `::`, and the key action it is mapped to.
pub open spec fn spec_key_mapping_inline(s: Seq<u8>, pos: int, table: KeyTable) -> Parsed<
    ExprTree,
> {
    match spec_key_action_with_flags(s, pos, table) {
        Err(f) => Err(f),
        Ok((at_colons, from)) => match spec_tag(s, at_colons, "::") {
            Err(f) => Err(f),
            Ok(at_target) => match spec_key_action_with_flags(s, at_target, table) {
                Err(f) => Err(f),
                Ok((end, to)) => Ok((end, ExprTree::KeyMappingInline(from, to))),
            },
        },
    }
}

fn modifier(b: u8) -> (r: bool)
    ensures
        r == is_modifier(b),
{
    b == 33 || b == 94 || b == 43 || b == 35
}

/// Reads a modifier prefix.
pub fn modifiers(input: &[u8], pos: usize) -> (r: Result<(usize, KeyModifierFlags), CustomError>)
    requires
        pos <= input.len(),
    ensures
        plain_outcome(r) == spec_modifiers(input@, pos as int, KeyModifierFlags::none()),
        r matches Ok((end, _)) ==> pos <= end <= input.len(),
{
    let mut flags = KeyModifierFlags::new();
    let mut i: usize = pos;
    while i < input.len() && modifier(input[i])
        invariant
            pos <= i <= input.len(),
            spec_modifiers(input@, pos as int, KeyModifierFlags::none()) == spec_modifiers(
                input@,
                i as int,
                flags,
            ),
        decreases input.len() - i,
    {
        let b = input[i];
        let held = (b == 33 && flags.alt) || (b == 94 && flags.ctrl) || (b == 43 && flags.shift)
            || (b == 35 && flags.meta);
        if held {
            return Err(CustomError::expecting(i, "key name"));
        }
        if b == 33 {
            flags.alt();
        } else if b == 94 {
            flags.ctrl();
        } else if b == 43 {
            flags.shift();
        } else {
            flags.meta();
        }
        i += 1;
    }
    Ok((i, flags))
}

/// Reads a key.
pub fn key(input: &[u8], pos: usize, keys: &KeyRegistry) -> (r: Result<
    (usize, ParsedSingleKey),
    CustomError,
>)
    requires
        pos <= input.len(),
    ensures
        plain_outcome(r) == spec_key(input@, pos as int, keys@),
        r matches Ok((end, _)) ==> pos < end <= input.len(),
{
    match ident(input, pos) {
        Err(err) => Err(err),
        Ok((end, name)) => {
            let upper_name = to_upper(name.as_slice());
            match keys.lookup(upper_name.as_slice()) {
                Err(_) => Err(CustomError::expecting(pos, "key name")),
                Ok(key) => {
                    if name.len() == 1 && 65 <= name[0] && name[0] <= 90 {
                        Ok((end, ParsedSingleKey::CapitalKey(key)))
                    } else {
                        Ok((end, ParsedSingleKey::Key(key)))
                    }
                },
            }
        },
    }
}

/// Reads a key action.
pub fn key_action_with_flags(input: &[u8], pos: usize, keys: &KeyRegistry) -> (r: Result<
    (usize, ParsedKeyAction),
    CustomError,
>)
    requires
        pos <= input.len(),
    ensures
        plain_outcome(r) == spec_key_action_with_flags(input@, pos as int, keys@),
        r matches Ok((end, _)) ==> pos < end <= input.len(),
{
    match modifiers(input, pos) {
        Err(err) => Err(err),
        Ok((at_key, flags)) => match key(input, at_key, keys) {
            Err(err) => Err(err),
            Ok((end, ParsedSingleKey::Key(key))) => Ok(
                (
                    end,
                    ParsedKeyAction::KeyClickAction(
                        KeyClickActionWithMods::new_with_mods(key, flags),
                    ),
                ),
            ),
            Ok((end, ParsedSingleKey::CapitalKey(key))) => {
                let mut shifted = flags;
                shifted.shift();
                Ok(
                    (
                        end,
                        ParsedKeyAction::KeyClickAction(
                            KeyClickActionWithMods::new_with_mods(key, shifted),
                        ),
                    ),
                )
            },
        },
    }
}

/// Reads a key mapping.
pub fn key_mapping_inline(input: &[u8], pos: usize, keys: &KeyRegistry) -> (r: Result<
    (usize, Expr),
    CustomError,
>)
    requires
        pos <= input.len(),
    ensures
        outcome(r) == spec_key_mapping_inline(input@, pos as int, keys@),
        r matches Ok((end, _)) ==> pos < end <= input.len(),
{
    match key_action_with_flags(input, pos, keys) {
        Err(err) => Err(err),
        Ok((at_colons, from)) => match token(input, at_colons, "::") {
            Err(err) => Err(err),
            Ok(at_target) => match key_action_with_flags(input, at_target, keys) {
                Err(err) => Err(err),
                Ok((end, to)) => Ok((end, Expr::KeyMappingInline(from, to))),
            },
        },
    }
}

} // verus!
