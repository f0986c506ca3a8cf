//! Byte strings: how the library writes its own texts, compares them and
//! cuts them out of an input.

use vstd::prelude::*;
use vstd::slice::slice_to_vec;
use vstd::string::*;

verus! {

/// The bytes of a text, in UTF-8.
pub open spec fn utf8(text: &str) -> Seq<u8> {
    text.spec_bytes()
}

/// A text of ASCII characters has one byte per character.
pub proof fn ascii_text_bytes(text: &str)
    requires
        is_ascii(text),
    ensures
        utf8(text) == Seq::new(text@.len(), |i: int| text@[i] as u8),
        utf8(text).len() == text@.len(),
{
    is_ascii_spec_bytes(text);
}

/// The bytes of a text.
pub fn literal(text: &str) -> (bytes: Vec<u8>)
    ensures
        bytes@ == utf8(text),
{
    slice_to_vec(text.as_bytes())
}

/// Whether `token` stands in `s` at `pos`.
pub open spec fn starts_with_at(s: Seq<u8>, pos: int, token: Seq<u8>) -> bool {
    0 <= pos && pos + token.len() <= s.len() && s.subrange(pos, pos + token.len()) == token
}

/// Tests whether the text `token` stands in `input` at `pos`.
pub fn tag(input: &[u8], pos: usize, token: &str) -> (found: bool)
    requires
        pos <= input.len(),
    ensures
        found == starts_with_at(input@, pos as int, utf8(token)),
{
    let t = token.as_bytes();
    if t.len() > input.len() - pos {
        return false;
    }
    let mut i: usize = 0;
    while i < t.len()
        invariant
            i <= t.len(),
            pos + t.len() <= input.len(),
            t@ == utf8(token),
            forall|j: int| 0 <= j < i ==> input@[pos + j] == t@[j],
        decreases t.len() - i,
    {
        if input[pos + i] != t[i] {
            assert(input@.subrange(pos as int, pos + t.len())[i as int] != t@[i as int]);
            return false;
        }
        i += 1;
    }
    assert(input@.subrange(pos as int, pos + t.len()) =~= t@);
    true
}

/// Tests two byte strings for equality.
pub fn bytes_equal(a: &[u8], b: &[u8]) -> (equal: bool)
    ensures
        equal == (a@ == b@),
{
    if a.len() != b.len() {
        return false;
    }
    let mut i: usize = 0;
    while i < a.len()
        invariant
            i <= a.len(),
            a.len() == b.len(),
            forall|j: int| 0 <= j < i ==> a@[j] == b@[j],
        decreases a.len() - i,
    {
        if a[i] != b[i] {
            return false;
        }
        i += 1;
    }
    assert(a@ =~= b@);
    true
}

/// Copies `input[from..to]`.
pub fn copy_range(input: &[u8], from: usize, to: usize) -> (bytes: Vec<u8>)
    requires
        from <= to <= input.len(),
    ensures
        bytes@ == input@.subrange(from as int, to as int),
{
    let mut bytes: Vec<u8> = Vec::new();
    let mut i: usize = from;
    while i < to
        invariant
            from <= i <= to <= input.len(),
            bytes@ == input@.subrange(from as int, i as int),
        decreases to - i,
    {
        bytes.push(input[i]);
        i += 1;
        assert(bytes@ =~= input@.subrange(from as int, i as int));
    }
    bytes
}

/// Appends `tail` to `bytes`.
pub fn append_bytes(bytes: &mut Vec<u8>, tail: &[u8])
    ensures
        final(bytes)@ == old(bytes)@ + tail@,
{
    let mut i: usize = 0;
    while i < tail.len()
        invariant
            i <= tail.len(),
            bytes@ == old(bytes)@ + tail@.subrange(0, i as int),
        decreases tail.len() - i,
    {
        bytes.push(tail[i]);
        i += 1;
        assert(bytes@ =~= old(bytes)@ + tail@.subrange(0, i as int));
    }
    assert(tail@.subrange(0, tail.len() as int) =~= tail@);
}

pub open spec fn is_upper(b: u8) -> bool {
    ('A' as u8) <= b <= ('Z' as u8)
}

pub open spec fn is_lower(b: u8) -> bool {
    ('a' as u8) <= b <= ('z' as u8)
}

pub open spec fn is_digit(b: u8) -> bool {
    ('0' as u8) <= b <= ('9' as u8)
}

/// The upper-case form of an ASCII letter; any other byte stays.
pub open spec fn upper(b: u8) -> u8 {
    if is_lower(b) {
        (b - 32) as u8
    } else {
        b
    }
}

/// The lower-case form of an ASCII letter; any other byte stays.
pub open spec fn lower(b: u8) -> u8 {
    if is_upper(b) {
        (b + 32) as u8
    } else {
        b
    }
}

pub open spec fn upper_seq(s: Seq<u8>) -> Seq<u8> {
    Seq::new(s.len(), |i: int| upper(s[i]))
}

pub open spec fn lower_seq(s: Seq<u8>) -> Seq<u8> {
    Seq::new(s.len(), |i: int| lower(s[i]))
}

pub fn to_upper(bytes: &[u8]) -> (up: Vec<u8>)
    ensures
        up@ == upper_seq(bytes@),
{
    let mut up: Vec<u8> = Vec::new();
    let mut i: usize = 0;
    while i < bytes.len()
        invariant
            i <= bytes.len(),
            up@ == upper_seq(bytes@.subrange(0, i as int)),
        decreases bytes.len() - i,
    {
        let b = bytes[i];
        if b >= 97 && b <= 122 {
            up.push(b - 32);
        } else {
            up.push(b);
        }
        i += 1;
        assert(up@ =~= upper_seq(bytes@.subrange(0, i as int)));
    }
    assert(bytes@.subrange(0, bytes.len() as int) =~= bytes@);
    up
}

pub fn to_lower(bytes: &[u8]) -> (low: Vec<u8>)
    ensures
        low@ == lower_seq(bytes@),
{
    let mut low: Vec<u8> = Vec::new();
    let mut i: usize = 0;
    while i < bytes.len()
        invariant
            i <= bytes.len(),
            low@ == lower_seq(bytes@.subrange(0, i as int)),
        decreases bytes.len() - i,
    {
        let b = bytes[i];
        if b >= 65 && b <= 90 {
            low.push(b + 32);
        } else {
            low.push(b);
        }
        i += 1;
        assert(low@ =~= lower_seq(bytes@.subrange(0, i as int)));
    }
    assert(bytes@.subrange(0, bytes.len() as int) =~= bytes@);
    low
}

} // verus!
