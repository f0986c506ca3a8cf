//! The smallest rules of the grammar: white space, tokens, identifiers and
//! literals. Each rule is stated as a function of the input and of the
//! place at which it is tried; the parser beside it computes that function.

use vstd::prelude::*;
use crate::ast::{Expr, ExprTree, ValueTree, ValueType};
use crate::parsing::error::{CustomError, Failure};
use crate::parsing::tokens::tokens;
use crate::text::{bytes_equal, copy_range, is_digit, is_lower, is_upper, starts_with_at, tag, utf8};

verus! {

/// What a rule gives at a place of the input: where it stopped and what it
/// read, or why it did not match.
pub type Parsed<T> = Result<(int, T), Failure>;

/// The outcome of a parser, as the contracts speak of it.
pub open spec fn outcome<T: View>(r: Result<(usize, T), CustomError>) -> Parsed<T::V> {
    match r {
        Ok((end, value)) => Ok((end as int, value@)),
        Err(err) => Err(err@),
    }
}

/// The outcome of a parser whose value is its own model.
pub open spec fn plain_outcome<T>(r: Result<(usize, T), CustomError>) -> Parsed<T> {
    match r {
        Ok((end, value)) => Ok((end as int, value)),
        Err(err) => Err(err@),
    }
}

/// Ordered choice: the first alternative if it matched; else the second; if
/// neither did, their merged failure.
pub open spec fn or_else<T>(first: Parsed<T>, second: Parsed<T>) -> Parsed<T> {
    match first {
        Ok(_) => first,
        Err(earlier) => match second {
            Ok(_) => second,
            Err(later) => Err(earlier.or(later)),
        },
    }
}

/// White space: a space, a tab, a line feed or a carriage return.
pub open spec fn is_space(b: u8) -> bool {
    b == 32 || b == 9 || b == 10 || b == 13
}

/// Where the white space that begins at `pos` ends.
pub open spec fn skip_spaces(s: Seq<u8>, pos: int) -> int
    decreases s.len() - pos,
{
    if 0 <= pos < s.len() && is_space(s[pos]) {
        skip_spaces(s, pos + 1)
    } else {
        pos
    }
}

/// White space ends within the input, at a character that is none.
pub proof fn skip_spaces_bounds(s: Seq<u8>, pos: int)
    requires
        0 <= pos <= s.len(),
    ensures
        pos <= skip_spaces(s, pos) <= s.len(),
        skip_spaces(s, pos) < s.len() ==> !is_space(s[skip_spaces(s, pos)]),
        forall|i: int| pos <= i < skip_spaces(s, pos) ==> is_space(s[i]),
    decreases s.len() - pos,
{
    if pos < s.len() && is_space(s[pos]) {
        skip_spaces_bounds(s, pos + 1);
    }
}

/// At least one white-space character.
pub open spec fn spec_ws1(s: Seq<u8>, pos: int) -> Result<int, Failure> {
    if 0 <= pos < s.len() && is_space(s[pos]) {
        Ok(skip_spaces(s, pos))
    } else {
        Err(Failure::expecting(pos, "whitespace"))
    }
}

/// The token `text`.
pub open spec fn spec_tag(s: Seq<u8>, pos: int, text: &str) -> Result<int, Failure> {
    if starts_with_at(s, pos, utf8(text)) {
        Ok(pos + utf8(text).len())
    } else {
        Err(Failure::expecting(pos, text))
    }
}

/// What an identifier begins with: a letter or `_`.
pub open spec fn is_ident_start(b: u8) -> bool {
    is_upper(b) || is_lower(b) || b == 95
}

/// What an identifier goes on with: a letter, `_` or a digit.
pub open spec fn is_ident_char(b: u8) -> bool {
    is_ident_start(b) || is_digit(b)
}

/// Where the identifier characters that begin at `pos` end.
pub open spec fn ident_end(s: Seq<u8>, pos: int) -> int
    decreases s.len() - pos,
{
    if 0 <= pos < s.len() && is_ident_char(s[pos]) {
        ident_end(s, pos + 1)
    } else {
        pos
    }
}

/// The characters of an identifier end within the input, at a character
/// that is none of them.
pub proof fn ident_end_bounds(s: Seq<u8>, pos: int)
    requires
        0 <= pos <= s.len(),
    ensures
        pos <= ident_end(s, pos) <= s.len(),
        ident_end(s, pos) < s.len() ==> !is_ident_char(s[ident_end(s, pos)]),
        forall|i: int| pos <= i < ident_end(s, pos) ==> is_ident_char(s[i]),
    decreases s.len() - pos,
{
    if pos < s.len() && is_ident_char(s[pos]) {
        ident_end_bounds(s, pos + 1);
    }
}

/// The words that the language keeps for itself: `if`, `let`, `true`
/// and `false`.
pub open spec fn is_reserved(word: Seq<u8>) -> bool {
    word == utf8("if") || word == utf8("let") || word == utf8("true") || word == utf8("false")
}

/// An identifier: a letter or `_`, then letters, digits and `_` as far as
/// they go; but none of the reserved words.
pub open spec fn spec_ident(s: Seq<u8>, pos: int) -> Parsed<Seq<u8>> {
    if 0 <= pos < s.len() && is_ident_start(s[pos]) && !is_reserved(
        s.subrange(pos, ident_end(s, pos + 1)),
    ) {
        Ok((ident_end(s, pos + 1), s.subrange(pos, ident_end(s, pos + 1))))
    } else {
        Err(Failure::expecting(pos, "identifier"))
    }
}

/// Where the digits that begin at `pos` end.
pub open spec fn digits_end(s: Seq<u8>, pos: int) -> int
    decreases s.len() - pos,
{
    if 0 <= pos < s.len() && is_digit(s[pos]) {
        digits_end(s, pos + 1)
    } else {
        pos
    }
}

/// Digits end within the input, at a character that is none.
pub proof fn digits_end_bounds(s: Seq<u8>, pos: int)
    requires
        0 <= pos <= s.len(),
    ensures
        pos <= digits_end(s, pos) <= s.len(),
        digits_end(s, pos) < s.len() ==> !is_digit(s[digits_end(s, pos)]),
        forall|i: int| pos <= i < digits_end(s, pos) ==> is_digit(s[i]),
    decreases s.len() - pos,
{
    if pos < s.len() && is_digit(s[pos]) {
        digits_end_bounds(s, pos + 1);
    }
}

/// Where a number that begins at `pos` ends: after its digits, and after
/// a point and more digits if they follow.
pub open spec fn number_end(s: Seq<u8>, pos: int) -> int {
    let whole = digits_end(s, pos);
    if whole + 1 < s.len() && s[whole] == 46 && is_digit(s[whole + 1]) {
        digits_end(s, whole + 1)
    } else {
        whole
    }
}

/// A number: digits, or digits, a point and digits. Its value is its text.
pub open spec fn spec_number(s: Seq<u8>, pos: int) -> Parsed<ExprTree> {
    if 0 <= pos < s.len() && is_digit(s[pos]) {
        Ok(
            (
                number_end(s, pos),
                ExprTree::Value(ValueTree::Number(s.subrange(pos, number_end(s, pos)))),
            ),
        )
    } else {
        Err(Failure::expecting(pos, "number"))
    }
}

/// Where the next `"` at or after `pos` stands, or the end of the input.
pub open spec fn quote_at(s: Seq<u8>, pos: int) -> int
    decreases s.len() - pos,
{
    if 0 <= pos < s.len() && s[pos] != 34 {
        quote_at(s, pos + 1)
    } else {
        pos
    }
}

/// The next `"` stands within the input or is missing, and no `"` stands
/// in front of it.
pub proof fn quote_at_bounds(s: Seq<u8>, pos: int)
    requires
        0 <= pos <= s.len(),
    ensures
        pos <= quote_at(s, pos) <= s.len(),
        quote_at(s, pos) < s.len() ==> s[quote_at(s, pos)] == 34,
        forall|i: int| pos <= i < quote_at(s, pos) ==> s[i] != 34,
    decreases s.len() - pos,
{
    if pos < s.len() && s[pos] != 34 {
        quote_at_bounds(s, pos + 1);
    }
}

/// A string: `"`, any text without `"`, and `"`. Its value is the text
/// between the quotes.
pub open spec fn spec_string(s: Seq<u8>, pos: int) -> Parsed<ExprTree> {
    if starts_with_at(s, pos, utf8("\"")) {
        let close = quote_at(s, pos + 1);
        if close < s.len() {
            Ok((close + 1, ExprTree::Value(ValueTree::String(s.subrange(pos + 1, close)))))
        } else {
            Err(Failure::expecting(pos + 1, "\""))
        }
    } else {
        Err(Failure::expecting(pos, "\""))
    }
}

/// Whether the word `text` stands at `pos`: the text, and no character
/// after it with which an identifier would go on.
pub open spec fn word_at(s: Seq<u8>, pos: int, text: &str) -> bool {
    starts_with_at(s, pos, utf8(text)) && !(pos + utf8(text).len() < s.len() && is_ident_char(
        s[pos + utf8(text).len()],
    ))
}

/// A boolean: the word `true` or the word `false`.
pub open spec fn spec_boolean(s: Seq<u8>, pos: int) -> Parsed<ExprTree> {
    if word_at(s, pos, "true") {
        Ok((pos + utf8("true").len(), ExprTree::Value(ValueTree::Bool(true))))
    } else if word_at(s, pos, "false") {
        Ok((pos + utf8("false").len(), ExprTree::Value(ValueTree::Bool(false))))
    } else {
        Err(Failure::expecting(pos, "true").or(Failure::expecting(pos, "false")))
    }
}

/// Tests for white space.
pub fn space(b: u8) -> (r: bool)
    ensures
        r == is_space(b),
{
    b == 32 || b == 9 || b == 10 || b == 13
}

/// Tests for a character that begins an identifier.
pub fn ident_start(b: u8) -> (r: bool)
    ensures
        r == is_ident_start(b),
{
    (65 <= b && b <= 90) || (97 <= b && b <= 122) || b == 95
}

/// Tests for a digit.
pub fn digit(b: u8) -> (r: bool)
    ensures
        r == is_digit(b),
{
    48 <= b && b <= 57
}

/// Tests for a character with which an identifier goes on.
pub fn ident_char(b: u8) -> (r: bool)
    ensures
        r == is_ident_char(b),
{
    ident_start(b) || digit(b)
}

/// Skips white space: zero or more characters of it.
pub fn ws0(input: &[u8], pos: usize) -> (end: usize)
    requires
        pos <= input.len(),
    ensures
        end == skip_spaces(input@, pos as int),
        pos <= end <= input.len(),
{
    let mut i: usize = pos;
    while i < input.len() && space(input[i])
        invariant
            pos <= i <= input.len(),
            skip_spaces(input@, pos as int) == skip_spaces(input@, i as int),
        decreases input.len() - i,
    {
        i += 1;
    }
    i
}

/// Skips white space of which there must be some.
pub fn ws1(input: &[u8], pos: usize) -> (r: Result<usize, CustomError>)
    requires
        pos <= input.len(),
    ensures
        match r {
            Ok(end) => spec_ws1(input@, pos as int) == Ok::<int, Failure>(end as int) && pos < end
                <= input.len(),
            Err(err) => spec_ws1(input@, pos as int) == Err::<int, Failure>(err@),
        },
{
    if pos < input.len() && space(input[pos]) {
        let end = ws0(input, pos);
        assert(end > pos) by {
            skip_spaces_bounds(input@, pos + 1);
        }
        Ok(end)
    } else {
        Err(CustomError::expecting(pos, "whitespace"))
    }
}

/// Reads the token `text`.
pub fn token(input: &[u8], pos: usize, text: &str) -> (r: Result<usize, CustomError>)
    requires
        pos <= input.len(),
    ensures
        match r {
            Ok(end) => spec_tag(input@, pos as int, text) == Ok::<int, Failure>(end as int) && pos
                <= end <= input.len(),
            Err(err) => spec_tag(input@, pos as int, text) == Err::<int, Failure>(err@),
        },
{
    if tag(input, pos, text) {
        Ok(pos + text.as_bytes().len())
    } else {
        Err(CustomError::expecting(pos, text))
    }
}

fn scan_ident(input: &[u8], pos: usize) -> (end: usize)
    requires
        pos <= input.len(),
    ensures
        end == ident_end(input@, pos as int),
        pos <= end <= input.len(),
{
    let mut i: usize = pos;
    while i < input.len() && ident_char(input[i])
        invariant
            pos <= i <= input.len(),
            ident_end(input@, pos as int) == ident_end(input@, i as int),
        decreases input.len() - i,
    {
        i += 1;
    }
    i
}

fn scan_digits(input: &[u8], pos: usize) -> (end: usize)
    requires
        pos <= input.len(),
    ensures
        end == digits_end(input@, pos as int),
        pos <= end <= input.len(),
{
    let mut i: usize = pos;
    while i < input.len() && digit(input[i])
        invariant
            pos <= i <= input.len(),
            digits_end(input@, pos as int) == digits_end(input@, i as int),
        decreases input.len() - i,
    {
        i += 1;
    }
    i
}

fn scan_quote(input: &[u8], pos: usize) -> (end: usize)
    requires
        pos <= input.len(),
    ensures
        end == quote_at(input@, pos as int),
        pos <= end <= input.len(),
{
    let mut i: usize = pos;
    while i < input.len() && input[i] != 34
        invariant
            pos <= i <= input.len(),
            quote_at(input@, pos as int) == quote_at(input@, i as int),
        decreases input.len() - i,
    {
        i += 1;
    }
    i
}

/// Reads an identifier.
pub fn ident(input: &[u8], pos: usize) -> (r: Result<(usize, Vec<u8>), CustomError>)
    requires
        pos <= input.len(),
    ensures
        outcome(r) == spec_ident(input@, pos as int),
        r matches Ok((end, _)) ==> pos < end <= input.len(),
{
    if pos < input.len() && ident_start(input[pos]) {
        let end = scan_ident(input, pos + 1);
        let name = copy_range(input, pos, end);
        if reserved(name.as_slice()) {
            Err(CustomError::expecting(pos, "identifier"))
        } else {
            Ok((end, name))
        }
    } else {
        Err(CustomError::expecting(pos, "identifier"))
    }
}

/// Tests whether a word is one of the reserved ones.
pub fn reserved(word: &[u8]) -> (r: bool)
    ensures
        r == is_reserved(word@),
{
    bytes_equal(word, "if".as_bytes()) || bytes_equal(word, "let".as_bytes()) || bytes_equal(
        word,
        "true".as_bytes(),
    ) || bytes_equal(word, "false".as_bytes())
}

fn word(input: &[u8], pos: usize, text: &str) -> (found: bool)
    requires
        pos <= input.len(),
    ensures
        found == word_at(input@, pos as int, text),
{
    if tag(input, pos, text) {
        let end = pos + text.as_bytes().len();
        !(end < input.len() && ident_char(input[end]))
    } else {
        false
    }
}

/// Reads a number.
pub fn number(input: &[u8], pos: usize) -> (r: Result<(usize, Expr), CustomError>)
    requires
        pos <= input.len(),
    ensures
        outcome(r) == spec_number(input@, pos as int),
        r matches Ok((end, _)) ==> pos < end <= input.len(),
{
    if pos < input.len() && digit(input[pos]) {
        let whole = scan_digits(input, pos);
        assert(whole > pos) by {
            digits_end_bounds(input@, pos + 1);
        }
        let end = if whole < input.len() && input[whole] == 46 && whole + 1 < input.len() && digit(
            input[whole + 1],
        ) {
            scan_digits(input, whole + 1)
        } else {
            whole
        };
        Ok((end, Expr::Value(ValueType::Number(copy_range(input, pos, end)))))
    } else {
        Err(CustomError::expecting(pos, "number"))
    }
}

/// Reads a string.
pub fn string(input: &[u8], pos: usize) -> (r: Result<(usize, Expr), CustomError>)
    requires
        pos <= input.len(),
    ensures
        outcome(r) == spec_string(input@, pos as int),
        r matches Ok((end, _)) ==> pos < end <= input.len(),
{
    if tag(input, pos, "\"") {
        proof {
            tokens();
        }
        let close = scan_quote(input, pos + 1);
        if close < input.len() {
            Ok((close + 1, Expr::Value(ValueType::String(copy_range(input, pos + 1, close)))))
        } else {
            Err(CustomError::expecting(pos + 1, "\""))
        }
    } else {
        Err(CustomError::expecting(pos, "\""))
    }
}

/// Reads a boolean.
pub fn boolean(input: &[u8], pos: usize) -> (r: Result<(usize, Expr), CustomError>)
    requires
        pos <= input.len(),
    ensures
        outcome(r) == spec_boolean(input@, pos as int),
        r matches Ok((end, _)) ==> pos < end <= input.len(),
{
    proof {
        tokens();
    }
    if word(input, pos, "true") {
        Ok((pos + "true".as_bytes().len(), Expr::Value(ValueType::Bool(true))))
    } else if word(input, pos, "false") {
        Ok((pos + "false".as_bytes().len(), Expr::Value(ValueType::Bool(false))))
    } else {
        Err(CustomError::expecting(pos, "true").or(CustomError::expecting(pos, "false")))
    }
}

} // verus!
