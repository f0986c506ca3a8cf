//! What a failed parse reports, and how the report is shown.
//!
//! A failure holds the place in the input at which a rule did not match (the
//! rest of the input from there on is what was left unread) and, in the order
//! in which they were tried, what the rules would have accepted there.

use vstd::prelude::*;
use crate::text::{append_bytes, literal, utf8};

verus! {

/// A failure as the contracts speak of it.
pub struct Failure {
    /// Where in the input the rule did not match.
    pub offset: int,
    /// What would have been accepted, first tried first.
    pub expected: Seq<Seq<u8>>,
}

impl Failure {
    /// The failure of a rule that accepts `text` at `offset`.
    pub open spec fn expecting(offset: int, text: &str) -> Failure {
        Failure { offset, expected: seq![utf8(text)] }
    }

    /// The failure of two alternatives that both failed, `self` first. It
    /// points where the second one failed, and lists what the first one
    /// expected before what the second one expected.
    pub open spec fn or(self, second: Failure) -> Failure {
        Failure { offset: second.offset, expected: self.expected + second.expected }
    }

    /// The input that was left unread.
    pub open spec fn remaining(self, input: Seq<u8>) -> Seq<u8> {
        input.subrange(self.offset, input.len() as int)
    }
}

/// The failure of a parse.
#[derive(Debug, PartialEq, Eq)]
pub struct CustomError {
    /// Where in the input the rule did not match.
    pub offset: usize,
    /// What would have been accepted, first tried first.
    pub expected: Vec<Vec<u8>>,
}

/// The byte strings that a vector of byte vectors holds.
pub open spec fn texts(list: Seq<Vec<u8>>) -> Seq<Seq<u8>> {
    Seq::new(list.len(), |i: int| list[i]@)
}

impl View for CustomError {
    type V = Failure;

    open spec fn view(&self) -> Failure {
        Failure { offset: self.offset as int, expected: texts(self.expected@) }
    }
}

/// A failure that says nothing: it points at the start of the input and
/// names no expectation.
pub fn make_generic_nom_err() -> (err: CustomError)
    ensures
        err@ == (Failure { offset: 0, expected: Seq::empty() }),
{
    let err = CustomError { offset: 0, expected: Vec::new() };
    assert(err@.expected =~= Seq::empty());
    err
}

impl CustomError {
    /// A failure at `offset` that names no expectation.
    pub fn from_error_kind(offset: usize) -> (err: CustomError)
        ensures
            err@ == (Failure { offset: offset as int, expected: Seq::empty() }),
    {
        let err = CustomError { offset, expected: Vec::new() };
        assert(err@.expected =~= Seq::empty());
        err
    }

    /// A failure at `offset` where the character `ch` was expected.
    pub fn from_char(offset: usize, ch: u8) -> (err: CustomError)
        ensures
            err@ == (Failure { offset: offset as int, expected: seq![seq![ch]] }),
    {
        let mut text: Vec<u8> = Vec::new();
        text.push(ch);
        let mut expected: Vec<Vec<u8>> = Vec::new();
        expected.push(text);
        let err = CustomError { offset, expected };
        assert(err@.expected =~= seq![seq![ch]]);
        err
    }

    /// A failure at `offset` where `text` was expected: a token, or the
    /// name of a rule.
    pub fn expecting(offset: usize, text: &str) -> (err: CustomError)
        ensures
            err@ == Failure::expecting(offset as int, text),
    {
        let mut expected: Vec<Vec<u8>> = Vec::new();
        expected.push(literal(text));
        let err = CustomError { offset, expected };
        assert(err@.expected =~= seq![utf8(text)]);
        err
    }

    /// Merges the failures of two alternatives, `self` being the one that was
    /// tried first: the place is that of `other`, and what `self` expected
    /// comes before what `other` expected.
    pub fn or(self, other: CustomError) -> (err: CustomError)
        ensures
            err@ == self@.or(other@),
    {
        let CustomError { offset: _, expected: mut expected } = self;
        let CustomError { offset, expected: mut second } = other;
        let ghost first_texts = texts(expected@);
        let ghost second_texts = texts(second@);
        expected.append(&mut second);
        let err = CustomError { offset, expected };
        assert(err@.expected =~= first_texts + second_texts);
        err
    }

    /// Adds nothing: a failure keeps what it says when an enclosing rule fails.
    pub fn append(offset: usize, other: CustomError) -> (err: CustomError)
        ensures
            err@ == other@,
    {
        other
    }
}

/// The line feed.
pub const LINE_FEED: u8 = 10;

/// How many line feeds stand in `s` before `end`.
pub open spec fn count_newlines(s: Seq<u8>, end: int) -> nat
    decreases end,
{
    if end <= 0 {
        0
    } else if s[end - 1] == LINE_FEED {
        count_newlines(s, end - 1) + 1
    } else {
        count_newlines(s, end - 1)
    }
}

/// Where the line that holds `offset` begins: after the nearest line feed
/// before `offset`, or at the start of the input.
pub open spec fn line_begin(s: Seq<u8>, offset: int) -> int
    decreases offset,
{
    if offset <= 0 {
        0
    } else if s[offset - 1] == LINE_FEED {
        offset
    } else {
        line_begin(s, offset - 1)
    }
}

/// Where the line that begins at `from` ends: at the next line feed, or at
/// the end of the input.
pub open spec fn line_end(s: Seq<u8>, from: int) -> int
    decreases s.len() - from,
{
    if from >= s.len() {
        s.len() as int
    } else if s[from] == LINE_FEED {
        from
    } else {
        line_end(s, from + 1)
    }
}

/// How many bytes the white-space character takes that ends `s[begin..end]`,
/// or 0 if that text does not end in white space. White space is what
/// Unicode calls so, in UTF-8.
pub open spec fn trailing_space_width(s: Seq<u8>, begin: int, end: int) -> int {
    if end - begin >= 1 && (9 <= s[end - 1] <= 13 || s[end - 1] == 32) {
        1
    } else if end - begin >= 2 && s[end - 2] == 0xC2 && (s[end - 1] == 0x85 || s[end - 1] == 0xA0) {
        2
    } else if end - begin >= 3 && s[end - 3] == 0xE1 && s[end - 2] == 0x9A && s[end - 1] == 0x80 {
        3
    } else if end - begin >= 3 && s[end - 3] == 0xE2 && s[end - 2] == 0x80 && (0x80 <= s[end - 1]
        <= 0x8A || s[end - 1] == 0xA8 || s[end - 1] == 0xA9 || s[end - 1] == 0xAF) {
        3
    } else if end - begin >= 3 && s[end - 3] == 0xE2 && s[end - 2] == 0x81 && s[end - 1] == 0x9F {
        3
    } else if end - begin >= 3 && s[end - 3] == 0xE3 && s[end - 2] == 0x80 && s[end - 1] == 0x80 {
        3
    } else {
        0
    }
}

/// Where `s[begin..end]` ends once its trailing white space is cut off.
pub open spec fn trimmed_end(s: Seq<u8>, begin: int, end: int) -> int
    decreases end - begin,
{
    let width = trailing_space_width(s, begin, end);
    if width > 0 && end - begin >= width {
        trimmed_end(s, begin, end - width)
    } else {
        end
    }
}

/// The decimal digits of `n`.
pub open spec fn decimal(n: nat) -> Seq<u8>
    decreases n,
{
    if n < 10 {
        seq![(48 + n) as u8]
    } else {
        decimal(n / 10).push((48 + n % 10) as u8)
    }
}

/// `count` spaces.
pub open spec fn spaces(count: int) -> Seq<u8> {
    Seq::new(count as nat, |i: int| 32u8)
}

/// The text of a line of the input: from the line's beginning to its end,
/// without trailing white space.
pub open spec fn line_text(input: Seq<u8>, offset: int) -> Seq<u8> {
    let begin = line_begin(input, offset);
    input.subrange(begin, trimmed_end(input, begin, line_end(input, begin)))
}

/// The column of `offset` in its line, counted from 1.
pub open spec fn column(input: Seq<u8>, offset: int) -> int {
    offset - line_begin(input, offset) + 1
}

/// The message for a failure at `offset` that expected `expected` first.
///
/// For an empty input it is empty. Otherwise it has four lines and ends
/// in an empty one: the number of the line that holds `offset`, counted from
/// 1; the text of that line; a caret under the column of `offset`; and
/// what was expected.
pub open spec fn diagnostic(input: Seq<u8>, offset: int, expected: Seq<u8>) -> Seq<u8> {
    if input.len() == 0 {
        Seq::empty()
    } else {
        utf8("err: at line ") + decimal(count_newlines(input, offset) + 1) + utf8(":\n")
            + line_text(input, offset) + utf8("\n") + spaces(column(input, offset) - 1)
            + utf8("^\nexpected '") + expected + utf8("'\n\n")
    }
}

/// The line that holds `offset` begins at the start of the input or behind
/// a line feed, and no line feed stands between its beginning and `offset`.
pub proof fn line_begins_behind_a_line_feed(s: Seq<u8>, offset: int)
    requires
        0 <= offset <= s.len(),
    ensures
        0 <= line_begin(s, offset) <= offset,
        line_begin(s, offset) == 0 || s[line_begin(s, offset) - 1] == LINE_FEED,
        forall|i: int| line_begin(s, offset) <= i < offset ==> s[i] != LINE_FEED,
        column(s, offset) >= 1,
    decreases offset,
{
    if offset > 0 && s[offset - 1] != LINE_FEED {
        line_begins_behind_a_line_feed(s, offset - 1);
    }
}

/// The line that begins at `from` ends at the first line feed from there
/// on, or at the end of the input if there is none.
pub proof fn line_ends_at_a_line_feed(s: Seq<u8>, from: int)
    requires
        0 <= from <= s.len(),
    ensures
        from <= line_end(s, from) <= s.len(),
        line_end(s, from) == s.len() || s[line_end(s, from)] == LINE_FEED,
        forall|i: int| from <= i < line_end(s, from) ==> s[i] != LINE_FEED,
    decreases s.len() - from,
{
    if from < s.len() && s[from] != LINE_FEED {
        line_ends_at_a_line_feed(s, from + 1);
    }
}

/// Cutting off trailing white space leaves a text that does not end in
/// white space, and cuts off nothing else.
pub proof fn trimmed_text_ends_without_space(s: Seq<u8>, begin: int, end: int)
    requires
        0 <= begin <= end <= s.len(),
    ensures
        begin <= trimmed_end(s, begin, end) <= end,
        trailing_space_width(s, begin, trimmed_end(s, begin, end)) == 0,
    decreases end - begin,
{
    let width = trailing_space_width(s, begin, end);
    if width > 0 && end - begin >= width {
        trimmed_text_ends_without_space(s, begin, end - width);
    }
}

/// The number of a line counts the line feeds in front of `offset`: it goes
/// up by one behind each line feed, and stays where none stands.
pub proof fn line_feeds_are_counted(s: Seq<u8>, offset: int)
    requires
        0 <= offset < s.len(),
    ensures
        count_newlines(s, 0) == 0,
        count_newlines(s, offset + 1) == count_newlines(s, offset) + (if s[offset] == LINE_FEED {
            1nat
        } else {
            0nat
        }),
        count_newlines(s, offset) <= offset,
    decreases offset,
{
    if offset > 0 {
        line_feeds_are_counted(s, offset - 1);
    }
}

fn newlines_before(input: &[u8], offset: usize) -> (count: usize)
    requires
        offset <= input.len(),
    ensures
        count == count_newlines(input@, offset as int),
        count <= offset,
{
    let mut count: usize = 0;
    let mut i: usize = 0;
    while i < offset
        invariant
            i <= offset <= input.len(),
            count == count_newlines(input@, i as int),
            count <= i,
        decreases offset - i,
    {
        if input[i] == LINE_FEED {
            count += 1;
        }
        i += 1;
    }
    count
}

fn find_line_begin(input: &[u8], offset: usize) -> (begin: usize)
    requires
        offset <= input.len(),
    ensures
        begin == line_begin(input@, offset as int),
        begin <= offset,
{
    let mut i: usize = offset;
    while i > 0 && input[i - 1] != LINE_FEED
        invariant
            i <= offset <= input.len(),
            line_begin(input@, offset as int) == line_begin(input@, i as int),
        decreases i,
    {
        i -= 1;
    }
    i
}

fn find_line_end(input: &[u8], from: usize) -> (end: usize)
    requires
        from <= input.len(),
    ensures
        end == line_end(input@, from as int),
        from <= end <= input.len(),
{
    let mut i: usize = from;
    while i < input.len() && input[i] != LINE_FEED
        invariant
            from <= i <= input.len(),
            line_end(input@, from as int) == line_end(input@, i as int),
        decreases input.len() - i,
    {
        i += 1;
    }
    i
}

fn space_width(input: &[u8], begin: usize, end: usize) -> (width: usize)
    requires
        begin <= end <= input.len(),
    ensures
        width == trailing_space_width(input@, begin as int, end as int),
        width <= end - begin,
        width <= 3,
{
    let len = end - begin;
    if len >= 1 {
        let last = input[end - 1];
        if (9 <= last && last <= 13) || last == 32 {
            return 1;
        }
        if len >= 2 {
            let second = input[end - 2];
            if second == 0xC2 && (last == 0x85 || last == 0xA0) {
                return 2;
            }
            if len >= 3 {
                let third = input[end - 3];
                if third == 0xE1 && second == 0x9A && last == 0x80 {
                    return 3;
                }
                if third == 0xE2 && second == 0x80 && ((0x80 <= last && last <= 0x8A) || last
                    == 0xA8 || last == 0xA9 || last == 0xAF) {
                    return 3;
                }
                if third == 0xE2 && second == 0x81 && last == 0x9F {
                    return 3;
                }
                if third == 0xE3 && second == 0x80 && last == 0x80 {
                    return 3;
                }
            }
        }
    }
    0
}

fn trim_end(input: &[u8], begin: usize, end: usize) -> (trimmed: usize)
    requires
        begin <= end <= input.len(),
    ensures
        trimmed == trimmed_end(input@, begin as int, end as int),
        begin <= trimmed <= end,
{
    let mut i: usize = end;
    loop
        invariant
            begin <= i <= end <= input.len(),
            trimmed_end(input@, begin as int, end as int) == trimmed_end(
                input@,
                begin as int,
                i as int,
            ),
        ensures
            begin <= i <= end,
            i == trimmed_end(input@, begin as int, end as int),
        decreases i - begin,
    {
        let width = space_width(input, begin, i);
        if width == 0 {
            break ;
        }
        i -= width;
    }
    i
}

fn push_decimal(out: &mut Vec<u8>, n: u128)
    ensures
        final(out)@ == old(out)@ + decimal(n as nat),
    decreases n,
{
    if n < 10 {
        out.push((48 + n) as u8);
        assert(out@ =~= old(out)@ + decimal(n as nat));
    } else {
        push_decimal(out, n / 10);
        out.push((48 + n % 10) as u8);
        assert(out@ =~= old(out)@ + decimal(n as nat));
    }
}

fn push_spaces(out: &mut Vec<u8>, count: usize)
    ensures
        final(out)@ == old(out)@ + spaces(count as int),
{
    let mut i: usize = 0;
    while i < count
        invariant
            i <= count,
            out@ == old(out)@ + spaces(i as int),
        decreases count - i,
    {
        out.push(32);
        i += 1;
        assert(out@ =~= old(out)@ + spaces(i as int));
    }
}

/// Renders a failure of a parse of `input` for display. The failure must
/// name at least one expectation and point into the input or at its end.
pub fn convert_custom_error(input: &[u8], err: &CustomError) -> (message: Vec<u8>)
    requires
        err.offset <= input.len(),
        err.expected.len() > 0,
    ensures
        message@ == diagnostic(input@, err@.offset, err@.expected[0]),
{
    let mut message: Vec<u8> = Vec::new();
    if input.len() == 0 {
        return message;
    }
    let offset = err.offset;
    let line_number = newlines_before(input, offset) as u128 + 1;
    let begin = find_line_begin(input, offset);
    let end = trim_end(input, begin, find_line_end(input, begin));
    append_bytes(&mut message, literal("err: at line ").as_slice());
    push_decimal(&mut message, line_number);
    append_bytes(&mut message, literal(":\n").as_slice());
    let ghost head = message@;
    let mut i: usize = begin;
    while i < end
        invariant
            begin <= i <= end <= input.len(),
            message@ == head + input@.subrange(begin as int, i as int),
        decreases end - i,
    {
        message.push(input[i]);
        i += 1;
        assert(message@ =~= head + input@.subrange(begin as int, i as int));
    }
    append_bytes(&mut message, literal("\n").as_slice());
    push_spaces(&mut message, offset - begin);
    append_bytes(&mut message, literal("^\nexpected '").as_slice());
    append_bytes(&mut message, err.expected[0].as_slice());
    append_bytes(&mut message, literal("'\n\n").as_slice());
    assert(message@ =~= diagnostic(input@, err@.offset, err@.expected[0]));
    message
}

} // verus!
