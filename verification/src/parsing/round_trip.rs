//! Reading back what was written: the text of a tree parses as that tree.

use vstd::prelude::*;
use crate::ast::{BinaryOp, BlockTree, ExprTree, StmtTree, ValueTree};
use crate::key_defs::{Key, KeyModifierFlags, ParsedKeyAction, ParsedSingleKey};
use crate::parsing::error::Failure;
use crate::parsing::expression::{
    spec_arguments, spec_assigned, spec_atom, spec_expr, spec_expr_3, spec_expr_4, spec_fold,
    spec_function_call, spec_group, spec_level, spec_more_arguments, spec_operand, spec_operator,
    spec_variable, spec_variable_assignment, spec_variable_initialization, ADDITIVE,
    MULTIPLICATIVE, RELATIONAL,
};
use crate::parsing::key::{
    click, is_capital, is_modifier, spec_key, spec_key_action_with_flags, spec_key_mapping_inline,
    spec_modifiers, with_modifier,
};
use crate::parsing::primitives::{
    digits_end, digits_end_bounds, ident_end, ident_end_bounds, is_ident_char, is_ident_start,
    is_reserved, is_space, number_end, or_else, quote_at, quote_at_bounds, skip_spaces,
    spec_boolean, spec_ident, spec_number, spec_string, spec_tag, spec_ws1, word_at,
};
use crate::parsing::tokens::{
    alt_token, and_token, assign_token, close_brace_token, close_token, colons_token, comma_token,
    ctrl_token, equal_token, false_token, greater_token, if_open_token, if_token, less_token,
    let_space_token, let_token, meta_token, minus_token, negation_token, open_brace_token,
    open_token, or_token, plus_token, quote_token, semicolon_token, slash_token, star_token,
    true_token, unequal_token,
};
use crate::parsing::render::{
    is_simple, operator_text, render_action, render_arguments, render_block, render_expr,
    render_key_name, render_modifiers, render_operand, render_script, render_statements,
    render_stmt, render_value,
};
use crate::parsing::{
    spec_block, spec_block_body, spec_block_stmt, spec_expr_stmt, spec_global_block, spec_if_stmt,
    spec_more_statements, spec_script, spec_stmt,
};
use crate::registry::{is_key_word, resolved_key_has_a_name, written_name_resolves, KeyTable};
use crate::text::{is_digit, is_lower, is_upper, starts_with_at, upper, upper_seq, utf8};

verus! {

/// A name as the grammar reads one: an identifier from its first to its last
/// character, and no reserved word.
pub open spec fn is_name(name: Seq<u8>) -> bool {
    &&& name.len() > 0
    &&& is_ident_start(name[0])
    &&& forall|i: int| 0 <= i < name.len() ==> is_ident_char(name[i])
    &&& !is_reserved(name)
}

/// The text of a number as the grammar reads one: digits, or digits, a
/// point and digits.
pub open spec fn is_number_text(text: Seq<u8>) -> bool {
    text.len() > 0 && is_digit(text[0]) && number_end(text, 0) == text.len()
}

/// The text of a string as the grammar reads one: without `"`.
pub open spec fn is_string_text(text: Seq<u8>) -> bool {
    forall|i: int| 0 <= i < text.len() ==> text[i] != 34
}

/// A key action that can be written: the registry has a name for its key.
pub open spec fn readable_action(action: ParsedKeyAction, table: KeyTable) -> bool {
    match action {
        ParsedKeyAction::KeyClickAction(click) => table.name_of(click.key.code) is Some,
    }
}

/// A literal that the grammar can give.
pub open spec fn readable_value(value: ValueTree) -> bool {
    match value {
        ValueTree::Bool(_) => true,
        ValueTree::Number(text) => is_number_text(text),
        ValueTree::String(text) => is_string_text(text),
    }
}

/// An expression that the grammar can give: its names are names, its
/// literals are what the grammar reads as literals, its keys have names in
/// the registry, and it holds no lambda, for which the grammar has no rule.
pub open spec fn readable_expr(e: ExprTree, table: KeyTable) -> bool
    decreases e,
{
    match e {
        ExprTree::Value(value) => readable_value(value),
        ExprTree::Binary(_, left, right) => readable_expr(*left, table) && readable_expr(
            *right,
            table,
        ),
        ExprTree::Neg(inner) => readable_expr(*inner, table),
        ExprTree::VariableInit(name, value) => is_name(name) && readable_expr(*value, table),
        ExprTree::VariableAssign(name, value) => is_name(name) && readable_expr(*value, table),
        ExprTree::FunctionCall(name, arguments) => is_name(name) && forall|i: int|
            0 <= i < arguments.len() ==> readable_expr(#[trigger] arguments[i], table),
        ExprTree::KeyMappingInline(from, to) => readable_action(from, table) && readable_action(
            to,
            table,
        ),
        ExprTree::Lambda(_) => false,
        ExprTree::Variable(name) => is_name(name),
    }
}

/// Whether every expression of a list is one that the grammar can give.
pub open spec fn readable_exprs(list: Seq<ExprTree>, table: KeyTable) -> bool {
    forall|i: int| 0 <= i < list.len() ==> readable_expr(#[trigger] list[i], table)
}

/// Whether every statement of a list is one that the grammar can give.
pub open spec fn readable_stmts(list: Seq<StmtTree>, table: KeyTable) -> bool {
    forall|i: int| 0 <= i < list.len() ==> readable_stmt(#[trigger] list[i], table)
}

/// A statement that the grammar can give.
pub open spec fn readable_stmt(statement: StmtTree, table: KeyTable) -> bool
    decreases statement,
{
    match statement {
        StmtTree::Expr(e) => readable_expr(e, table),
        StmtTree::If(condition, body) => readable_expr(condition, table) && readable_block(
            body,
            table,
        ),
        StmtTree::Block(body) => readable_block(body, table),
    }
}

/// A block that the grammar can give.
pub open spec fn readable_block(block: BlockTree, table: KeyTable) -> bool
    decreases block,
{
    forall|i: int|
        0 <= i < block.statements.len() ==> readable_stmt(#[trigger] block.statements[i], table)
}

/// An atom is what the first of its rules that matches gives.
proof fn atom_takes_the_first_match(s: Seq<u8>, pos: int, table: KeyTable)
    ensures
        spec_atom(s, pos, table) == or_else(
            or_else(
                or_else(
                    or_else(
                        or_else(
                            or_else(
                                or_else(
                                    or_else(spec_group(s, pos, table), spec_boolean(s, pos)),
                                    spec_string(s, pos),
                                ),
                                spec_number(s, pos),
                            ),
                            spec_variable_initialization(s, pos, table),
                        ),
                        spec_variable_assignment(s, pos, table),
                    ),
                    spec_function_call(s, pos, table),
                ),
                spec_key_mapping_inline(s, pos, table),
            ),
            spec_variable(s, pos),
        ),
{
}

/// A statement is what the first of its rules that matches gives.
proof fn stmt_takes_the_first_match(s: Seq<u8>, pos: int, table: KeyTable)
    ensures
        spec_stmt(s, pos, table) == or_else(
            or_else(spec_if_stmt(s, pos, table), spec_expr_stmt(s, pos, table)),
            spec_block_stmt(s, pos, table),
        ),
{
}

/// Whether `text` stands in `s` at `pos`, byte by byte.
pub open spec fn stands(s: Seq<u8>, pos: int, text: Seq<u8>) -> bool {
    &&& 0 <= pos
    &&& pos + text.len() <= s.len()
    &&& forall|i: int| 0 <= i < text.len() ==> s[pos + i] == text[i]
}

proof fn stands_is_starts_with(s: Seq<u8>, pos: int, text: Seq<u8>)
    ensures
        stands(s, pos, text) == starts_with_at(s, pos, text),
{
    if stands(s, pos, text) {
        assert(s.subrange(pos, pos + text.len()) =~= text);
    }
    if starts_with_at(s, pos, text) {
        assert forall|i: int| 0 <= i < text.len() implies s[pos + i] == text[i] by {
            assert(s.subrange(pos, pos + text.len())[i] == text[i]);
        }
    }
}

proof fn stands_parts(s: Seq<u8>, pos: int, a: Seq<u8>, b: Seq<u8>)
    requires
        stands(s, pos, a + b),
    ensures
        stands(s, pos, a),
        stands(s, pos + a.len(), b),
{
    assert forall|i: int| 0 <= i < a.len() implies s[pos + i] == a[i] by {
        assert((a + b)[i] == a[i]);
    }
    assert forall|i: int| 0 <= i < b.len() implies s[pos + a.len() + i] == b[i] by {
        assert((a + b)[a.len() + i] == b[i]);
    }
}

proof fn stands_three(s: Seq<u8>, pos: int, a: Seq<u8>, b: Seq<u8>, c: Seq<u8>)
    requires
        stands(s, pos, a + b + c),
    ensures
        stands(s, pos, a),
        stands(s, pos + a.len(), b),
        stands(s, pos + a.len() + b.len(), c),
        (a + b + c).len() == a.len() + b.len() + c.len(),
{
    stands_parts(s, pos, a + b, c);
    stands_parts(s, pos, a, b);
}

proof fn stands_four(s: Seq<u8>, pos: int, a: Seq<u8>, b: Seq<u8>, c: Seq<u8>, d: Seq<u8>)
    requires
        stands(s, pos, a + b + c + d),
    ensures
        stands(s, pos, a),
        stands(s, pos + a.len(), b),
        stands(s, pos + a.len() + b.len(), c),
        stands(s, pos + a.len() + b.len() + c.len(), d),
        (a + b + c + d).len() == a.len() + b.len() + c.len() + d.len(),
{
    stands_parts(s, pos, a + b + c, d);
    stands_three(s, pos, a, b, c);
}

proof fn skip_nothing(s: Seq<u8>, pos: int)
    requires
        pos >= s.len() || !is_space(s[pos]),
    ensures
        skip_spaces(s, pos) == pos,
{
}

proof fn ident_scans(s: Seq<u8>, pos: int, end: int)
    requires
        0 <= pos <= end <= s.len(),
        forall|i: int| pos <= i < end ==> is_ident_char(s[i]),
        end == s.len() || !is_ident_char(s[end]),
    ensures
        ident_end(s, pos) == end,
    decreases end - pos,
{
    if pos < end {
        ident_scans(s, pos + 1, end);
    }
}

proof fn quote_scans(s: Seq<u8>, pos: int, end: int)
    requires
        0 <= pos <= end < s.len(),
        forall|i: int| pos <= i < end ==> s[i] != 34,
        s[end] == 34,
    ensures
        quote_at(s, pos) == end,
    decreases end - pos,
{
    if pos < end {
        quote_scans(s, pos + 1, end);
    }
}

/// A name that stands at `pos` and ends there is read as an identifier.
proof fn name_is_read(s: Seq<u8>, pos: int, name: Seq<u8>)
    requires
        is_name(name),
        stands(s, pos, name),
        pos + name.len() == s.len() || !is_ident_char(s[pos + name.len()]),
    ensures
        spec_ident(s, pos) == Ok::<(int, Seq<u8>), Failure>((pos + name.len(), name)),
{
    assert(s[pos + 0] == name[0]);
    assert forall|i: int| pos + 1 <= i < pos + name.len() implies is_ident_char(s[i]) by {
        assert(s[pos + (i - pos)] == name[i - pos]);
    }
    ident_scans(s, pos + 1, pos + name.len());
    assert(s.subrange(pos, pos + name.len()) =~= name);
}

/// What may stand behind an expression: the end of the input, `)`, `,`
/// or `;`.
pub open spec fn closes(s: Seq<u8>, pos: int) -> bool {
    pos == s.len() || (0 <= pos < s.len() && (s[pos] == 41 || s[pos] == 44 || s[pos] == 59))
}

/// What may stand behind an atom without being read as a part of it.
spec fn after_atom(s: Seq<u8>, pos: int) -> bool {
    pos == s.len() || (0 <= pos < s.len() && !is_space(s[pos]) && !is_ident_char(s[pos]) && s[pos]
        != 46 && s[pos] != 40 && s[pos] != 58 && (s[pos] == 61 ==> pos + 1 < s.len() && s[pos
        + 1] == 61))
}

/// A byte with which no expression begins.
spec fn cannot_begin(b: u8) -> bool {
    !is_ident_start(b) && !is_digit(b) && b != 40 && b != 34 && !is_modifier(b) && b != 63
}

proof fn tag_needs_first_byte(s: Seq<u8>, pos: int, text: Seq<u8>)
    requires
        text.len() > 0,
        starts_with_at(s, pos, text),
    ensures
        pos < s.len(),
        s[pos] == text[0],
{
    stands_is_starts_with(s, pos, text);
    assert(s[pos + 0] == text[0]);
}

/// Where no expression can begin, every level of the grammar fails.
proof fn expression_fails(s: Seq<u8>, pos: int, table: KeyTable)
    requires
        0 <= pos <= s.len(),
        pos == s.len() || cannot_begin(s[pos]),
    ensures
        spec_atom(s, pos, table) is Err,
        spec_expr_4(s, pos, table) is Err,
        spec_expr_3(s, pos, table) is Err,
        spec_level(s, pos, table, MULTIPLICATIVE as int) is Err,
        spec_level(s, pos, table, ADDITIVE as int) is Err,
        spec_level(s, pos, table, RELATIONAL as int) is Err,
        spec_expr(s, pos, table) is Err,
{
    open_token();
    quote_token();
    negation_token();
    let_token();
    true_token();
    false_token();
    if starts_with_at(s, pos, utf8("(")) {
        tag_needs_first_byte(s, pos, utf8("("));
    }
    if starts_with_at(s, pos, utf8("true")) {
        tag_needs_first_byte(s, pos, utf8("true"));
    }
    if starts_with_at(s, pos, utf8("false")) {
        tag_needs_first_byte(s, pos, utf8("false"));
    }
    if starts_with_at(s, pos, utf8("\"")) {
        tag_needs_first_byte(s, pos, utf8("\""));
    }
    if starts_with_at(s, pos, utf8("let")) {
        tag_needs_first_byte(s, pos, utf8("let"));
    }
    if starts_with_at(s, pos, utf8("??")) {
        tag_needs_first_byte(s, pos, utf8("??"));
    }
    assert(spec_group(s, pos, table) is Err);
    assert(spec_boolean(s, pos) is Err);
    assert(spec_string(s, pos) is Err);
    assert(spec_number(s, pos) is Err);
    assert(spec_variable_initialization(s, pos, table) is Err);
    assert(spec_ident(s, pos) is Err);
    assert(spec_variable_assignment(s, pos, table) is Err);
    assert(spec_function_call(s, pos, table) is Err);
    assert(spec_modifiers(s, pos, KeyModifierFlags::none()) == Ok::<
        (int, KeyModifierFlags),
        Failure,
    >((pos, KeyModifierFlags::none())));
    assert(spec_key(s, pos, table) is Err);
    assert(spec_key_action_with_flags(s, pos, table) is Err);
    assert(spec_key_mapping_inline(s, pos, table) is Err);
    assert(spec_variable(s, pos) is Err);
    assert(spec_atom(s, pos, table) is Err);
    assert(spec_expr_4(s, pos, table) is Err);
    assert(spec_expr_3(s, pos, table) is Err);
    assert(spec_operand(s, pos, table, MULTIPLICATIVE as int) is Err);
    assert(spec_level(s, pos, table, MULTIPLICATIVE as int) is Err);
    assert(spec_operand(s, pos, table, ADDITIVE as int) is Err);
    assert(spec_level(s, pos, table, ADDITIVE as int) is Err);
    assert(spec_operand(s, pos, table, RELATIONAL as int) is Err);
    assert(spec_level(s, pos, table, RELATIONAL as int) is Err);
    atom_takes_the_first_match(s, pos, table);
}

/// The level at which an operator is read.
pub open spec fn operator_level(op: BinaryOp) -> int {
    match op {
        BinaryOp::Mul | BinaryOp::Div => MULTIPLICATIVE as int,
        BinaryOp::Add | BinaryOp::Sub => ADDITIVE as int,
        _ => RELATIONAL as int,
    }
}

/// An operator that stands at `pos` is read there at its level, and no
/// operator is read there at another level.
proof fn operator_is_read(s: Seq<u8>, pos: int, op: BinaryOp)
    requires
        stands(s, pos, operator_text(op)),
    ensures
        spec_operator(s, pos, operator_level(op)) == Some((pos + operator_text(op).len(), op)),
        forall|level: int|
            MULTIPLICATIVE <= level <= RELATIONAL && level != operator_level(op)
                ==> spec_operator(s, pos, level) is None,
        after_atom(s, pos),
        operator_text(op).len() > 0,
        pos + operator_text(op).len() <= s.len(),
{
    star_token();
    slash_token();
    plus_token();
    minus_token();
    less_token();
    greater_token();
    equal_token();
    unequal_token();
    and_token();
    or_token();
    stands_is_starts_with(s, pos, operator_text(op));
    assert(s[pos + 0] == operator_text(op)[0]);
    if operator_text(op).len() > 1 {
        assert(s[pos + 1] == operator_text(op)[1]);
    }
    first_bytes_of_operators(s, pos);
}

/// Each operator needs its first byte.
proof fn first_bytes_of_operators(s: Seq<u8>, pos: int)
    ensures
        starts_with_at(s, pos, utf8("*")) ==> pos < s.len() && s[pos] == 42,
        starts_with_at(s, pos, utf8("/")) ==> pos < s.len() && s[pos] == 47,
        starts_with_at(s, pos, utf8("+")) ==> pos < s.len() && s[pos] == 43,
        starts_with_at(s, pos, utf8("-")) ==> pos < s.len() && s[pos] == 45,
        starts_with_at(s, pos, utf8("==")) ==> pos < s.len() && s[pos] == 61,
        starts_with_at(s, pos, utf8("!=")) ==> pos < s.len() && s[pos] == 33,
        starts_with_at(s, pos, utf8("&&")) ==> pos < s.len() && s[pos] == 38,
        starts_with_at(s, pos, utf8("||")) ==> pos < s.len() && s[pos] == 124,
        starts_with_at(s, pos, utf8("<")) ==> pos < s.len() && s[pos] == 60,
        starts_with_at(s, pos, utf8(">")) ==> pos < s.len() && s[pos] == 62,
{
    star_token();
    slash_token();
    plus_token();
    minus_token();
    less_token();
    greater_token();
    equal_token();
    unequal_token();
    and_token();
    or_token();
    if starts_with_at(s, pos, utf8("*")) {
        tag_needs_first_byte(s, pos, utf8("*"));
    }
    if starts_with_at(s, pos, utf8("/")) {
        tag_needs_first_byte(s, pos, utf8("/"));
    }
    if starts_with_at(s, pos, utf8("+")) {
        tag_needs_first_byte(s, pos, utf8("+"));
    }
    if starts_with_at(s, pos, utf8("-")) {
        tag_needs_first_byte(s, pos, utf8("-"));
    }
    if starts_with_at(s, pos, utf8("==")) {
        tag_needs_first_byte(s, pos, utf8("=="));
    }
    if starts_with_at(s, pos, utf8("!=")) {
        tag_needs_first_byte(s, pos, utf8("!="));
    }
    if starts_with_at(s, pos, utf8("&&")) {
        tag_needs_first_byte(s, pos, utf8("&&"));
    }
    if starts_with_at(s, pos, utf8("||")) {
        tag_needs_first_byte(s, pos, utf8("||"));
    }
    if starts_with_at(s, pos, utf8("<")) {
        tag_needs_first_byte(s, pos, utf8("<"));
    }
    if starts_with_at(s, pos, utf8(">")) {
        tag_needs_first_byte(s, pos, utf8(">"));
    }
}

/// Behind an expression no operator is read.
proof fn no_operator_where_it_closes(s: Seq<u8>, pos: int)
    requires
        closes(s, pos),
    ensures
        forall|level: int| spec_operator(s, pos, level) is None,
        after_atom(s, pos),
        skip_spaces(s, pos) == pos,
{
    first_bytes_of_operators(s, pos);
}

/// What a level gave stays what the looser levels give, as long as none of
/// their operators follows.
proof fn climbs(s: Seq<u8>, pos: int, table: KeyTable, from: int, to: int, end: int, e: ExprTree)
    requires
        MULTIPLICATIVE <= from <= to <= RELATIONAL,
        spec_operand(s, pos, table, from) == Ok::<(int, ExprTree), Failure>((end, e)),
        pos <= end <= s.len(),
        forall|level: int| from <= level <= to ==> spec_operator(s, skip_spaces(s, end), level) is None,
    ensures
        spec_level(s, pos, table, to) == Ok::<(int, ExprTree), Failure>((end, e)),
    decreases to - from,
{
    assert(spec_fold(s, end, table, from, e) == (end, e));
    assert(spec_level(s, pos, table, from) == Ok::<(int, ExprTree), Failure>((end, e)));
    if from < to {
        assert(spec_operand(s, pos, table, from + 1) == spec_level(s, pos, table, from));
        climbs(s, pos, table, from + 1, to, end, e);
    }
}

/// Whether the rule for the operands of a level gives `e` and stops at `end`.
spec fn operand_gives(s: Seq<u8>, pos: int, table: KeyTable, level: int, end: int, e: ExprTree) -> bool {
    spec_operand(s, pos, table, level) == Ok::<(int, ExprTree), Failure>((end, e))
}

/// What the level of unary expressions gave is what every level gives,
/// where an expression closes behind it.
proof fn atom_is_expression(s: Seq<u8>, pos: int, table: KeyTable, end: int, e: ExprTree)
    requires
        spec_expr_3(s, pos, table) == Ok::<(int, ExprTree), Failure>((end, e)),
        pos <= end <= s.len(),
        closes(s, end),
    ensures
        spec_expr(s, pos, table) == Ok::<(int, ExprTree), Failure>((end, e)),
{
    no_operator_where_it_closes(s, end);
    climbs(s, pos, table, MULTIPLICATIVE as int, RELATIONAL as int, end, e);
}

/// Two operands with an operator between them are read as one node.
proof fn binary_is_read(
    s: Seq<u8>,
    pos: int,
    table: KeyTable,
    op: BinaryOp,
    left: ExprTree,
    right: ExprTree,
    at_op: int,
    end: int,
)
    requires
        spec_expr_3(s, pos, table) == Ok::<(int, ExprTree), Failure>((at_op, left)),
        0 <= pos < at_op,
        stands(s, at_op, operator_text(op)),
        spec_expr_3(s, at_op + operator_text(op).len(), table) == Ok::<(int, ExprTree), Failure>(
            (end, right),
        ),
        at_op + operator_text(op).len() < end <= s.len(),
        closes(s, end),
    ensures
        spec_expr(s, pos, table) == Ok::<(int, ExprTree), Failure>(
            (end, ExprTree::Binary(op, Box::new(left), Box::new(right))),
        ),
{
    let level = operator_level(op);
    let after = at_op + operator_text(op).len();
    let node = ExprTree::Binary(op, Box::new(left), Box::new(right));
    operator_is_read(s, at_op, op);
    no_operator_where_it_closes(s, end);
    skip_nothing(s, at_op);
    // The right operand begins an expression, so it does not begin with a space.
    if is_space(s[after]) {
        expression_fails(s, after, table);
    }
    skip_nothing(s, after);
    // The operands as the rule for the operands of the level gives them.
    if level > MULTIPLICATIVE {
        climbs(s, pos, table, MULTIPLICATIVE as int, level - 1, at_op, left);
        climbs(s, after, table, MULTIPLICATIVE as int, level - 1, end, right);
    }
    assert(operand_gives(s, pos, table, level, at_op, left));
    assert(operand_gives(s, after, table, level, end, right));
    assert(spec_fold(s, end, table, level, node) == (end, node));
    assert(spec_fold(s, at_op, table, level, left) == (end, node));
    assert(spec_level(s, pos, table, level) == Ok::<(int, ExprTree), Failure>((end, node)));
    if level < RELATIONAL {
        assert(spec_operand(s, pos, table, level + 1) == spec_level(s, pos, table, level));
        climbs(s, pos, table, level + 1, RELATIONAL as int, end, node);
    }
}

/// A word of the language that stands where a name stands is
/// shorter than the name: the name goes on behind it.
proof fn name_outgrows_word(s: Seq<u8>, pos: int, name: Seq<u8>, word: Seq<u8>)
    requires
        is_name(name),
        stands(s, pos, name),
        pos + name.len() == s.len() || !is_ident_char(s[pos + name.len()]),
        starts_with_at(s, pos, word),
        word.len() > 0,
        forall|i: int| 0 <= i < word.len() ==> is_ident_char(word[i]),
        name != word,
    ensures
        pos + word.len() < s.len(),
        is_ident_char(s[pos + word.len()]),
        word.len() < name.len(),
{
    stands_is_starts_with(s, pos, word);
    if name.len() < word.len() {
        assert(s[pos + name.len()] == word[name.len() as int]);
    } else if name.len() == word.len() {
        assert forall|i: int| 0 <= i < name.len() implies name[i] == word[i] by {
            assert(s[pos + i] == name[i]);
            assert(s[pos + i] == word[i]);
        }
        assert(name =~= word);
    } else {
        assert(s[pos + word.len()] == name[word.len() as int]);
    }
}

/// The words of the language are written in letters.
proof fn words_are_letters()
    ensures
        forall|i: int| 0 <= i < utf8("true").len() ==> is_ident_char(utf8("true")[i]),
        forall|i: int| 0 <= i < utf8("false").len() ==> is_ident_char(utf8("false")[i]),
        forall|i: int| 0 <= i < utf8("let").len() ==> is_ident_char(utf8("let")[i]),
        forall|i: int| 0 <= i < utf8("if").len() ==> is_ident_char(utf8("if")[i]),
{
    if_token();
    let_token();
    true_token();
    false_token();
}

/// Where a name stands, the rules that begin with a word of the language or
/// with a character that begins no name all fail.
proof fn name_is_no_literal(s: Seq<u8>, pos: int, table: KeyTable, name: Seq<u8>)
    requires
        is_name(name),
        stands(s, pos, name),
        pos + name.len() == s.len() || !is_ident_char(s[pos + name.len()]),
    ensures
        spec_group(s, pos, table) is Err,
        spec_boolean(s, pos) is Err,
        spec_string(s, pos) is Err,
        spec_number(s, pos) is Err,
        spec_variable_initialization(s, pos, table) is Err,
        !starts_with_at(s, pos, utf8("??")),
        !is_modifier(s[pos]),
        !is_space(s[pos]),
{
    open_token();
    quote_token();
    negation_token();
    let_token();
    true_token();
    false_token();
    words_are_letters();
    assert(s[pos + 0] == name[0]);
    if starts_with_at(s, pos, utf8("(")) {
        tag_needs_first_byte(s, pos, utf8("("));
    }
    if starts_with_at(s, pos, utf8("\"")) {
        tag_needs_first_byte(s, pos, utf8("\""));
    }
    if starts_with_at(s, pos, utf8("??")) {
        tag_needs_first_byte(s, pos, utf8("??"));
    }
    if starts_with_at(s, pos, utf8("true")) {
        name_outgrows_word(s, pos, name, utf8("true"));
    }
    if starts_with_at(s, pos, utf8("false")) {
        name_outgrows_word(s, pos, name, utf8("false"));
    }
    if starts_with_at(s, pos, utf8("let")) {
        name_outgrows_word(s, pos, name, utf8("let"));
        assert(spec_ws1(s, pos + 3) is Err);
    }
}

/// A variable is read where its name stands.
proof fn variable_is_read(s: Seq<u8>, pos: int, table: KeyTable, name: Seq<u8>)
    requires
        is_name(name),
        stands(s, pos, name),
        after_atom(s, pos + name.len()),
    ensures
        spec_atom(s, pos, table) == Ok::<(int, ExprTree), Failure>(
            (pos + name.len(), ExprTree::Variable(name)),
        ),
        !starts_with_at(s, pos, utf8("??")),
{
    let end = pos + name.len();
    open_token();
    assign_token();
    colons_token();
    name_is_no_literal(s, pos, table, name);
    name_is_read(s, pos, name);
    skip_nothing(s, end);
    if starts_with_at(s, end, utf8("=")) {
        tag_needs_first_byte(s, end, utf8("="));
        skip_nothing(s, end + 1);
        expression_fails(s, end + 1, table);
    }
    assert(spec_assigned(s, pos, end, table) is Err);
    assert(spec_variable_assignment(s, pos, table) is Err);
    if starts_with_at(s, end, utf8("(")) {
        tag_needs_first_byte(s, end, utf8("("));
    }
    assert(spec_function_call(s, pos, table) is Err);
    if starts_with_at(s, end, utf8("::")) {
        tag_needs_first_byte(s, end, utf8("::"));
    }
    assert(spec_modifiers(s, pos, KeyModifierFlags::none()) == Ok::<
        (int, KeyModifierFlags),
        Failure,
    >((pos, KeyModifierFlags::none())));
    assert(spec_key_mapping_inline(s, pos, table) is Err);
    assert(spec_variable(s, pos) == Ok::<(int, ExprTree), Failure>(
        (end, ExprTree::Variable(name)),
    ));
    atom_takes_the_first_match(s, pos, table);
}

/// The rules that begin with a fixed character match only where it stands.
proof fn rules_need_their_first_byte(s: Seq<u8>, pos: int, table: KeyTable)
    ensures
        spec_group(s, pos, table) is Ok ==> 0 <= pos < s.len() && s[pos] == 40,
        spec_boolean(s, pos) is Ok ==> 0 <= pos < s.len() && (s[pos] == 116 || s[pos] == 102),
        spec_string(s, pos) is Ok ==> 0 <= pos < s.len() && s[pos] == 34,
        spec_number(s, pos) is Ok ==> 0 <= pos < s.len() && is_digit(s[pos]),
        spec_variable_initialization(s, pos, table) is Ok ==> 0 <= pos < s.len() && s[pos] == 108,
        starts_with_at(s, pos, utf8("??")) ==> 0 <= pos < s.len() && s[pos] == 63,
{
    open_token();
    quote_token();
    negation_token();
    let_token();
    true_token();
    false_token();
    if starts_with_at(s, pos, utf8("(")) {
        tag_needs_first_byte(s, pos, utf8("("));
    }
    if starts_with_at(s, pos, utf8("true")) {
        tag_needs_first_byte(s, pos, utf8("true"));
    }
    if starts_with_at(s, pos, utf8("false")) {
        tag_needs_first_byte(s, pos, utf8("false"));
    }
    if starts_with_at(s, pos, utf8("\"")) {
        tag_needs_first_byte(s, pos, utf8("\""));
    }
    if starts_with_at(s, pos, utf8("let")) {
        tag_needs_first_byte(s, pos, utf8("let"));
    }
    if starts_with_at(s, pos, utf8("??")) {
        tag_needs_first_byte(s, pos, utf8("??"));
    }
}

/// A boolean is read where its word stands.
proof fn boolean_is_read(s: Seq<u8>, pos: int, table: KeyTable, b: bool)
    requires
        stands(s, pos, render_value(ValueTree::Bool(b))),
        after_atom(s, pos + render_value(ValueTree::Bool(b)).len()),
    ensures
        spec_atom(s, pos, table) == Ok::<(int, ExprTree), Failure>(
            (pos + render_value(ValueTree::Bool(b)).len(), ExprTree::Value(ValueTree::Bool(b))),
        ),
        render_value(ValueTree::Bool(b)).len() > 0,
        !starts_with_at(s, pos, utf8("??")),
{
    let text = render_value(ValueTree::Bool(b));
    assert(spec_boolean(s, pos) == Ok::<(int, ExprTree), Failure>(
        (pos + text.len(), ExprTree::Value(ValueTree::Bool(b))),
    ) && text.len() > 0 && (s[pos] == 116 || s[pos] == 102)) by {
        negation_token();
        true_token();
        false_token();
        stands_is_starts_with(s, pos, text);
        assert(s[pos + 0] == text[0]);
        if starts_with_at(s, pos, utf8("true")) {
            tag_needs_first_byte(s, pos, utf8("true"));
        }
    }
    rules_need_their_first_byte(s, pos, table);
    atom_takes_the_first_match(s, pos, table);
}

/// A number is read where its text stands.
proof fn number_is_read(s: Seq<u8>, pos: int, table: KeyTable, digits: Seq<u8>)
    requires
        is_number_text(digits),
        stands(s, pos, digits),
        after_atom(s, pos + digits.len()),
    ensures
        spec_atom(s, pos, table) == Ok::<(int, ExprTree), Failure>(
            (pos + digits.len(), ExprTree::Value(ValueTree::Number(digits))),
        ),
        !starts_with_at(s, pos, utf8("??")),
{
    assert(s[pos + 0] == digits[0]);
    number_is_scanned(s, pos, digits);
    assert(s.subrange(pos, pos + digits.len()) =~= digits);
    assert(spec_number(s, pos) == Ok::<(int, ExprTree), Failure>(
        (pos + digits.len(), ExprTree::Value(ValueTree::Number(digits))),
    ));
    rules_need_their_first_byte(s, pos, table);
    atom_takes_the_first_match(s, pos, table);
}

/// The parts of a string as it is written.
proof fn string_parts(s: Seq<u8>, pos: int, content: Seq<u8>)
    requires
        stands(s, pos, render_value(ValueTree::String(content))),
    ensures
        render_value(ValueTree::String(content)).len() == content.len() + 2,
        pos + content.len() + 2 <= s.len(),
        s[pos] == 34,
        stands(s, pos + 1, content),
        s[pos + 1 + content.len()] == 34,
{
    quote_token();
    stands_parts(s, pos, utf8("\"") + content, utf8("\""));
    stands_parts(s, pos, utf8("\""), content);
    assert(s[pos + 0] == 34);
    assert(s[pos + 1 + content.len() + 0] == 34);
}

/// The rule for strings reads a text without quotes between two quotes.
proof fn string_rule_reads(s: Seq<u8>, pos: int, content: Seq<u8>)
    requires
        is_string_text(content),
        0 <= pos,
        pos + content.len() + 2 <= s.len(),
        s[pos] == 34,
        stands(s, pos + 1, content),
        s[pos + 1 + content.len()] == 34,
    ensures
        spec_string(s, pos) == Ok::<(int, ExprTree), Failure>(
            (pos + content.len() + 2, ExprTree::Value(ValueTree::String(content))),
        ),
{
    assert(starts_with_at(s, pos, utf8("\""))) by {
        quote_token();
        assert(s.subrange(pos, pos + 1) =~= seq![34u8]);
    }
    assert forall|i: int| pos + 1 <= i < pos + 1 + content.len() implies s[i] != 34 by {
        assert(s[pos + 1 + (i - pos - 1)] == content[i - pos - 1]);
    }
    quote_scans(s, pos + 1, pos + 1 + content.len());
    assert(s.subrange(pos + 1, pos + 1 + content.len()) =~= content);
}

/// A string is read where it stands between its quotes.
proof fn string_is_read(s: Seq<u8>, pos: int, table: KeyTable, content: Seq<u8>)
    requires
        is_string_text(content),
        stands(s, pos, render_value(ValueTree::String(content))),
    ensures
        spec_atom(s, pos, table) == Ok::<(int, ExprTree), Failure>(
            (pos + content.len() + 2, ExprTree::Value(ValueTree::String(content))),
        ),
        render_value(ValueTree::String(content)).len() == content.len() + 2,
        !starts_with_at(s, pos, utf8("??")),
{
    string_parts(s, pos, content);
    string_rule_reads(s, pos, content);
    rules_need_their_first_byte(s, pos, table);
    atom_takes_the_first_match(s, pos, table);
}

/// A literal is read where its text stands.
proof fn value_is_read(s: Seq<u8>, pos: int, table: KeyTable, value: ValueTree)
    requires
        readable_value(value),
        stands(s, pos, render_value(value)),
        after_atom(s, pos + render_value(value).len()),
    ensures
        spec_atom(s, pos, table) == Ok::<(int, ExprTree), Failure>(
            (pos + render_value(value).len(), ExprTree::Value(value)),
        ),
        render_value(value).len() > 0,
        !starts_with_at(s, pos, utf8("??")),
{
    match value {
        ValueTree::Bool(b) => {
            boolean_is_read(s, pos, table, b);
        },
        ValueTree::Number(digits) => {
            number_is_read(s, pos, table, digits);
        },
        ValueTree::String(content) => {
            string_is_read(s, pos, table, content);
        },
    }
}

/// The digits of a text are the digits of the input where the text stands.
proof fn digits_end_in_text(s: Seq<u8>, pos: int, text: Seq<u8>, from: int)
    requires
        stands(s, pos, text),
        0 <= from <= text.len(),
        pos + text.len() == s.len() || !is_digit(s[pos + text.len()]),
    ensures
        digits_end(s, pos + from) == pos + digits_end(text, from),
        from <= digits_end(text, from) <= text.len(),
    decreases text.len() - from,
{
    if from < text.len() {
        assert(s[pos + from] == text[from]);
        if is_digit(text[from]) {
            digits_end_in_text(s, pos, text, from + 1);
        }
    }
}

/// A number is scanned to the end of its text.
proof fn number_is_scanned(s: Seq<u8>, pos: int, text: Seq<u8>)
    requires
        is_number_text(text),
        stands(s, pos, text),
        after_atom(s, pos + text.len()),
    ensures
        number_end(s, pos) == pos + text.len(),
{
    digits_end_in_text(s, pos, text, 0);
    let whole = digits_end(text, 0);
    if whole + 1 < text.len() && text[whole] == 46 && is_digit(text[whole + 1]) {
        assert(s[pos + whole] == text[whole]);
        assert(s[pos + (whole + 1)] == text[whole + 1]);
        digits_end_in_text(s, pos, text, whole + 1);
    } else {
        assert(whole == text.len());
    }
}

/// What was read as an atom is what the unary level gives, where nothing
/// behind the atom belongs to it.
proof fn atom_is_unary(s: Seq<u8>, pos: int, table: KeyTable, end: int, e: ExprTree)
    requires
        spec_atom(s, pos, table) == Ok::<(int, ExprTree), Failure>((end, e)),
        !starts_with_at(s, pos, utf8("??")),
        end == s.len() || (0 <= end < s.len() && !is_space(s[end])),
    ensures
        spec_expr_4(s, pos, table) == Ok::<(int, ExprTree), Failure>((end, e)),
        spec_expr_3(s, pos, table) == Ok::<(int, ExprTree), Failure>((end, e)),
{
    skip_nothing(s, end);
}

/// A token of one byte stands where its byte stands.
proof fn byte_is_token(s: Seq<u8>, pos: int, text: &str, b: u8)
    requires
        utf8(text).len() == 1,
        utf8(text)[0] == b,
        0 <= pos < s.len(),
        s[pos] == b,
    ensures
        starts_with_at(s, pos, utf8(text)),
        spec_tag(s, pos, text) == Ok::<int, Failure>(pos + 1),
{
    assert(s.subrange(pos, pos + 1) =~= utf8(text));
}

/// A token of one byte does not stand where another byte stands.
proof fn byte_is_no_token(s: Seq<u8>, pos: int, text: &str, b: u8)
    requires
        utf8(text).len() == 1,
        utf8(text)[0] == b,
        0 <= pos <= s.len(),
        pos == s.len() || s[pos] != b,
    ensures
        !starts_with_at(s, pos, utf8(text)),
        spec_tag(s, pos, text) is Err,
{
    if starts_with_at(s, pos, utf8(text)) {
        tag_needs_first_byte(s, pos, utf8(text));
    }
}

/// Where an expression is read, it does not begin with white space.
proof fn expression_begins_without_space(s: Seq<u8>, pos: int, table: KeyTable)
    requires
        0 <= pos <= s.len(),
        spec_expr(s, pos, table) is Ok || spec_expr_3(s, pos, table) is Ok,
    ensures
        pos < s.len(),
        !is_space(s[pos]),
        skip_spaces(s, pos) == pos,
{
    if pos == s.len() || is_space(s[pos]) {
        expression_fails(s, pos, table);
    }
}

/// An expression in parentheses is read as the expression.
proof fn group_is_read(s: Seq<u8>, pos: int, table: KeyTable, e: ExprTree, at_close: int)
    requires
        0 <= pos < s.len(),
        s[pos] == 40,
        spec_expr(s, pos + 1, table) == Ok::<(int, ExprTree), Failure>((at_close, e)),
        pos < at_close < s.len(),
        s[at_close] == 41,
    ensures
        spec_atom(s, pos, table) == Ok::<(int, ExprTree), Failure>((at_close + 1, e)),
        !starts_with_at(s, pos, utf8("??")),
{
    open_token();
    close_token();
    byte_is_token(s, pos, "(", 40);
    byte_is_token(s, at_close, ")", 41);
    assert(spec_group(s, pos, table) == Ok::<(int, ExprTree), Failure>((at_close + 1, e)));
    rules_need_their_first_byte(s, pos, table);
    atom_takes_the_first_match(s, pos, table);
}

/// The rule for calls reads a call where its name, `(`, its arguments and
/// `)` stand, and the rule for assignments fails there.
proof fn call_rule_reads(
    s: Seq<u8>,
    pos: int,
    table: KeyTable,
    name: Seq<u8>,
    arguments: Seq<ExprTree>,
    at_close: int,
)
    requires
        is_name(name),
        stands(s, pos, name),
        pos + name.len() + 1 <= at_close < s.len(),
        s[pos + name.len()] == 40,
        !is_space(s[pos + name.len() + 1]),
        spec_arguments(s, pos + name.len() + 1, table) == (at_close, arguments),
        s[at_close] == 41,
    ensures
        spec_variable_assignment(s, pos, table) is Err,
        spec_function_call(s, pos, table) == Ok::<(int, ExprTree), Failure>(
            (at_close + 1, ExprTree::FunctionCall(name, arguments)),
        ),
{
    let end = pos + name.len();
    name_is_read(s, pos, name);
    open_token();
    close_token();
    assign_token();
    skip_nothing(s, end);
    skip_nothing(s, end + 1);
    byte_is_no_token(s, end, "=", 61);
    assert(spec_assigned(s, pos, end, table) is Err);
    byte_is_token(s, end, "(", 40);
    byte_is_token(s, at_close, ")", 41);
}

/// A call is read where its name, `(`, its arguments and `)` stand.
proof fn call_is_read(
    s: Seq<u8>,
    pos: int,
    table: KeyTable,
    name: Seq<u8>,
    arguments: Seq<ExprTree>,
    at_close: int,
)
    requires
        is_name(name),
        stands(s, pos, name),
        pos + name.len() + 1 <= at_close < s.len(),
        s[pos + name.len()] == 40,
        !is_space(s[pos + name.len() + 1]),
        spec_arguments(s, pos + name.len() + 1, table) == (at_close, arguments),
        s[at_close] == 41,
    ensures
        spec_atom(s, pos, table) == Ok::<(int, ExprTree), Failure>(
            (at_close + 1, ExprTree::FunctionCall(name, arguments)),
        ),
        !starts_with_at(s, pos, utf8("??")),
{
    name_is_no_literal(s, pos, table, name);
    call_rule_reads(s, pos, table, name, arguments, at_close);
    atom_takes_the_first_match(s, pos, table);
}

/// `=` and a value behind it are read as the value of a declaration or of
/// an assignment.
proof fn value_is_assigned(
    s: Seq<u8>,
    from: int,
    at_sign: int,
    table: KeyTable,
    value: ExprTree,
    end: int,
)
    requires
        0 <= from <= at_sign < s.len(),
        s[at_sign] == 61,
        spec_expr(s, at_sign + 1, table) == Ok::<(int, ExprTree), Failure>((end, value)),
    ensures
        spec_assigned(s, from, at_sign, table) == Ok::<(int, ExprTree), Failure>((end, value)),
{
    assign_token();
    skip_nothing(s, at_sign);
    byte_is_token(s, at_sign, "=", 61);
    expression_begins_without_space(s, at_sign + 1, table);
}

/// The rule for assignments reads an assignment where its name, `=` and its
/// value stand.
proof fn assignment_rule_reads(
    s: Seq<u8>,
    pos: int,
    table: KeyTable,
    name: Seq<u8>,
    value: ExprTree,
    end: int,
)
    requires
        is_name(name),
        stands(s, pos, name),
        pos + name.len() + 1 <= end <= s.len(),
        s[pos + name.len()] == 61,
        spec_expr(s, pos + name.len() + 1, table) == Ok::<(int, ExprTree), Failure>((end, value)),
    ensures
        spec_variable_assignment(s, pos, table) == Ok::<(int, ExprTree), Failure>(
            (end, ExprTree::VariableAssign(name, Box::new(value))),
        ),
{
    name_is_read(s, pos, name);
    value_is_assigned(s, pos, pos + name.len(), table, value, end);
}

/// An assignment is read where its name, `=` and its value stand.
proof fn assignment_is_read(
    s: Seq<u8>,
    pos: int,
    table: KeyTable,
    name: Seq<u8>,
    value: ExprTree,
    end: int,
)
    requires
        is_name(name),
        stands(s, pos, name),
        pos + name.len() + 1 <= end <= s.len(),
        s[pos + name.len()] == 61,
        spec_expr(s, pos + name.len() + 1, table) == Ok::<(int, ExprTree), Failure>((end, value)),
    ensures
        spec_atom(s, pos, table) == Ok::<(int, ExprTree), Failure>(
            (end, ExprTree::VariableAssign(name, Box::new(value))),
        ),
        !starts_with_at(s, pos, utf8("??")),
{
    name_is_no_literal(s, pos, table, name);
    assignment_rule_reads(s, pos, table, name, value, end);
    atom_takes_the_first_match(s, pos, table);
}

/// `let` and the white space behind it are read where `let `, and then no
/// more white space, stands.
proof fn let_is_read(s: Seq<u8>, pos: int)
    requires
        stands(s, pos, utf8("let ")),
        pos + 4 < s.len(),
        !is_space(s[pos + 4]),
    ensures
        spec_tag(s, pos, "let") == Ok::<int, Failure>(pos + 3),
        spec_ws1(s, pos + 3) == Ok::<int, Failure>(pos + 4),
        s[pos] == 108,
{
    let_space_token();
    let_token();
    assert(s[pos + 0] == 108 && s[pos + 1] == 101 && s[pos + 2] == 116 && s[pos + 3] == 32);
    assert(s.subrange(pos, pos + 3) =~= utf8("let"));
    skip_nothing(s, pos + 4);
    assert(skip_spaces(s, pos + 3) == pos + 4);
}

/// The rule for declarations reads a declaration where `let`, its name, `=`
/// and its value stand.
proof fn declaration_rule_reads(
    s: Seq<u8>,
    pos: int,
    table: KeyTable,
    name: Seq<u8>,
    value: ExprTree,
    end: int,
)
    requires
        stands(s, pos, utf8("let ")),
        is_name(name),
        stands(s, pos + 4, name),
        pos + 4 + name.len() + 1 <= end <= s.len(),
        s[pos + 4 + name.len()] == 61,
        spec_expr(s, pos + 4 + name.len() + 1, table) == Ok::<(int, ExprTree), Failure>(
            (end, value),
        ),
    ensures
        spec_variable_initialization(s, pos, table) == Ok::<(int, ExprTree), Failure>(
            (end, ExprTree::VariableInit(name, Box::new(value))),
        ),
        s[pos] == 108,
{
    assert(s[pos + 4 + 0] == name[0]);
    let_is_read(s, pos);
    name_is_read(s, pos + 4, name);
    value_is_assigned(s, pos, pos + 4 + name.len(), table, value, end);
}

/// A declaration is read where `let`, its name, `=` and its value stand.
proof fn declaration_is_read(
    s: Seq<u8>,
    pos: int,
    table: KeyTable,
    name: Seq<u8>,
    value: ExprTree,
    end: int,
)
    requires
        stands(s, pos, utf8("let ")),
        is_name(name),
        stands(s, pos + 4, name),
        pos + 4 + name.len() + 1 <= end <= s.len(),
        s[pos + 4 + name.len()] == 61,
        spec_expr(s, pos + 4 + name.len() + 1, table) == Ok::<(int, ExprTree), Failure>(
            (end, value),
        ),
    ensures
        spec_atom(s, pos, table) == Ok::<(int, ExprTree), Failure>(
            (end, ExprTree::VariableInit(name, Box::new(value))),
        ),
        !starts_with_at(s, pos, utf8("??")),
{
    declaration_rule_reads(s, pos, table, name, value, end);
    rules_need_their_first_byte(s, pos, table);
    atom_takes_the_first_match(s, pos, table);
}

/// The reserved words begin with a small letter and have more than one.
proof fn reserved_words_are_small(word: Seq<u8>)
    requires
        is_reserved(word),
    ensures
        word.len() >= 2,
        is_lower(word[0]),
{
    if_token();
    let_token();
    true_token();
    false_token();
}

/// The name of a key as it is written is a name, which leads back to
/// the key word and does not ask for shift.
proof fn key_text_is_name(word: Seq<u8>)
    requires
        is_key_word(word),
    ensures
        is_name(render_key_name(word)),
        upper_seq(render_key_name(word)) == word,
        !is_capital(render_key_name(word)),
        render_key_name(word).len() == word.len(),
{
    let text = render_key_name(word);
    if is_reserved(text) {
        reserved_words_are_small(text);
    }
    assert(upper_seq(text) =~= word);
}

/// The prefix of a set of modifiers is read as that set.
proof fn modifiers_are_read(s: Seq<u8>, pos: int, flags: KeyModifierFlags)
    requires
        stands(s, pos, render_modifiers(flags)),
        pos + render_modifiers(flags).len() == s.len() || !is_modifier(
            s[pos + render_modifiers(flags).len()],
        ),
    ensures
        spec_modifiers(s, pos, KeyModifierFlags::none()) == Ok::<(int, KeyModifierFlags), Failure>(
            (pos + render_modifiers(flags).len(), flags),
        ),
        render_modifiers(flags).len() > 0 ==> is_modifier(s[pos]),
{
    alt_token();
    ctrl_token();
    plus_token();
    meta_token();
    let none = KeyModifierFlags::none();
    let a: Seq<u8> = if flags.alt { utf8("!") } else { Seq::empty() };
    let c: Seq<u8> = if flags.ctrl { utf8("^") } else { Seq::empty() };
    let h: Seq<u8> = if flags.shift { utf8("+") } else { Seq::empty() };
    let m: Seq<u8> = if flags.meta { utf8("#") } else { Seq::empty() };
    assert(render_modifiers(flags) == a + c + h + m);
    stands_parts(s, pos, a + c + h, m);
    stands_parts(s, pos, a + c, h);
    stands_parts(s, pos, a, c);
    let at_ctrl = pos + a.len();
    let at_shift = at_ctrl + c.len();
    let at_meta = at_shift + h.len();
    let end = at_meta + m.len();
    let with_alt = KeyModifierFlags { alt: flags.alt, ..none };
    let with_ctrl = KeyModifierFlags { ctrl: flags.ctrl, ..with_alt };
    let with_shift = KeyModifierFlags { shift: flags.shift, ..with_ctrl };
    assert(with_shift == KeyModifierFlags { meta: false, ..flags });
    if flags.alt {
        assert(s[pos + 0] == a[0]);
    }
    if flags.ctrl {
        assert(s[at_ctrl + 0] == c[0]);
    }
    if flags.shift {
        assert(s[at_shift + 0] == h[0]);
    }
    if flags.meta {
        assert(s[at_meta + 0] == m[0]);
    }
    // From the last modifier back to the first.
    assert(spec_modifiers(s, end, flags) == Ok::<(int, KeyModifierFlags), Failure>((end, flags)));
    assert(spec_modifiers(s, at_meta, with_shift) == Ok::<(int, KeyModifierFlags), Failure>((end, flags)));
    assert(spec_modifiers(s, at_shift, with_ctrl) == Ok::<(int, KeyModifierFlags), Failure>((end, flags))) by {
        if flags.shift {
            assert(with_modifier(with_ctrl, 43) == with_shift);
        } else if at_shift < s.len() && is_modifier(s[at_shift]) {
            assert(flags.meta);
            assert(with_modifier(with_ctrl, 35) == KeyModifierFlags { meta: true, ..with_shift });
        }
    }
    assert(spec_modifiers(s, at_ctrl, with_alt) == Ok::<(int, KeyModifierFlags), Failure>((end, flags))) by {
        if flags.ctrl {
            assert(with_modifier(with_alt, 94) == with_ctrl);
        }
    }
    assert(spec_modifiers(s, pos, none) == Ok::<(int, KeyModifierFlags), Failure>((end, flags))) by {
        if flags.alt {
            assert(with_modifier(none, 33) == with_alt);
        }
    }
}

/// The name of a key is read as the key, and not as a capital one.
proof fn key_is_read(s: Seq<u8>, pos: int, table: KeyTable, code: u16)
    requires
        table.name_of(code) is Some,
        stands(s, pos, render_key_name(table.name_of(code)->0)),
        pos + render_key_name(table.name_of(code)->0).len() == s.len() || !is_ident_char(
            s[pos + render_key_name(table.name_of(code)->0).len()],
        ),
    ensures
        spec_key(s, pos, table) == Ok::<(int, ParsedSingleKey), Failure>(
            (
                pos + render_key_name(table.name_of(code)->0).len(),
                ParsedSingleKey::Key(Key { code }),
            ),
        ),
        is_name(render_key_name(table.name_of(code)->0)),
{
    let word = table.name_of(code)->0;
    written_name_resolves(table, code);
    key_text_is_name(word);
    name_is_read(s, pos, render_key_name(word));
}

/// A key action is read where its text stands.
proof fn action_is_read(s: Seq<u8>, pos: int, table: KeyTable, action: ParsedKeyAction)
    requires
        readable_action(action, table),
        stands(s, pos, render_action(action, table)),
        pos + render_action(action, table).len() == s.len() || !is_ident_char(
            s[pos + render_action(action, table).len()],
        ),
    ensures
        spec_key_action_with_flags(s, pos, table) == Ok::<(int, ParsedKeyAction), Failure>(
            (pos + render_action(action, table).len(), action),
        ),
        render_action(action, table).len() > 0,
        is_modifier(s[pos]) || (action->0.modifiers == KeyModifierFlags::none() && stands(
            s,
            pos,
            render_key_name(table.name_of(action->0.key.code)->0),
        )),
{
    let press = action->0;
    let prefix = render_modifiers(press.modifiers);
    let text = render_key_name(table.name_of(press.key.code)->0);
    written_name_resolves(table, press.key.code);
    key_text_is_name(table.name_of(press.key.code)->0);
    stands_parts(s, pos, prefix, text);
    assert(s[pos + prefix.len() + 0] == text[0]);
    modifiers_are_read(s, pos, press.modifiers);
    key_is_read(s, pos + prefix.len(), table, press.key.code);
    if prefix.len() == 0 {
        alt_token();
        ctrl_token();
        plus_token();
        meta_token();
    }
}

/// The rule for key mappings reads a key mapping where its text stands.
proof fn mapping_rule_reads(
    s: Seq<u8>,
    pos: int,
    table: KeyTable,
    from: ParsedKeyAction,
    to: ParsedKeyAction,
)
    requires
        readable_action(from, table),
        readable_action(to, table),
        stands(s, pos, render_action(from, table)),
        stands(s, pos + render_action(from, table).len(), utf8("::")),
        stands(s, pos + render_action(from, table).len() + 2, render_action(to, table)),
        after_atom(s, pos + render_action(from, table).len() + 2 + render_action(to, table).len()),
    ensures
        spec_key_mapping_inline(s, pos, table) == Ok::<(int, ExprTree), Failure>(
            (
                pos + render_action(from, table).len() + 2 + render_action(to, table).len(),
                ExprTree::KeyMappingInline(from, to),
            ),
        ),
        s[pos + render_action(from, table).len()] == 58,
{
    let at_colons = pos + render_action(from, table).len();
    colons_token();
    assert(s[at_colons + 0] == 58);
    action_is_read(s, pos, table, from);
    action_is_read(s, at_colons + 2, table, to);
    stands_is_starts_with(s, at_colons, utf8("::"));
}

/// Where a key action stands in front of `::`, the rules that are tried
/// before the one for key mappings fail.
proof fn mapping_is_tried(s: Seq<u8>, pos: int, table: KeyTable, from: ParsedKeyAction)
    requires
        readable_action(from, table),
        stands(s, pos, render_action(from, table)),
        pos + render_action(from, table).len() < s.len(),
        s[pos + render_action(from, table).len()] == 58,
    ensures
        spec_group(s, pos, table) is Err,
        spec_boolean(s, pos) is Err,
        spec_string(s, pos) is Err,
        spec_number(s, pos) is Err,
        spec_variable_initialization(s, pos, table) is Err,
        spec_variable_assignment(s, pos, table) is Err,
        spec_function_call(s, pos, table) is Err,
        !starts_with_at(s, pos, utf8("??")),
{
    let at_colons = pos + render_action(from, table).len();
    action_is_read(s, pos, table, from);
    if is_modifier(s[pos]) {
        rules_need_their_first_byte(s, pos, table);
        assert(spec_ident(s, pos) is Err);
    } else {
        let text = render_key_name(table.name_of(from->0.key.code)->0);
        written_name_resolves(table, from->0.key.code);
        key_text_is_name(table.name_of(from->0.key.code)->0);
        assert(render_action(from, table) =~= text) by {
            assert(render_modifiers(KeyModifierFlags::none()) =~= Seq::<u8>::empty());
        }
        name_is_no_literal(s, pos, table, text);
        name_is_read(s, pos, text);
        assign_token();
        open_token();
        skip_nothing(s, at_colons);
        byte_is_no_token(s, at_colons, "=", 61);
        byte_is_no_token(s, at_colons, "(", 40);
        assert(spec_assigned(s, pos, at_colons, table) is Err);
    }
}

/// A key mapping is read where its text stands.
proof fn mapping_is_read(
    s: Seq<u8>,
    pos: int,
    table: KeyTable,
    from: ParsedKeyAction,
    to: ParsedKeyAction,
)
    requires
        readable_action(from, table),
        readable_action(to, table),
        stands(s, pos, render_expr(ExprTree::KeyMappingInline(from, to), table)),
        after_atom(s, pos + render_expr(ExprTree::KeyMappingInline(from, to), table).len()),
    ensures
        spec_atom(s, pos, table) == Ok::<(int, ExprTree), Failure>(
            (
                pos + render_expr(ExprTree::KeyMappingInline(from, to), table).len(),
                ExprTree::KeyMappingInline(from, to),
            ),
        ),
        render_expr(ExprTree::KeyMappingInline(from, to), table).len() > 0,
        !starts_with_at(s, pos, utf8("??")),
{
    colons_token();
    stands_three(s, pos, render_action(from, table), utf8("::"), render_action(to, table));
    mapping_rule_reads(s, pos, table, from, to);
    mapping_is_tried(s, pos, table, from);
    atom_takes_the_first_match(s, pos, table);
}

/// The arguments from the one at `from` on, each with `,` in front of it.
spec fn render_more(arguments: Seq<ExprTree>, table: KeyTable, from: int) -> Seq<u8>
    decreases arguments.len() - from,
{
    if from < 0 || from >= arguments.len() {
        Seq::empty()
    } else {
        utf8(",") + render_expr(arguments[from], table) + render_more(arguments, table, from + 1)
    }
}

proof fn arguments_split(arguments: Seq<ExprTree>, table: KeyTable, from: int)
    requires
        0 <= from < arguments.len(),
    ensures
        render_arguments(arguments, table, from) == render_expr(arguments[from], table)
            + render_more(arguments, table, from + 1),
    decreases arguments.len() - from,
{
    if from == arguments.len() - 1 {
        assert(render_more(arguments, table, from + 1) =~= Seq::<u8>::empty());
        assert(render_arguments(arguments, table, from) =~= render_expr(arguments[from], table)
            + render_more(arguments, table, from + 1));
    } else {
        arguments_split(arguments, table, from + 1);
        assert(render_arguments(arguments, table, from) =~= render_expr(arguments[from], table)
            + render_more(arguments, table, from + 1));
    }
}

/// A call is read as an atom where its text stands.
proof fn call_expr_is_read(e: ExprTree, s: Seq<u8>, pos: int, table: KeyTable)
    requires
        e is FunctionCall,
        readable_expr(e, table),
        stands(s, pos, render_expr(e, table)),
    ensures
        spec_atom(s, pos, table) == Ok::<(int, ExprTree), Failure>(
            (pos + render_expr(e, table).len(), e),
        ),
        render_expr(e, table).len() > 0,
        !starts_with_at(s, pos, utf8("??")),
    decreases e, 0int,
{
    match e {
        ExprTree::FunctionCall(name, arguments) => {
            let list = render_arguments(arguments, table, 0);
            open_token();
            close_token();
            stands_four(s, pos, name, utf8("("), list, utf8(")"));
            let at_list = pos + name.len() + 1;
            assert(s[pos + name.len() + 0] == 40);
            assert(s[at_list + list.len() + 0] == 41);
            arguments_are_read(arguments, s, at_list, table);
            call_is_read(s, pos, table, name, arguments, at_list + list.len());
        },
        _ => {},
    }
}

/// A literal, a variable, a call or a key mapping is read as an atom.
proof fn simple_is_read(e: ExprTree, s: Seq<u8>, pos: int, table: KeyTable)
    requires
        is_simple(e),
        readable_expr(e, table),
        stands(s, pos, render_expr(e, table)),
        after_atom(s, pos + render_expr(e, table).len()),
    ensures
        spec_atom(s, pos, table) == Ok::<(int, ExprTree), Failure>(
            (pos + render_expr(e, table).len(), e),
        ),
        render_expr(e, table).len() > 0,
        !starts_with_at(s, pos, utf8("??")),
    decreases e, 1int,
{
    match e {
        ExprTree::Value(value) => {
            value_is_read(s, pos, table, value);
        },
        ExprTree::Variable(name) => {
            variable_is_read(s, pos, table, name);
        },
        ExprTree::KeyMappingInline(from, to) => {
            mapping_is_read(s, pos, table, from, to);
        },
        ExprTree::FunctionCall(_, _) => {
            call_expr_is_read(e, s, pos, table);
        },
        _ => {},
    }
}

/// The arguments of a call are read where they stand in front of `)`.
proof fn arguments_are_read(arguments: Seq<ExprTree>, s: Seq<u8>, pos: int, table: KeyTable)
    requires
        forall|i: int| 0 <= i < arguments.len() ==> readable_expr(#[trigger] arguments[i], table),
        stands(s, pos, render_arguments(arguments, table, 0)),
        pos + render_arguments(arguments, table, 0).len() < s.len(),
        s[pos + render_arguments(arguments, table, 0).len()] == 41,
    ensures
        spec_arguments(s, pos, table) == (
            pos + render_arguments(arguments, table, 0).len(),
            arguments,
        ),
        !is_space(s[pos]),
    decreases arguments, arguments.len() + 1,
{
    if arguments.len() == 0 {
        expression_fails(s, pos, table);
        assert(arguments =~= Seq::<ExprTree>::empty());
    } else {
        let first = render_expr(arguments[0], table);
        let rest = render_more(arguments, table, 1);
        arguments_split(arguments, table, 0);
        stands_parts(s, pos, first, rest);
        let at_rest = pos + first.len();
        comma_token();
        if arguments.len() == 1 {
            assert(rest =~= Seq::<u8>::empty());
        } else {
            assert(rest == utf8(",") + render_expr(arguments[1], table) + render_more(
                arguments,
                table,
                2,
            ));
            assert(rest[0] == 44);
            assert(s[at_rest + 0] == rest[0]);
        }
        assert(closes(s, at_rest));
        expr_is_read(arguments[0], s, pos, table);
        expression_begins_without_space(s, pos, table);
        assert(arguments.subrange(0, 1) =~= seq![arguments[0]]);
        more_arguments_are_read(arguments, 1, s, at_rest, table);
    }
}

/// The arguments behind the first ones are read where they stand in front
/// of `)`.
proof fn more_arguments_are_read(
    arguments: Seq<ExprTree>,
    from: int,
    s: Seq<u8>,
    pos: int,
    table: KeyTable,
)
    requires
        forall|i: int| 0 <= i < arguments.len() ==> readable_expr(#[trigger] arguments[i], table),
        1 <= from <= arguments.len(),
        stands(s, pos, render_more(arguments, table, from)),
        pos + render_more(arguments, table, from).len() < s.len(),
        s[pos + render_more(arguments, table, from).len()] == 41,
    ensures
        spec_more_arguments(s, pos, table, arguments.subrange(0, from)) == (
            pos + render_more(arguments, table, from).len(),
            arguments,
        ),
    decreases arguments, arguments.len() - from,
{
    comma_token();
    if from == arguments.len() {
        assert(render_more(arguments, table, from) =~= Seq::<u8>::empty());
        byte_is_no_token(s, pos, ",", 44);
        assert(arguments.subrange(0, from) =~= arguments);
    } else {
        let next = render_expr(arguments[from], table);
        let rest = render_more(arguments, table, from + 1);
        assert(render_more(arguments, table, from) == utf8(",") + next + rest);
        stands_parts(s, pos, utf8(",") + next, rest);
        stands_parts(s, pos, utf8(","), next);
        assert(s[pos + 0] == 44);
        byte_is_token(s, pos, ",", 44);
        let at_next = pos + 1;
        let at_rest = at_next + next.len();
        if from + 1 == arguments.len() {
            assert(rest =~= Seq::<u8>::empty());
        } else {
            assert(rest == utf8(",") + render_expr(arguments[from + 1], table) + render_more(
                arguments,
                table,
                from + 2,
            ));
            assert(rest[0] == 44);
            assert(s[at_rest + 0] == rest[0]);
        }
        assert(closes(s, at_rest));
        expr_is_read(arguments[from], s, at_next, table);
        expression_begins_without_space(s, at_next, table);
        assert(arguments.subrange(0, from).push(arguments[from]) =~= arguments.subrange(
            0,
            from + 1,
        ));
        more_arguments_are_read(arguments, from + 1, s, at_rest, table);
    }
}

/// An operand is read where its text stands.
proof fn operand_is_read(e: ExprTree, s: Seq<u8>, pos: int, table: KeyTable)
    requires
        readable_expr(e, table),
        stands(s, pos, render_operand(e, table)),
        after_atom(s, pos + render_operand(e, table).len()),
    ensures
        spec_expr_4(s, pos, table) == Ok::<(int, ExprTree), Failure>(
            (pos + render_operand(e, table).len(), e),
        ),
        spec_expr_3(s, pos, table) == Ok::<(int, ExprTree), Failure>(
            (pos + render_operand(e, table).len(), e),
        ),
        render_operand(e, table).len() > 0,
    decreases e, 3int,
{
    let end = pos + render_operand(e, table).len();
    if is_simple(e) {
        simple_is_read(e, s, pos, table);
        atom_is_unary(s, pos, table, end, e);
    } else {
        let inner = render_expr(e, table);
        open_token();
        close_token();
        stands_parts(s, pos, utf8("(") + inner, utf8(")"));
        stands_parts(s, pos, utf8("("), inner);
        assert(s[pos + 0] == 40);
        assert(s[pos + 1 + inner.len() + 0] == 41);
        expr_is_read(e, s, pos + 1, table);
        group_is_read(s, pos, table, e, pos + 1 + inner.len());
        atom_is_unary(s, pos, table, end, e);
    }
}

/// An operator between two operands is read where their texts stand.
proof fn binary_expr_is_read(e: ExprTree, s: Seq<u8>, pos: int, table: KeyTable)
    requires
        e is Binary,
        readable_expr(e, table),
        stands(s, pos, render_expr(e, table)),
        closes(s, pos + render_expr(e, table).len()),
    ensures
        spec_expr(s, pos, table) == Ok::<(int, ExprTree), Failure>(
            (pos + render_expr(e, table).len(), e),
        ),
        render_expr(e, table).len() > 0,
    decreases e, 0int,
{
    match e {
        ExprTree::Binary(op, left, right) => {
            let first = render_operand(*left, table);
            let second = render_operand(*right, table);
            let at_op = pos + first.len();
            let after = at_op + operator_text(op).len();
            let end = after + second.len();
            operator_lengths(op);
            stands_three(s, pos, first, operator_text(op), second);
            operator_is_read(s, at_op, op);
            no_operator_where_it_closes(s, end);
            operand_is_read(*left, s, pos, table);
            operand_is_read(*right, s, after, table);
            binary_is_read(s, pos, table, op, *left, *right, at_op, end);
        },
        _ => {},
    }
}

/// `??` in front of an operand is read as a negation.
proof fn negation_is_read(s: Seq<u8>, pos: int, table: KeyTable, inner: ExprTree, end: int)
    requires
        stands(s, pos, utf8("??")),
        spec_expr_4(s, pos + 2, table) == Ok::<(int, ExprTree), Failure>((end, inner)),
        pos + 2 <= end <= s.len(),
        closes(s, end),
    ensures
        spec_expr(s, pos, table) == Ok::<(int, ExprTree), Failure>(
            (end, ExprTree::Neg(Box::new(inner))),
        ),
{
    negation_token();
    stands_is_starts_with(s, pos, utf8("??"));
    assert(spec_expr_3(s, pos, table) == Ok::<(int, ExprTree), Failure>(
        (end, ExprTree::Neg(Box::new(inner))),
    ));
    atom_is_expression(s, pos, table, end, ExprTree::Neg(Box::new(inner)));
}

/// What was read as an atom is an expression where an expression may end.
proof fn atom_closes(s: Seq<u8>, pos: int, table: KeyTable, end: int, e: ExprTree)
    requires
        spec_atom(s, pos, table) == Ok::<(int, ExprTree), Failure>((end, e)),
        !starts_with_at(s, pos, utf8("??")),
        pos <= end <= s.len(),
        closes(s, end),
    ensures
        spec_expr(s, pos, table) == Ok::<(int, ExprTree), Failure>((end, e)),
{
    no_operator_where_it_closes(s, end);
    atom_is_unary(s, pos, table, end, e);
    atom_is_expression(s, pos, table, end, e);
}

/// A declaration is read where its text stands.
proof fn declaration_expr_is_read(
    name: Seq<u8>,
    value: ExprTree,
    s: Seq<u8>,
    pos: int,
    table: KeyTable,
)
    requires
        is_name(name),
        readable_expr(value, table),
        stands(s, pos, utf8("let ") + name + utf8("=") + render_expr(value, table)),
        closes(s, pos + 4 + name.len() + 1 + render_expr(value, table).len()),
    ensures
        spec_expr(s, pos, table) == Ok::<(int, ExprTree), Failure>(
            (
                pos + 4 + name.len() + 1 + render_expr(value, table).len(),
                ExprTree::VariableInit(name, Box::new(value)),
            ),
        ),
    decreases value, 3int,
{
    let end = pos + 4 + name.len() + 1 + render_expr(value, table).len();
    let_space_token();
    assign_token();
    stands_four(s, pos, utf8("let "), name, utf8("="), render_expr(value, table));
    assert(s[pos + 4 + name.len() + 0] == 61);
    expr_is_read(value, s, pos + 4 + name.len() + 1, table);
    declaration_is_read(s, pos, table, name, value, end);
    atom_closes(s, pos, table, end, ExprTree::VariableInit(name, Box::new(value)));
}

/// An assignment is read where its text stands.
proof fn assignment_expr_is_read(
    name: Seq<u8>,
    value: ExprTree,
    s: Seq<u8>,
    pos: int,
    table: KeyTable,
)
    requires
        is_name(name),
        readable_expr(value, table),
        stands(s, pos, name + utf8("=") + render_expr(value, table)),
        closes(s, pos + name.len() + 1 + render_expr(value, table).len()),
    ensures
        spec_expr(s, pos, table) == Ok::<(int, ExprTree), Failure>(
            (
                pos + name.len() + 1 + render_expr(value, table).len(),
                ExprTree::VariableAssign(name, Box::new(value)),
            ),
        ),
    decreases value, 3int,
{
    let end = pos + name.len() + 1 + render_expr(value, table).len();
    assign_token();
    stands_three(s, pos, name, utf8("="), render_expr(value, table));
    assert(s[pos + name.len() + 0] == 61);
    expr_is_read(value, s, pos + name.len() + 1, table);
    assignment_is_read(s, pos, table, name, value, end);
    atom_closes(s, pos, table, end, ExprTree::VariableAssign(name, Box::new(value)));
}

/// An expression is read where its text stands and an expression may end.
proof fn expr_is_read(e: ExprTree, s: Seq<u8>, pos: int, table: KeyTable)
    requires
        readable_expr(e, table),
        stands(s, pos, render_expr(e, table)),
        closes(s, pos + render_expr(e, table).len()),
    ensures
        spec_expr(s, pos, table) == Ok::<(int, ExprTree), Failure>(
            (pos + render_expr(e, table).len(), e),
        ),
        render_expr(e, table).len() > 0,
    decreases e, 2int,
{
    let end = pos + render_expr(e, table).len();
    match e {
        ExprTree::Binary(_, _, _) => {
            binary_expr_is_read(e, s, pos, table);
        },
        ExprTree::Neg(inner) => {
            negation_token();
            stands_parts(s, pos, utf8("??"), render_operand(*inner, table));
            no_operator_where_it_closes(s, end);
            operand_is_read(*inner, s, pos + 2, table);
            negation_is_read(s, pos, table, *inner, end);
        },
        ExprTree::VariableInit(name, value) => {
            let_space_token();
            assign_token();
            declaration_expr_is_read(name, *value, s, pos, table);
        },
        ExprTree::VariableAssign(name, value) => {
            assign_token();
            assignment_expr_is_read(name, *value, s, pos, table);
        },
        ExprTree::Lambda(_) => {},
        _ => {
            no_operator_where_it_closes(s, end);
            simple_is_read(e, s, pos, table);
            atom_closes(s, pos, table, end, e);
        },
    }
}

/// No operator is written with nothing.
proof fn operator_lengths(op: BinaryOp)
    ensures
        operator_text(op).len() > 0,
{
    star_token();
    slash_token();
    plus_token();
    minus_token();
    less_token();
    greater_token();
    equal_token();
    unequal_token();
    and_token();
    or_token();
}

/// A conditional is read only where the word `if` stands.
proof fn conditional_needs_its_word(s: Seq<u8>, pos: int, table: KeyTable)
    requires
        0 <= pos <= s.len(),
    ensures
        spec_if_stmt(s, pos, table) is Ok ==> word_at(s, pos, "if"),
        spec_if_stmt(s, pos, table) is Ok ==> s[pos] == 105,
{
    if_token();
    open_token();
    if starts_with_at(s, pos, utf8("if")) {
        tag_needs_first_byte(s, pos, utf8("if"));
        let after = pos + 2;
        if after < s.len() && is_ident_char(s[after]) {
            skip_nothing(s, after);
            byte_is_no_token(s, after, "(", 40);
        }
    }
}

/// Where the text of an atom stands, the word `if` does not.
proof fn atom_is_no_conditional(e: ExprTree, s: Seq<u8>, pos: int, table: KeyTable)
    requires
        is_simple(e),
        readable_expr(e, table),
        stands(s, pos, render_expr(e, table)),
        after_atom(s, pos + render_expr(e, table).len()),
        render_expr(e, table).len() > 0,
    ensures
        !word_at(s, pos, "if"),
{
    if_token();
    if starts_with_at(s, pos, utf8("if")) {
        tag_needs_first_byte(s, pos, utf8("if"));
        words_are_letters();
        match e {
            ExprTree::Value(value) => {
                true_token();
                false_token();
                quote_token();
                match value {
                    ValueTree::Bool(_) => {
                        assert(s[pos + 0] == render_value(value)[0]);
                    },
                    ValueTree::Number(digits) => {
                        assert(s[pos + 0] == digits[0]);
                    },
                    ValueTree::String(content) => {
                        string_parts(s, pos, content);
                    },
                }
            },
            ExprTree::Variable(name) => {
                name_outgrows_word(s, pos, name, utf8("if"));
            },
            ExprTree::FunctionCall(name, arguments) => {
                open_token();
                stands_four(
                    s,
                    pos,
                    name,
                    utf8("("),
                    render_arguments(arguments, table, 0),
                    utf8(")"),
                );
                assert(s[pos + name.len() + 0] == 40);
                name_outgrows_word(s, pos, name, utf8("if"));
            },
            ExprTree::KeyMappingInline(from, to) => {
                colons_token();
                stands_three(s, pos, render_action(from, table), utf8("::"), render_action(to, table));
                assert(s[pos + render_action(from, table).len() + 0] == 58);
                action_is_read(s, pos, table, from);
                if !is_modifier(s[pos]) {
                    let word = table.name_of(from->0.key.code)->0;
                    written_name_resolves(table, from->0.key.code);
                    key_text_is_name(word);
                    assert(render_action(from, table) =~= render_key_name(word)) by {
                        assert(render_modifiers(KeyModifierFlags::none()) =~= Seq::<u8>::empty());
                    }
                    name_outgrows_word(s, pos, render_key_name(word), utf8("if"));
                }
            },
            _ => {},
        }
    }
}

/// Where the text of an expression stands, the word `if` does not.
proof fn expression_is_no_conditional(e: ExprTree, s: Seq<u8>, pos: int, table: KeyTable)
    requires
        readable_expr(e, table),
        stands(s, pos, render_expr(e, table)),
        closes(s, pos + render_expr(e, table).len()),
    ensures
        !word_at(s, pos, "if"),
{
    if_token();
    words_are_letters();
    no_operator_where_it_closes(s, pos + render_expr(e, table).len());
    if starts_with_at(s, pos, utf8("if")) {
        tag_needs_first_byte(s, pos, utf8("if"));
        match e {
            ExprTree::Binary(op, left, right) => {
                let first = render_operand(*left, table);
                operator_lengths(op);
                stands_three(s, pos, first, operator_text(op), render_operand(*right, table));
                operator_is_read(s, pos + first.len(), op);
                if is_simple(*left) {
                    operand_is_read(*left, s, pos, table);
                    atom_is_no_conditional(*left, s, pos, table);
                } else {
                    open_token();
                    stands_three(s, pos, utf8("("), render_expr(*left, table), utf8(")"));
                    assert(s[pos + 0] == 40);
                }
            },
            ExprTree::Neg(inner) => {
                negation_token();
                stands_parts(s, pos, utf8("??"), render_operand(*inner, table));
                assert(s[pos + 0] == 63);
            },
            ExprTree::VariableInit(name, value) => {
                let_space_token();
                stands_four(s, pos, utf8("let "), name, utf8("="), render_expr(*value, table));
                assert(s[pos + 0] == 108);
            },
            ExprTree::VariableAssign(name, value) => {
                assign_token();
                stands_three(s, pos, name, utf8("="), render_expr(*value, table));
                assert(s[pos + name.len() + 0] == 61);
                name_outgrows_word(s, pos, name, utf8("if"));
            },
            ExprTree::Lambda(_) => {},
            _ => {
                expr_is_read(e, s, pos, table);
                atom_is_no_conditional(e, s, pos, table);
            },
        }
    }
}

/// Where a block closes or the input ends, no statement is read.
proof fn no_statement_where_a_block_closes(s: Seq<u8>, pos: int, table: KeyTable)
    requires
        0 <= pos <= s.len(),
        pos == s.len() || s[pos] == 125,
    ensures
        spec_stmt(s, pos, table) is Err,
        skip_spaces(s, pos) == pos,
{
    conditional_needs_its_word(s, pos, table);
    expression_fails(s, pos, table);
    open_brace_token();
    byte_is_no_token(s, pos, "{", 123);
    assert(spec_expr_stmt(s, pos, table) is Err);
    assert(spec_block(s, pos, table) is Err);
    assert(spec_block_stmt(s, pos, table) is Err);
    stmt_takes_the_first_match(s, pos, table);
}

/// An expression with `;` behind it is read as a statement.
proof fn expression_statement_is_read(e: ExprTree, s: Seq<u8>, pos: int, table: KeyTable)
    requires
        readable_expr(e, table),
        stands(s, pos, render_expr(e, table) + utf8(";")),
    ensures
        spec_stmt(s, pos, table) == Ok::<(int, StmtTree), Failure>(
            (pos + render_expr(e, table).len() + 1, StmtTree::Expr(e)),
        ),
        !is_space(s[pos]),
{
    let at_end = pos + render_expr(e, table).len();
    semicolon_token();
    stands_parts(s, pos, render_expr(e, table), utf8(";"));
    assert(s[at_end + 0] == 59);
    expr_is_read(e, s, pos, table);
    expression_begins_without_space(s, pos, table);
    byte_is_token(s, at_end, ";", 59);
    expression_is_no_conditional(e, s, pos, table);
    conditional_needs_its_word(s, pos, table);
    assert(spec_expr_stmt(s, pos, table) == Ok::<(int, StmtTree), Failure>(
        (at_end + 1, StmtTree::Expr(e)),
    ));
    stmt_takes_the_first_match(s, pos, table);
}

/// A conditional is read where `if(`, its condition, `)` and its block stand.
proof fn conditional_is_read(
    s: Seq<u8>,
    pos: int,
    table: KeyTable,
    condition: ExprTree,
    body: BlockTree,
    at_close: int,
    end: int,
)
    requires
        stands(s, pos, utf8("if(")),
        spec_expr(s, pos + 3, table) == Ok::<(int, ExprTree), Failure>((at_close, condition)),
        pos + 3 <= at_close < s.len(),
        s[at_close] == 41,
        spec_block(s, at_close + 1, table) == Ok::<(int, BlockTree), Failure>((end, body)),
        at_close + 1 < s.len(),
        s[at_close + 1] == 123,
    ensures
        spec_stmt(s, pos, table) == Ok::<(int, StmtTree), Failure>(
            (end, StmtTree::If(condition, body)),
        ),
        !is_space(s[pos]),
{
    if_open_token();
    if_token();
    open_token();
    close_token();
    assert(s[pos + 0] == 105 && s[pos + 1] == 102 && s[pos + 2] == 40);
    assert(s.subrange(pos, pos + 2) =~= utf8("if"));
    skip_nothing(s, pos + 2);
    byte_is_token(s, pos + 2, "(", 40);
    expression_begins_without_space(s, pos + 3, table);
    skip_nothing(s, at_close);
    byte_is_token(s, at_close, ")", 41);
    skip_nothing(s, at_close + 1);
    assert(spec_if_stmt(s, pos, table) == Ok::<(int, StmtTree), Failure>(
        (end, StmtTree::If(condition, body)),
    ));
    stmt_takes_the_first_match(s, pos, table);
}

/// A block that is read is read as a statement.
proof fn block_statement_is_read(s: Seq<u8>, pos: int, table: KeyTable, body: BlockTree, end: int)
    requires
        0 <= pos < s.len(),
        s[pos] == 123,
        spec_block(s, pos, table) == Ok::<(int, BlockTree), Failure>((end, body)),
    ensures
        spec_stmt(s, pos, table) == Ok::<(int, StmtTree), Failure>((end, StmtTree::Block(body))),
        !is_space(s[pos]),
{
    conditional_needs_its_word(s, pos, table);
    expression_fails(s, pos, table);
    assert(spec_expr_stmt(s, pos, table) is Err);
    assert(spec_block_stmt(s, pos, table) == Ok::<(int, StmtTree), Failure>(
        (end, StmtTree::Block(body)),
    ));
    stmt_takes_the_first_match(s, pos, table);
}

/// A body between braces is read as a block.
proof fn braces_are_read(s: Seq<u8>, pos: int, table: KeyTable, body: BlockTree, at_close: int)
    requires
        0 <= pos < s.len(),
        s[pos] == 123,
        pos + 1 <= at_close < s.len(),
        !is_space(s[pos + 1]),
        spec_block_body(s, pos + 1, table) == (at_close, body),
        s[at_close] == 125,
    ensures
        spec_block(s, pos, table) == Ok::<(int, BlockTree), Failure>((at_close + 1, body)),
{
    open_brace_token();
    close_brace_token();
    byte_is_token(s, pos, "{", 123);
    skip_nothing(s, pos + 1);
    skip_nothing(s, at_close);
    byte_is_token(s, at_close, "}", 125);
}

/// A statement is read where its text stands.
proof fn stmt_is_read(statement: StmtTree, s: Seq<u8>, pos: int, table: KeyTable)
    requires
        readable_stmt(statement, table),
        stands(s, pos, render_stmt(statement, table)),
    ensures
        spec_stmt(s, pos, table) == Ok::<(int, StmtTree), Failure>(
            (pos + render_stmt(statement, table).len(), statement),
        ),
        render_stmt(statement, table).len() > 0,
        !is_space(s[pos]),
    decreases statement, 0int,
{
    match statement {
        StmtTree::Expr(e) => {
            semicolon_token();
            expression_statement_is_read(e, s, pos, table);
        },
        StmtTree::If(condition, body) => {
            let written = render_expr(condition, table);
            let block = render_block(body, table);
            if_open_token();
            close_token();
            stands_four(s, pos, utf8("if("), written, utf8(")"), block);
            let at_close = pos + 3 + written.len();
            assert(s[at_close + 0] == 41);
            expr_is_read(condition, s, pos + 3, table);
            block_is_read(body, s, at_close + 1, table);
            conditional_is_read(s, pos, table, condition, body, at_close, at_close + 1 + block.len());
        },
        StmtTree::Block(body) => {
            block_is_read(body, s, pos, table);
            block_statement_is_read(s, pos, table, body, pos + render_block(body, table).len());
        },
    }
}

/// The parts of a block as it is written.
proof fn block_parts(s: Seq<u8>, pos: int, inner: Seq<u8>)
    requires
        stands(s, pos, utf8("{") + inner + utf8("}")),
    ensures
        0 <= pos,
        pos + inner.len() + 2 <= s.len(),
        (utf8("{") + inner + utf8("}")).len() == inner.len() + 2,
        s[pos] == 123,
        stands(s, pos + 1, inner),
        s[pos + 1 + inner.len()] == 125,
{
    open_brace_token();
    close_brace_token();
    stands_three(s, pos, utf8("{"), inner, utf8("}"));
    assert(s[pos + 0] == 123);
    assert(s[pos + 1 + inner.len() + 0] == 125);
}

/// A block is read where its text stands.
proof fn block_is_read(block: BlockTree, s: Seq<u8>, pos: int, table: KeyTable)
    requires
        readable_block(block, table),
        stands(s, pos, render_block(block, table)),
    ensures
        spec_block(s, pos, table) == Ok::<(int, BlockTree), Failure>(
            (pos + render_block(block, table).len(), block),
        ),
        render_block(block, table).len() >= 2,
        s[pos] == 123,
    decreases block, 1int,
{
    let inner = render_statements(block.statements, table, 0);
    block_parts(s, pos, inner);
    statements_are_read(block.statements, s, pos + 1, table);
    braces_are_read(s, pos, table, block, pos + 1 + inner.len());
}

/// The statements of a block are read where they stand in front of `}` or
/// of the end of the input.
proof fn statements_are_read(list: Seq<StmtTree>, s: Seq<u8>, pos: int, table: KeyTable)
    requires
        forall|i: int| 0 <= i < list.len() ==> readable_stmt(#[trigger] list[i], table),
        stands(s, pos, render_statements(list, table, 0)),
        pos + render_statements(list, table, 0).len() == s.len() || s[pos + render_statements(
            list,
            table,
            0,
        ).len()] == 125,
    ensures
        spec_block_body(s, pos, table) == (
            pos + render_statements(list, table, 0).len(),
            BlockTree { statements: list },
        ),
        pos < s.len() ==> !is_space(s[pos]),
    decreases list, list.len() + 1,
{
    if list.len() == 0 {
        assert(render_statements(list, table, 0) =~= Seq::<u8>::empty());
        no_statement_where_a_block_closes(s, pos, table);
        assert(list =~= Seq::<StmtTree>::empty());
    } else {
        let first = render_stmt(list[0], table);
        let rest = render_statements(list, table, 1);
        stands_parts(s, pos, first, rest);
        stmt_is_read(list[0], s, pos, table);
        assert(list.subrange(0, 1) =~= seq![list[0]]);
        more_statements_are_read(list, 1, s, pos + first.len(), table);
    }
}

/// The statements behind the first ones are read where they stand.
proof fn more_statements_are_read(
    list: Seq<StmtTree>,
    from: int,
    s: Seq<u8>,
    pos: int,
    table: KeyTable,
)
    requires
        forall|i: int| 0 <= i < list.len() ==> readable_stmt(#[trigger] list[i], table),
        1 <= from <= list.len(),
        stands(s, pos, render_statements(list, table, from)),
        pos + render_statements(list, table, from).len() == s.len() || s[pos + render_statements(
            list,
            table,
            from,
        ).len()] == 125,
    ensures
        spec_more_statements(s, pos, table, list.subrange(0, from)) == (
            pos + render_statements(list, table, from).len(),
            BlockTree { statements: list },
        ),
    decreases list, list.len() - from,
{
    if from == list.len() {
        assert(render_statements(list, table, from) =~= Seq::<u8>::empty());
        no_statement_where_a_block_closes(s, pos, table);
        assert(list.subrange(0, from) =~= list);
    } else {
        let next = render_stmt(list[from], table);
        let rest = render_statements(list, table, from + 1);
        stands_parts(s, pos, next, rest);
        stmt_is_read(list[from], s, pos, table);
        skip_nothing(s, pos);
        assert(list.subrange(0, from).push(list[from]) =~= list.subrange(0, from + 1));
        more_statements_are_read(list, from + 1, s, pos + next.len(), table);
    }
}

/// What is read as an identifier is a name.
proof fn identifier_is_name(s: Seq<u8>, pos: int)
    ensures
        spec_ident(s, pos) matches Ok((end, name)) ==> is_name(name) && pos < end <= s.len(),
{
    if spec_ident(s, pos) is Ok {
        ident_end_bounds(s, pos + 1);
        let end = ident_end(s, pos + 1);
        let name = s.subrange(pos, end);
        assert(name[0] == s[pos]);
        assert forall|i: int| 0 <= i < name.len() implies is_ident_char(name[i]) by {
            assert(name[i] == s[pos + i]);
        }
    }
}

/// The digits of a part of the input are the digits of the input, as far
/// as the part goes.
proof fn digits_end_of_part(s: Seq<u8>, pos: int, end: int, from: int)
    requires
        0 <= pos <= from <= end <= s.len(),
    ensures
        digits_end(s.subrange(pos, end), from - pos) == (if digits_end(s, from) <= end {
            digits_end(s, from)
        } else {
            end
        }) - pos,
    decreases end - from,
{
    let part = s.subrange(pos, end);
    digits_end_bounds(s, from);
    if from < end {
        assert(part[from - pos] == s[from]);
        if is_digit(s[from]) {
            digits_end_of_part(s, pos, end, from + 1);
        }
    }
}

/// What is read as a number has the text of a number.
proof fn number_is_number_text(s: Seq<u8>, pos: int)
    ensures
        spec_number(s, pos) matches Ok((end, e)) ==> e matches ExprTree::Value(
            ValueTree::Number(text),
        ) && is_number_text(text) && pos < end <= s.len(),
{
    if spec_number(s, pos) is Ok {
        let end = number_end(s, pos);
        let whole = digits_end(s, pos);
        let text = s.subrange(pos, end);
        digits_end_bounds(s, pos);
        digits_end_bounds(s, pos + 1);
        if whole + 1 < s.len() && s[whole] == 46 && is_digit(s[whole + 1]) {
            digits_end_bounds(s, whole + 1);
            digits_end_bounds(s, whole + 2);
            digits_end_of_part(s, pos, end, pos);
            digits_end_of_part(s, pos, end, whole + 1);
            assert(text[whole - pos] == s[whole]);
            assert(text[whole + 1 - pos] == s[whole + 1]);
        } else {
            digits_end_of_part(s, pos, end, pos);
        }
        assert(text[0] == s[pos]);
    }
}

/// What is read as a string has the text of a string.
proof fn string_is_string_text(s: Seq<u8>, pos: int)
    ensures
        spec_string(s, pos) matches Ok((end, e)) ==> e matches ExprTree::Value(
            ValueTree::String(text),
        ) && is_string_text(text) && pos < end <= s.len(),
{
    if spec_string(s, pos) is Ok {
        quote_token();
        tag_needs_first_byte(s, pos, utf8("\""));
        quote_at_bounds(s, pos + 1);
        let close = quote_at(s, pos + 1);
        let text = s.subrange(pos + 1, close);
        assert forall|i: int| 0 <= i < text.len() implies text[i] != 34 by {
            assert(text[i] == s[pos + 1 + i]);
        }
    }
}

/// The upper-case form of a name is a key word.
proof fn upper_name_is_key_word(name: Seq<u8>)
    requires
        is_name(name),
    ensures
        is_key_word(upper_seq(name)),
{
    let word = upper_seq(name);
    assert(word[0] == upper(name[0]));
    assert forall|i: int| 0 <= i < word.len() implies is_upper(word[i]) || is_digit(word[i])
        || word[i] == 95 by {
        assert(word[i] == upper(name[i]));
        assert(is_ident_char(name[i]));
    }
}

/// What is read as a key action can be written.
proof fn parsed_action_is_readable(s: Seq<u8>, pos: int, table: KeyTable)
    ensures
        spec_key_action_with_flags(s, pos, table) matches Ok((_, action)) ==> readable_action(
            action,
            table,
        ),
{
    if spec_key_action_with_flags(s, pos, table) is Ok {
        let at_key = spec_modifiers(s, pos, KeyModifierFlags::none())->Ok_0.0;
        identifier_is_name(s, at_key);
        let name = spec_ident(s, at_key)->Ok_0.1;
        upper_name_is_key_word(name);
        let code = table.resolve(upper_seq(name))->0;
        resolved_key_has_a_name(table, upper_seq(name), code);
    }
}

/// What is read by the rules that read no expression inside is readable.
proof fn parsed_leaf_is_readable(s: Seq<u8>, pos: int, table: KeyTable)
    ensures
        spec_boolean(s, pos) matches Ok((_, e)) ==> readable_expr(e, table),
        spec_string(s, pos) matches Ok((_, e)) ==> readable_expr(e, table),
        spec_number(s, pos) matches Ok((_, e)) ==> readable_expr(e, table),
        spec_key_mapping_inline(s, pos, table) matches Ok((_, e)) ==> readable_expr(e, table),
        spec_variable(s, pos) matches Ok((_, e)) ==> readable_expr(e, table),
{
    number_is_number_text(s, pos);
    string_is_string_text(s, pos);
    identifier_is_name(s, pos);
    if spec_key_mapping_inline(s, pos, table) is Ok {
        parsed_action_is_readable(s, pos, table);
        let at_colons = spec_key_action_with_flags(s, pos, table)->Ok_0.0;
        let at_target = spec_tag(s, at_colons, "::")->Ok_0;
        parsed_action_is_readable(s, at_target, table);
    }
}

/// What is read as a chain is readable.
proof fn parsed_level_is_readable(s: Seq<u8>, pos: int, table: KeyTable, level: int)
    ensures
        spec_level(s, pos, table, level) matches Ok((_, e)) ==> readable_expr(e, table),
    decreases s.len() - pos, 10 * level + 5,
{
    if MULTIPLICATIVE <= level <= RELATIONAL {
        parsed_operand_is_readable(s, pos, table, level);
        match spec_operand(s, pos, table, level) {
            Ok((end, first)) => {
                if pos <= end <= s.len() {
                    parsed_fold_is_readable(s, end, table, level, first);
                }
            },
            Err(_) => {},
        }
    }
}

proof fn parsed_operand_is_readable(s: Seq<u8>, pos: int, table: KeyTable, level: int)
    ensures
        spec_operand(s, pos, table, level) matches Ok((_, e)) ==> readable_expr(e, table),
    decreases s.len() - pos, 10 * level + 3,
{
    if level == MULTIPLICATIVE {
        parsed_unary_is_readable(s, pos, table);
    } else if MULTIPLICATIVE < level <= RELATIONAL {
        parsed_level_is_readable(s, pos, table, level - 1);
    }
}

proof fn parsed_fold_is_readable(s: Seq<u8>, pos: int, table: KeyTable, level: int, acc: ExprTree)
    requires
        readable_expr(acc, table),
    ensures
        readable_expr(spec_fold(s, pos, table, level, acc).1, table),
    decreases s.len() - pos, 10 * level + 4,
{
    match spec_operator(s, skip_spaces(s, pos), level) {
        None => {},
        Some((after, op)) => {
            let at_operand = skip_spaces(s, after);
            if MULTIPLICATIVE <= level <= RELATIONAL && pos <= at_operand <= s.len() {
                parsed_operand_is_readable(s, at_operand, table, level);
                match spec_operand(s, at_operand, table, level) {
                    Ok((end, operand)) => {
                        if pos < end <= s.len() {
                            parsed_fold_is_readable(
                                s,
                                end,
                                table,
                                level,
                                ExprTree::Binary(op, Box::new(acc), Box::new(operand)),
                            );
                        }
                    },
                    Err(_) => {},
                }
            }
        },
    }
}

proof fn parsed_unary_is_readable(s: Seq<u8>, pos: int, table: KeyTable)
    ensures
        spec_expr_3(s, pos, table) matches Ok((_, e)) ==> readable_expr(e, table),
        spec_expr_4(s, pos, table) matches Ok((_, e)) ==> readable_expr(e, table),
    decreases s.len() - pos, 15int,
{
    parsed_atom_is_readable(s, pos, table);
    match spec_tag(s, pos, "??") {
        Ok(after) => {
            if pos < after <= s.len() {
                parsed_atom_is_readable(s, after, table);
            }
        },
        Err(_) => {},
    }
}

proof fn parsed_atom_is_readable(s: Seq<u8>, pos: int, table: KeyTable)
    ensures
        spec_atom(s, pos, table) matches Ok((_, e)) ==> readable_expr(e, table),
        spec_expr_4(s, pos, table) matches Ok((_, e)) ==> readable_expr(e, table),
    decreases s.len() - pos, 4int,
{
    parsed_leaf_is_readable(s, pos, table);
    parsed_group_is_readable(s, pos, table);
    parsed_declaration_is_readable(s, pos, table);
    parsed_assignment_is_readable(s, pos, table);
    parsed_call_is_readable(s, pos, table);
    atom_takes_the_first_match(s, pos, table);
}

proof fn parsed_expr_is_readable(s: Seq<u8>, pos: int, table: KeyTable)
    ensures
        spec_expr(s, pos, table) matches Ok((_, e)) ==> readable_expr(e, table),
    decreases s.len() - pos, 46int,
{
    parsed_level_is_readable(s, pos, table, RELATIONAL as int);
}

proof fn parsed_group_is_readable(s: Seq<u8>, pos: int, table: KeyTable)
    ensures
        spec_group(s, pos, table) matches Ok((_, e)) ==> readable_expr(e, table),
    decreases s.len() - pos, 3int,
{
    match spec_tag(s, pos, "(") {
        Ok(inner) => {
            if pos < inner <= s.len() {
                parsed_expr_is_readable(s, inner, table);
            }
        },
        Err(_) => {},
    }
}

proof fn parsed_value_is_readable(s: Seq<u8>, from: int, pos: int, table: KeyTable)
    ensures
        spec_assigned(s, from, pos, table) matches Ok((_, e)) ==> readable_expr(e, table),
    decreases s.len() - from, 2int,
{
    match spec_tag(s, skip_spaces(s, pos), "=") {
        Ok(after) => {
            let at_value = skip_spaces(s, after);
            if from < at_value <= s.len() {
                parsed_expr_is_readable(s, at_value, table);
            }
        },
        Err(_) => {},
    }
}

proof fn parsed_declaration_is_readable(s: Seq<u8>, pos: int, table: KeyTable)
    ensures
        spec_variable_initialization(s, pos, table) matches Ok((_, e)) ==> readable_expr(e, table),
    decreases s.len() - pos, 3int,
{
    if spec_variable_initialization(s, pos, table) is Ok {
        let after = spec_tag(s, pos, "let")->Ok_0;
        let at_name = spec_ws1(s, after)->Ok_0;
        identifier_is_name(s, at_name);
        let after_name = spec_ident(s, at_name)->Ok_0.0;
        parsed_value_is_readable(s, pos, after_name, table);
    }
}

proof fn parsed_assignment_is_readable(s: Seq<u8>, pos: int, table: KeyTable)
    ensures
        spec_variable_assignment(s, pos, table) matches Ok((_, e)) ==> readable_expr(e, table),
    decreases s.len() - pos, 3int,
{
    if spec_variable_assignment(s, pos, table) is Ok {
        identifier_is_name(s, pos);
        let after_name = spec_ident(s, pos)->Ok_0.0;
        parsed_value_is_readable(s, pos, after_name, table);
    }
}

proof fn parsed_call_is_readable(s: Seq<u8>, pos: int, table: KeyTable)
    ensures
        spec_function_call(s, pos, table) matches Ok((_, e)) ==> readable_expr(e, table),
    decreases s.len() - pos, 3int,
{
    if spec_function_call(s, pos, table) is Ok {
        identifier_is_name(s, pos);
        let at_paren = spec_ident(s, pos)->Ok_0.0;
        let name = spec_ident(s, pos)->Ok_0.1;
        let after = spec_tag(s, at_paren, "(")->Ok_0;
        let at_arguments = skip_spaces(s, after);
        parsed_arguments_are_readable(s, at_arguments, table);
        let arguments = spec_arguments(s, at_arguments, table).1;
        assert(spec_function_call(s, pos, table)->Ok_0.1 == ExprTree::FunctionCall(
            name,
            arguments,
        ));
        call_of_readable_is_readable(name, arguments, table);
    }
}

proof fn call_of_readable_is_readable(name: Seq<u8>, arguments: Seq<ExprTree>, table: KeyTable)
    requires
        is_name(name),
        readable_exprs(arguments, table),
    ensures
        readable_expr(ExprTree::FunctionCall(name, arguments), table),
{
}

proof fn readable_exprs_grow(list: Seq<ExprTree>, next: ExprTree, table: KeyTable)
    requires
        readable_exprs(list, table),
        readable_expr(next, table),
    ensures
        readable_exprs(list.push(next), table),
        readable_exprs(seq![next], table),
        readable_exprs(Seq::<ExprTree>::empty(), table),
{
    assert forall|i: int| 0 <= i < list.push(next).len() implies readable_expr(
        #[trigger] list.push(next)[i],
        table,
    ) by {
        if i < list.len() {
            assert(list.push(next)[i] == list[i]);
        }
    }
}

proof fn readable_stmts_grow(list: Seq<StmtTree>, next: StmtTree, table: KeyTable)
    requires
        readable_stmts(list, table),
        readable_stmt(next, table),
    ensures
        readable_stmts(list.push(next), table),
        readable_stmts(seq![next], table),
        readable_stmts(Seq::<StmtTree>::empty(), table),
{
    assert forall|i: int| 0 <= i < list.push(next).len() implies readable_stmt(
        #[trigger] list.push(next)[i],
        table,
    ) by {
        if i < list.len() {
            assert(list.push(next)[i] == list[i]);
        }
    }
}

proof fn parsed_arguments_are_readable(s: Seq<u8>, pos: int, table: KeyTable)
    ensures
        readable_exprs(spec_arguments(s, pos, table).1, table),
    decreases s.len() - pos, 50int,
{
    parsed_expr_is_readable(s, pos, table);
    match spec_expr(s, pos, table) {
        Ok((end, first)) => {
            if pos <= end <= s.len() {
                readable_exprs_grow(Seq::empty(), first, table);
                parsed_more_arguments_are_readable(s, end, table, seq![first]);
            }
        },
        Err(_) => {},
    }
}

proof fn parsed_more_arguments_are_readable(
    s: Seq<u8>,
    pos: int,
    table: KeyTable,
    list: Seq<ExprTree>,
)
    requires
        readable_exprs(list, table),
    ensures
        readable_exprs(spec_more_arguments(s, pos, table, list).1, table),
    decreases s.len() - pos, 48int,
{
    match spec_tag(s, pos, ",") {
        Ok(after) => {
            let at_next = skip_spaces(s, after);
            if pos <= at_next <= s.len() {
                parsed_expr_is_readable(s, at_next, table);
                match spec_expr(s, at_next, table) {
                    Ok((end, next)) => {
                        if pos < end <= s.len() {
                            readable_exprs_grow(list, next, table);
                            parsed_more_arguments_are_readable(s, end, table, list.push(next));
                        }
                    },
                    Err(_) => {},
                }
            }
        },
        Err(_) => {},
    }
}

/// What is read as a statement is readable.
proof fn parsed_stmt_is_readable(s: Seq<u8>, pos: int, table: KeyTable)
    ensures
        spec_stmt(s, pos, table) matches Ok((_, statement)) ==> readable_stmt(statement, table),
    decreases s.len() - pos, 10int,
{
    parsed_expr_is_readable(s, pos, table);
    parsed_conditional_is_readable(s, pos, table);
    parsed_block_is_readable(s, pos, table);
    stmt_takes_the_first_match(s, pos, table);
}

proof fn parsed_conditional_is_readable(s: Seq<u8>, pos: int, table: KeyTable)
    ensures
        spec_if_stmt(s, pos, table) matches Ok((_, statement)) ==> readable_stmt(statement, table),
    decreases s.len() - pos, 5int,
{
    if spec_if_stmt(s, pos, table) is Ok {
        let after_if = spec_tag(s, pos, "if")->Ok_0;
        let after_open = spec_tag(s, skip_spaces(s, after_if), "(")->Ok_0;
        parsed_expr_is_readable(s, skip_spaces(s, after_open), table);
        let after_condition = spec_expr(s, skip_spaces(s, after_open), table)->Ok_0.0;
        let after_close = spec_tag(s, skip_spaces(s, after_condition), ")")->Ok_0;
        let at_body = skip_spaces(s, after_close);
        parsed_block_is_readable(s, at_body, table);
    }
}

proof fn parsed_block_is_readable(s: Seq<u8>, pos: int, table: KeyTable)
    ensures
        spec_block(s, pos, table) matches Ok((_, block)) ==> readable_block(block, table),
        spec_block_stmt(s, pos, table) matches Ok((_, statement)) ==> readable_stmt(
            statement,
            table,
        ),
    decreases s.len() - pos, 5int,
{
    match spec_tag(s, pos, "{") {
        Ok(after_open) => {
            let at_body = skip_spaces(s, after_open);
            if pos < at_body <= s.len() {
                parsed_body_is_readable(s, at_body, table);
            }
        },
        Err(_) => {},
    }
}

proof fn parsed_body_is_readable(s: Seq<u8>, pos: int, table: KeyTable)
    ensures
        readable_stmts(spec_block_body(s, pos, table).1.statements, table),
        readable_block(spec_block_body(s, pos, table).1, table),
    decreases s.len() - pos, 20int,
{
    parsed_stmt_is_readable(s, pos, table);
    match spec_stmt(s, pos, table) {
        Ok((end, first)) => {
            if pos <= end <= s.len() {
                readable_stmts_grow(Seq::empty(), first, table);
                parsed_more_statements_are_readable(s, end, table, seq![first]);
            }
        },
        Err(_) => {},
    }
}

proof fn parsed_more_statements_are_readable(
    s: Seq<u8>,
    pos: int,
    table: KeyTable,
    list: Seq<StmtTree>,
)
    requires
        readable_stmts(list, table),
    ensures
        readable_stmts(spec_more_statements(s, pos, table, list).1.statements, table),
    decreases s.len() - pos, 15int,
{
    let at_next = skip_spaces(s, pos);
    if pos <= at_next <= s.len() {
        parsed_stmt_is_readable(s, at_next, table);
        match spec_stmt(s, at_next, table) {
            Ok((end, next)) => {
                if pos < end <= s.len() {
                    readable_stmts_grow(list, next, table);
                    parsed_more_statements_are_readable(s, end, table, list.push(next));
                }
            },
            Err(_) => {},
        }
    }
}

/// An expression that can be read is read back from its own text: the text
/// holds nothing but the expression, and parsing it gives the expression.
pub proof fn expr_round_trip(e: ExprTree, table: KeyTable)
    requires
        readable_expr(e, table),
    ensures
        spec_expr(render_expr(e, table), 0, table) == Ok::<(int, ExprTree), Failure>(
            (render_expr(e, table).len() as int, e),
        ),
{
    expr_is_read(e, render_expr(e, table), 0, table);
}

/// A statement that can be read is read back from its own text.
pub proof fn stmt_round_trip(statement: StmtTree, table: KeyTable)
    requires
        readable_stmt(statement, table),
    ensures
        spec_stmt(render_stmt(statement, table), 0, table) == Ok::<(int, StmtTree), Failure>(
            (render_stmt(statement, table).len() as int, statement),
        ),
{
    stmt_is_read(statement, render_stmt(statement, table), 0, table);
}

/// A block that can be read is read back from its own text.
pub proof fn block_round_trip(block: BlockTree, table: KeyTable)
    requires
        readable_block(block, table),
    ensures
        spec_block(render_block(block, table), 0, table) == Ok::<(int, BlockTree), Failure>(
            (render_block(block, table).len() as int, block),
        ),
{
    block_is_read(block, render_block(block, table), 0, table);
}

/// A script that can be read is read back from its own text, to the end.
pub proof fn script_round_trip(block: BlockTree, table: KeyTable)
    requires
        readable_block(block, table),
    ensures
        spec_script(render_script(block, table), table) == Ok::<BlockTree, Failure>(block),
{
    let s = render_script(block, table);
    statements_are_read(block.statements, s, 0, table);
    skip_nothing(s, 0);
    skip_nothing(s, s.len() as int);
}

/// Whatever the grammar gives for an expression can be written, and is
/// read back from what was written.
pub proof fn parsed_expr_reads_back(s: Seq<u8>, pos: int, table: KeyTable)
    ensures
        spec_expr(s, pos, table) matches Ok((_, e)) ==> readable_expr(e, table) && spec_expr(
            render_expr(e, table),
            0,
            table,
        ) == Ok::<(int, ExprTree), Failure>((render_expr(e, table).len() as int, e)),
{
    parsed_expr_is_readable(s, pos, table);
    if spec_expr(s, pos, table) is Ok {
        expr_round_trip(spec_expr(s, pos, table)->Ok_0.1, table);
    }
}

/// Whatever the grammar gives for a statement can be written, and is read
/// back from what was written.
pub proof fn parsed_stmt_reads_back(s: Seq<u8>, pos: int, table: KeyTable)
    ensures
        spec_stmt(s, pos, table) matches Ok((_, statement)) ==> readable_stmt(statement, table)
            && spec_stmt(render_stmt(statement, table), 0, table) == Ok::<(int, StmtTree), Failure>(
            (render_stmt(statement, table).len() as int, statement),
        ),
{
    parsed_stmt_is_readable(s, pos, table);
    if spec_stmt(s, pos, table) is Ok {
        stmt_round_trip(spec_stmt(s, pos, table)->Ok_0.1, table);
    }
}

/// Whatever the grammar gives for a script can be written, and is read back
/// from what was written.
pub proof fn parsed_script_reads_back(s: Seq<u8>, table: KeyTable)
    ensures
        spec_script(s, table) matches Ok(block) ==> readable_block(block, table) && spec_script(
            render_script(block, table),
            table,
        ) == Ok::<BlockTree, Failure>(block),
        readable_block(spec_global_block(s, 0, table).1, table),
{
    parsed_body_is_readable(s, skip_spaces(s, 0), table);
    if spec_script(s, table) is Ok {
        script_round_trip(spec_script(s, table)->Ok_0, table);
    }
}

} // verus!
