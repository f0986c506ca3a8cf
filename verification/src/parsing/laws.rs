//! What holds of the grammar on every input: a rule that matches reads
//! something, a chain is its first operand with the operators folded onto it
//! from the left, the operands of a level are what the next tighter level
//! reads, and statements and arguments stand in the order in which they were
//! read.

use vstd::prelude::*;
use crate::ast::{BinaryOp, BlockTree, ExprTree, StmtTree};
use crate::key_defs::{KeyModifierFlags, ParsedSingleKey};
use crate::parsing::error::Failure;
use crate::parsing::expression::{
    spec_arguments, spec_assigned, spec_atom, spec_expr, spec_expr_1, spec_expr_2, spec_expr_3,
    spec_expr_4, spec_fold, spec_function_call, spec_group, spec_level, spec_more_arguments,
    spec_operand, spec_operator, spec_variable, spec_variable_assignment,
    spec_variable_initialization, ADDITIVE, MULTIPLICATIVE, RELATIONAL,
};
use crate::parsing::key::{
    spec_key, spec_key_action_with_flags, spec_key_mapping_inline, spec_modifiers, with_modifier,
};
use crate::parsing::primitives::{
    digits_end, digits_end_bounds, ident_end_bounds, quote_at_bounds, skip_spaces,
    skip_spaces_bounds, spec_boolean, spec_ident, spec_number, spec_string, spec_tag, spec_ws1,
};
use crate::parsing::tokens::{
    and_token, assign_token, close_token, colons_token, equal_token, false_token, greater_token,
    less_token, let_token, minus_token, negation_token, open_token, or_token, plus_token,
    quote_token, slash_token, star_token, true_token, unequal_token,
};
use crate::parsing::{spec_block_body, spec_more_statements, spec_stmt};
use crate::registry::KeyTable;
use crate::text::upper_seq;

verus! {

/// Whether a rule that was tried at `pos` and matched has read something
/// and stayed within the input.
pub open spec fn advances<T>(s: Seq<u8>, pos: int, r: Result<(int, T), Failure>) -> bool {
    r matches Ok((end, _)) ==> pos < end <= s.len()
}

/// A modifier prefix ends within the input.
proof fn modifiers_advance(s: Seq<u8>, pos: int, flags: KeyModifierFlags)
    requires
        0 <= pos <= s.len(),
    ensures
        spec_modifiers(s, pos, flags) matches Ok((end, _)) ==> pos <= end <= s.len(),
    decreases s.len() - pos,
{
    if pos < s.len() {
        modifiers_advance(s, pos + 1, with_modifier(flags, s[pos]));
    }
}

/// The rules that read no expression inside read something where they match.
proof fn leaves_advance(s: Seq<u8>, pos: int, table: KeyTable)
    requires
        0 <= pos <= s.len(),
    ensures
        advances(s, pos, spec_ident(s, pos)),
        advances(s, pos, spec_boolean(s, pos)),
        advances(s, pos, spec_string(s, pos)),
        advances(s, pos, spec_number(s, pos)),
        advances(s, pos, spec_variable(s, pos)),
        advances(s, pos, spec_key(s, pos, table)),
        advances(s, pos, spec_key_action_with_flags(s, pos, table)),
        advances(s, pos, spec_key_mapping_inline(s, pos, table)),
{
    true_token();
    false_token();
    quote_token();
    colons_token();
    if pos < s.len() {
        ident_end_bounds(s, pos + 1);
        digits_end_bounds(s, pos);
        digits_end_bounds(s, pos + 1);
        quote_at_bounds(s, pos + 1);
        let whole = digits_end(s, pos);
        if whole + 1 <= s.len() {
            digits_end_bounds(s, whole + 1);
        }
    }
    modifiers_advance(s, pos, KeyModifierFlags::none());
    match spec_modifiers(s, pos, KeyModifierFlags::none()) {
        Ok((at_key, _)) => {
            if at_key < s.len() {
                ident_end_bounds(s, at_key + 1);
            }
            match spec_key_action_with_flags(s, pos, table) {
                Ok((at_colons, _)) => {
                    match spec_tag(s, at_colons, "::") {
                        Ok(at_target) => {
                            modifiers_advance(s, at_target, KeyModifierFlags::none());
                            match spec_modifiers(s, at_target, KeyModifierFlags::none()) {
                                Ok((at_second, _)) => {
                                    if at_second < s.len() {
                                        ident_end_bounds(s, at_second + 1);
                                    }
                                },
                                Err(_) => {},
                            }
                        },
                        Err(_) => {},
                    }
                },
                Err(_) => {},
            }
        },
        Err(_) => {},
    }
}

/// A chain reads something where it matches.
pub proof fn level_advances(s: Seq<u8>, pos: int, table: KeyTable, level: int)
    requires
        0 <= pos <= s.len(),
    ensures
        advances(s, pos, spec_level(s, pos, table, level)),
    decreases s.len() - pos, 10 * level + 5,
{
    if MULTIPLICATIVE <= level <= RELATIONAL {
        operand_advances(s, pos, table, level);
        match spec_operand(s, pos, table, level) {
            Ok((end, first)) => {
                fold_advances(s, end, table, level, first);
            },
            Err(_) => {},
        }
    }
}

/// An operand is read to a place behind where it began.
pub proof fn operand_advances(s: Seq<u8>, pos: int, table: KeyTable, level: int)
    requires
        0 <= pos <= s.len(),
    ensures
        advances(s, pos, spec_operand(s, pos, table, level)),
    decreases s.len() - pos, 10 * level + 3,
{
    if level == MULTIPLICATIVE {
        unary_advances(s, pos, table);
    } else if MULTIPLICATIVE < level <= RELATIONAL {
        level_advances(s, pos, table, level - 1);
    }
}

/// The rest of a chain ends at or behind where it began.
pub proof fn fold_advances(s: Seq<u8>, pos: int, table: KeyTable, level: int, acc: ExprTree)
    requires
        0 <= pos <= s.len(),
    ensures
        pos <= spec_fold(s, pos, table, level, acc).0 <= s.len(),
    decreases s.len() - pos, 10 * level + 4,
{
    match spec_operator(s, skip_spaces(s, pos), level) {
        None => {},
        Some((after, op)) => {
            let at_operand = skip_spaces(s, after);
            if MULTIPLICATIVE <= level <= RELATIONAL && pos <= at_operand <= s.len() {
                match spec_operand(s, at_operand, table, level) {
                    Ok((end, operand)) => {
                        if pos < end <= s.len() {
                            fold_advances(
                                s,
                                end,
                                table,
                                level,
                                ExprTree::Binary(op, Box::new(acc), Box::new(operand)),
                            );
                        }
                    },
                    Err(_) => {},
                }
            }
        },
    }
}

/// An atom, with or without `??` in front of it, reads something where it
/// matches.
pub proof fn unary_advances(s: Seq<u8>, pos: int, table: KeyTable)
    requires
        0 <= pos <= s.len(),
    ensures
        advances(s, pos, spec_expr_3(s, pos, table)),
        advances(s, pos, spec_expr_4(s, pos, table)),
        advances(s, pos, spec_atom(s, pos, table)),
    decreases s.len() - pos, 15int,
{
    negation_token();
    atom_advances(s, pos, table);
    match spec_tag(s, pos, "??") {
        Ok(after) => {
            atom_advances(s, after, table);
        },
        Err(_) => {},
    }
}

proof fn atom_advances(s: Seq<u8>, pos: int, table: KeyTable)
    requires
        0 <= pos <= s.len(),
    ensures
        advances(s, pos, spec_atom(s, pos, table)),
        advances(s, pos, spec_expr_4(s, pos, table)),
    decreases s.len() - pos, 4int,
{
    leaves_advance(s, pos, table);
    group_advances(s, pos, table);
    declaration_advances(s, pos, table);
    assignment_advances(s, pos, table);
    call_advances(s, pos, table);
    match spec_atom(s, pos, table) {
        Ok((end, _)) => {
            skip_spaces_bounds(s, end);
        },
        Err(_) => {},
    }
}

/// An expression reads something where it matches.
pub proof fn expr_advances(s: Seq<u8>, pos: int, table: KeyTable)
    requires
        0 <= pos <= s.len(),
    ensures
        advances(s, pos, spec_expr(s, pos, table)),
    decreases s.len() - pos, 46int,
{
    level_advances(s, pos, table, RELATIONAL as int);
}

proof fn group_advances(s: Seq<u8>, pos: int, table: KeyTable)
    requires
        0 <= pos <= s.len(),
    ensures
        advances(s, pos, spec_group(s, pos, table)),
    decreases s.len() - pos, 3int,
{
    open_token();
    close_token();
    match spec_tag(s, pos, "(") {
        Ok(inner) => {
            expr_advances(s, inner, table);
        },
        Err(_) => {},
    }
}

proof fn value_advances(s: Seq<u8>, from: int, pos: int, table: KeyTable)
    requires
        0 <= from < pos <= s.len(),
    ensures
        spec_assigned(s, from, pos, table) matches Ok((end, _)) ==> pos < end <= s.len(),
    decreases s.len() - from, 2int,
{
    assign_token();
    skip_spaces_bounds(s, pos);
    match spec_tag(s, skip_spaces(s, pos), "=") {
        Ok(after) => {
            skip_spaces_bounds(s, after);
            expr_advances(s, skip_spaces(s, after), table);
        },
        Err(_) => {},
    }
}

proof fn declaration_advances(s: Seq<u8>, pos: int, table: KeyTable)
    requires
        0 <= pos <= s.len(),
    ensures
        advances(s, pos, spec_variable_initialization(s, pos, table)),
    decreases s.len() - pos, 3int,
{
    let_token();
    match spec_tag(s, pos, "let") {
        Ok(after) => {
            skip_spaces_bounds(s, after);
            match spec_ws1(s, after) {
                Ok(at_name) => {
                    leaves_advance(s, at_name, table);
                    match spec_ident(s, at_name) {
                        Ok((after_name, _)) => {
                            value_advances(s, pos, after_name, table);
                        },
                        Err(_) => {},
                    }
                },
                Err(_) => {},
            }
        },
        Err(_) => {},
    }
}

proof fn assignment_advances(s: Seq<u8>, pos: int, table: KeyTable)
    requires
        0 <= pos <= s.len(),
    ensures
        advances(s, pos, spec_variable_assignment(s, pos, table)),
    decreases s.len() - pos, 3int,
{
    leaves_advance(s, pos, table);
    match spec_ident(s, pos) {
        Ok((after_name, _)) => {
            value_advances(s, pos, after_name, table);
        },
        Err(_) => {},
    }
}

proof fn call_advances(s: Seq<u8>, pos: int, table: KeyTable)
    requires
        0 <= pos <= s.len(),
    ensures
        advances(s, pos, spec_function_call(s, pos, table)),
    decreases s.len() - pos, 3int,
{
    open_token();
    close_token();
    leaves_advance(s, pos, table);
    match spec_ident(s, pos) {
        Ok((at_paren, _)) => {
            match spec_tag(s, at_paren, "(") {
                Ok(after) => {
                    skip_spaces_bounds(s, after);
                    arguments_advance(s, skip_spaces(s, after), table);
                },
                Err(_) => {},
            }
        },
        Err(_) => {},
    }
}

/// The arguments of a call end at or behind where they began.
pub proof fn arguments_advance(s: Seq<u8>, pos: int, table: KeyTable)
    requires
        0 <= pos <= s.len(),
    ensures
        pos <= spec_arguments(s, pos, table).0 <= s.len(),
    decreases s.len() - pos, 50int,
{
    match spec_expr(s, pos, table) {
        Ok((end, first)) => {
            if pos <= end <= s.len() {
                more_arguments_advance(s, end, table, seq![first]);
            }
        },
        Err(_) => {},
    }
}

proof fn more_arguments_advance(s: Seq<u8>, pos: int, table: KeyTable, list: Seq<ExprTree>)
    requires
        0 <= pos <= s.len(),
    ensures
        pos <= spec_more_arguments(s, pos, table, list).0 <= s.len(),
    decreases s.len() - pos, 48int,
{
    match spec_tag(s, pos, ",") {
        Ok(after) => {
            let at_next = skip_spaces(s, after);
            if pos <= at_next <= s.len() {
                match spec_expr(s, at_next, table) {
                    Ok((end, next)) => {
                        if pos < end <= s.len() {
                            more_arguments_advance(s, end, table, list.push(next));
                        }
                    },
                    Err(_) => {},
                }
            }
        },
        Err(_) => {},
    }
}

/// An operator of a level ends behind where it began.
proof fn operator_advances(s: Seq<u8>, pos: int, level: int)
    requires
        0 <= pos <= s.len(),
    ensures
        spec_operator(s, pos, level) matches Some((after, _)) ==> pos < after <= s.len(),
{
    star_token();
    slash_token();
    plus_token();
    minus_token();
    equal_token();
    unequal_token();
    and_token();
    or_token();
    less_token();
    greater_token();
}

/// The operands of a level are what the next tighter level reads: those of
/// the comparisons are sums, those of the sums are products, and those of
/// the products are atoms with or without `??`.
pub proof fn operands_are_the_tighter_level(s: Seq<u8>, pos: int, table: KeyTable)
    ensures
        spec_operand(s, pos, table, RELATIONAL as int) == spec_expr_1(s, pos, table),
        spec_operand(s, pos, table, ADDITIVE as int) == spec_expr_2(s, pos, table),
        spec_operand(s, pos, table, MULTIPLICATIVE as int) == spec_expr_3(s, pos, table),
{
}

/// A chain is its first operand and what follows it, folded onto it.
pub proof fn chain_begins_with_an_operand(s: Seq<u8>, pos: int, table: KeyTable, level: int)
    requires
        0 <= pos <= s.len(),
        MULTIPLICATIVE <= level <= RELATIONAL,
    ensures
        spec_level(s, pos, table, level) == match spec_operand(s, pos, table, level) {
            Err(f) => Err::<(int, ExprTree), Failure>(f),
            Ok((end, first)) => Ok(spec_fold(s, end, table, level, first)),
        },
{
    operand_advances(s, pos, table, level);
}

/// Chains associate to the left: where an operator of the level and an
/// operand follow what was read, the operator takes all that was read as
/// its left operand, and the chain goes on behind the operand.
pub proof fn chains_associate_to_the_left(
    s: Seq<u8>,
    pos: int,
    table: KeyTable,
    level: int,
    acc: ExprTree,
)
    requires
        0 <= pos <= s.len(),
        MULTIPLICATIVE <= level <= RELATIONAL,
    ensures
        spec_fold(s, pos, table, level, acc) == match spec_operator(s, skip_spaces(s, pos), level) {
            None => (pos, acc),
            Some((after, op)) => match spec_operand(s, skip_spaces(s, after), table, level) {
                Err(_) => (pos, acc),
                Ok((end, operand)) => spec_fold(
                    s,
                    end,
                    table,
                    level,
                    ExprTree::Binary(op, Box::new(acc), Box::new(operand)),
                ),
            },
        },
{
    skip_spaces_bounds(s, pos);
    operator_advances(s, skip_spaces(s, pos), level);
    match spec_operator(s, skip_spaces(s, pos), level) {
        None => {},
        Some((after, op)) => {
            skip_spaces_bounds(s, after);
            operand_advances(s, skip_spaces(s, after), table, level);
        },
    }
}

/// The comparisons and the logical operators are one level: each of
/// them is read where it stands, whichever was read before it.
pub proof fn relational_operators_share_a_level(s: Seq<u8>, pos: int)
    ensures
        spec_operator(s, pos, RELATIONAL as int) matches Some((_, op)) ==> op == BinaryOp::Eq || op
            == BinaryOp::Neq || op == BinaryOp::And || op == BinaryOp::Or || op == BinaryOp::LT
            || op == BinaryOp::GT,
        spec_operator(s, pos, ADDITIVE as int) matches Some((_, op)) ==> op == BinaryOp::Add || op
            == BinaryOp::Sub,
        spec_operator(s, pos, MULTIPLICATIVE as int) matches Some((_, op)) ==> op == BinaryOp::Mul
            || op == BinaryOp::Div,
{
}

/// Whether `list` is the beginning of `all`.
pub open spec fn begins_with<T>(all: Seq<T>, list: Seq<T>) -> bool {
    list.len() <= all.len() && all.subrange(0, list.len() as int) == list
}

/// The statements of a body stand in the order in which they were read:
/// what was read before stays in front of what is read behind it.
pub proof fn statements_stay_in_order(s: Seq<u8>, pos: int, table: KeyTable, list: Seq<StmtTree>)
    ensures
        begins_with(spec_more_statements(s, pos, table, list).1.statements, list),
    decreases s.len() - pos,
{
    let at_next = skip_spaces(s, pos);
    let all = spec_more_statements(s, pos, table, list).1.statements;
    if pos <= at_next <= s.len() {
        match spec_stmt(s, at_next, table) {
            Ok((end, next)) => {
                if pos < end <= s.len() {
                    statements_stay_in_order(s, end, table, list.push(next));
                    assert(all.subrange(0, list.len() as int) =~= all.subrange(
                        0,
                        list.len() as int + 1,
                    ).subrange(0, list.len() as int));
                    assert(list.push(next).subrange(0, list.len() as int) =~= list);
                } else {
                    assert(all.subrange(0, list.len() as int) =~= list);
                }
            },
            Err(_) => {
                assert(all.subrange(0, list.len() as int) =~= list);
            },
        }
    } else {
        assert(all.subrange(0, list.len() as int) =~= list);
    }
}

/// The arguments of a call stand in the order in which they were read.
pub proof fn arguments_stay_in_order(s: Seq<u8>, pos: int, table: KeyTable, list: Seq<ExprTree>)
    ensures
        begins_with(spec_more_arguments(s, pos, table, list).1, list),
    decreases s.len() - pos,
{
    let all = spec_more_arguments(s, pos, table, list).1;
    assert(list.subrange(0, list.len() as int) =~= list);
    match spec_tag(s, pos, ",") {
        Ok(after) => {
            let at_next = skip_spaces(s, after);
            if pos <= at_next <= s.len() {
                match spec_expr(s, at_next, table) {
                    Ok((end, next)) => {
                        if pos < end <= s.len() {
                            arguments_stay_in_order(s, end, table, list.push(next));
                            assert(all.subrange(0, list.len() as int) =~= all.subrange(
                                0,
                                list.len() as int + 1,
                            ).subrange(0, list.len() as int));
                            assert(list.push(next).subrange(0, list.len() as int) =~= list);
                        }
                    },
                    Err(_) => {},
                }
            }
        },
        Err(_) => {},
    }
}

/// A body begins with the statement that is read first, if there is one,
/// and is empty if there is none.
pub proof fn body_begins_with_its_first_statement(s: Seq<u8>, pos: int, table: KeyTable)
    ensures
        spec_stmt(s, pos, table) is Err ==> spec_block_body(s, pos, table) == (
            pos,
            BlockTree { statements: Seq::<StmtTree>::empty() },
        ),
        spec_stmt(s, pos, table) matches Ok((end, first)) ==> (pos <= end <= s.len()
            ==> begins_with(spec_block_body(s, pos, table).1.statements, seq![first])),
{
    match spec_stmt(s, pos, table) {
        Ok((end, first)) => {
            if pos <= end <= s.len() {
                statements_stay_in_order(s, end, table, seq![first]);
            }
        },
        Err(_) => {},
    }
}

/// The key of a key reference.
pub open spec fn key_code(key: ParsedSingleKey) -> u16 {
    match key {
        ParsedSingleKey::Key(key) => key.code,
        ParsedSingleKey::CapitalKey(key) => key.code,
    }
}

/// Every key that the grammar gives comes from the registry: it is what the
/// name that was written, put in upper case, resolves to.
pub proof fn keys_come_from_the_registry(s: Seq<u8>, pos: int, table: KeyTable)
    ensures
        spec_key(s, pos, table) matches Ok((_, key)) ==> spec_ident(s, pos) is Ok && table.resolve(
            upper_seq(spec_ident(s, pos)->Ok_0.1),
        ) == Some(key_code(key)),
{
}

} // verus!
