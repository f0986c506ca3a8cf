//! The expression grammar: five levels, the tightest first.
//!
//! `expr_4` reads an atom, `expr_3` an optional `??` in front of one,
//! `expr_2` a chain of `*` and `/`, `expr_1` a chain of `+` and `-`, and `expr`
//! a chain of `==`, `!=`, `&&`, `||`, `<` and `>`. A chain is read from left to
//! right, and each operator takes all that was read before it as its left
//! operand.
//!
//! Where a rule goes on behind another one, it first asks that the other one
//! has stopped within the input and not in front of where it began. That
//! keeps the definitions well-founded and never decides anything: a rule that
//! matches always reads something (see `laws`).

use vstd::prelude::*;
use crate::ast::{expr_trees, BinaryOp, Expr, ExprTree};
use crate::parsing::error::{CustomError, Failure};
use crate::parsing::key::{key_mapping_inline, spec_key_mapping_inline};
use crate::parsing::primitives::{
    boolean,
    ident,
    number,
    or_else,
    outcome,
    skip_spaces,
    spec_boolean,
    spec_ident,
    spec_number,
    spec_string,
    spec_tag,
    spec_ws1,
    string,
    token,
    ws0,
    ws1,
    Parsed,
};
use crate::parsing::tokens::tokens;
use crate::registry::{KeyRegistry, KeyTable};
use crate::text::{starts_with_at, tag, utf8};

verus! {

/// The level of the chains of `*` and `/`.
pub const MULTIPLICATIVE: u8 = 2;

/// The level of the chains of `+` and `-`.
pub const ADDITIVE: u8 = 3;

/// The level of the chains of comparisons and logical operators.
pub const RELATIONAL: u8 = 4;

/// The operator of the given level that stands at `pos`, and where it ends.
/// The operators of a level are tried in the order in which they are listed.
pub open spec fn spec_operator(s: Seq<u8>, pos: int, level: int) -> Option<(int, BinaryOp)> {
    if level == MULTIPLICATIVE {
        if starts_with_at(s, pos, utf8("*")) {
            Some((pos + utf8("*").len(), BinaryOp::Mul))
        } else if starts_with_at(s, pos, utf8("/")) {
            Some((pos + utf8("/").len(), BinaryOp::Div))
        } else {
            None
        }
    } else if level == ADDITIVE {
        if starts_with_at(s, pos, utf8("+")) {
            Some((pos + utf8("+").len(), BinaryOp::Add))
        } else if starts_with_at(s, pos, utf8("-")) {
            Some((pos + utf8("-").len(), BinaryOp::Sub))
        } else {
            None
        }
    } else {
        if starts_with_at(s, pos, utf8("==")) {
            Some((pos + utf8("==").len(), BinaryOp::Eq))
        } else if starts_with_at(s, pos, utf8("!=")) {
            Some((pos + utf8("!=").len(), BinaryOp::Neq))
        } else if starts_with_at(s, pos, utf8("&&")) {
            Some((pos + utf8("&&").len(), BinaryOp::And))
        } else if starts_with_at(s, pos, utf8("||")) {
            Some((pos + utf8("||").len(), BinaryOp::Or))
        } else if starts_with_at(s, pos, utf8("<")) {
            Some((pos + utf8("<").len(), BinaryOp::LT))
        } else if starts_with_at(s, pos, utf8(">")) {
            Some((pos + utf8(">").len(), BinaryOp::GT))
        } else {
            None
        }
    }
}

/// A variable: an identifier.
pub open spec fn spec_variable(s: Seq<u8>, pos: int) -> Parsed<ExprTree> {
    match spec_ident(s, pos) {
        Err(f) => Err(f),
        Ok((end, name)) => Ok((end, ExprTree::Variable(name))),
    }
}

/// An expression: a chain of the relational level.
pub open spec fn spec_expr(s: Seq<u8>, pos: int, table: KeyTable) -> Parsed<ExprTree>
    decreases s.len() - pos, 46int,
{
    spec_level(s, pos, table, RELATIONAL as int)
}

/// A chain of `+` and `-`.
pub open spec fn spec_expr_1(s: Seq<u8>, pos: int, table: KeyTable) -> Parsed<ExprTree> {
    spec_level(s, pos, table, ADDITIVE as int)
}

/// A chain of `*` and `/`.
pub open spec fn spec_expr_2(s: Seq<u8>, pos: int, table: KeyTable) -> Parsed<ExprTree> {
    spec_level(s, pos, table, MULTIPLICATIVE as int)
}

/// A chain of the given level: a first operand, and then operators with
/// their operands as far as they go.
pub open spec fn spec_level(s: Seq<u8>, pos: int, table: KeyTable, level: int) -> Parsed<ExprTree>
    decreases s.len() - pos, 10 * level + 5,
{
    if MULTIPLICATIVE <= level <= RELATIONAL {
        match spec_operand(s, pos, table, level) {
            Err(f) => Err(f),
            Ok((end, first)) => if pos <= end <= s.len() {
                Ok(spec_fold(s, end, table, level, first))
            } else {
                Ok((end, first))
            },
        }
    } else {
        Err(Failure::expecting(pos, "expression"))
    }
}

/// An operand of a chain of the given level: what the next tighter
/// level reads.
pub open spec fn spec_operand(s: Seq<u8>, pos: int, table: KeyTable, level: int) -> Parsed<
    ExprTree,
>
    decreases s.len() - pos, 10 * level + 3,
{
    if level == MULTIPLICATIVE {
        spec_expr_3(s, pos, table)
    } else if MULTIPLICATIVE < level <= RELATIONAL {
        spec_level(s, pos, table, level - 1)
    } else {
        Err(Failure::expecting(pos, "expression"))
    }
}

/// The rest of a chain of the given level, of which `acc` was read up to `pos`:
/// white space, an operator, white space and an operand, again and again. Where
/// that no longer matches the chain ends, at the place that the last operand
/// left, and nothing fails.
pub open spec fn spec_fold(s: Seq<u8>, pos: int, table: KeyTable, level: int, acc: ExprTree) -> (
    int,
    ExprTree,
)
    decreases s.len() - pos, 10 * level + 4,
{
    match spec_operator(s, skip_spaces(s, pos), level) {
        None => (pos, acc),
        Some((after, op)) => {
            let at_operand = skip_spaces(s, after);
            if MULTIPLICATIVE <= level <= RELATIONAL && pos <= at_operand <= s.len() {
                match spec_operand(s, at_operand, table, level) {
                    Ok((end, operand)) if pos < end <= s.len() => spec_fold(
                        s,
                        end,
                        table,
                        level,
                        ExprTree::Binary(op, Box::new(acc), Box::new(operand)),
                    ),
                    _ => (pos, acc),
                }
            } else {
                (pos, acc)
            }
        },
    }
}

/// An atom with `??` in front of it, which negates it, or an atom.
pub open spec fn spec_expr_3(s: Seq<u8>, pos: int, table: KeyTable) -> Parsed<ExprTree>
    decreases s.len() - pos, 15int,
{
    or_else(
        match spec_tag(s, pos, "??") {
            Err(f) => Err(f),
            Ok(after) => if pos < after <= s.len() {
                match spec_expr_4(s, after, table) {
                    Err(f) => Err(f),
                    Ok((end, e)) => Ok((end, ExprTree::Neg(Box::new(e)))),
                }
            } else {
                Err(Failure::expecting(pos, "??"))
            },
        },
        spec_expr_4(s, pos, table),
    )
}

/// An atom, and the white space after it.
pub open spec fn spec_expr_4(s: Seq<u8>, pos: int, table: KeyTable) -> Parsed<ExprTree>
    decreases s.len() - pos, 5int,
{
    match spec_atom(s, pos, table) {
        Err(f) => Err(f),
        Ok((end, e)) => Ok((skip_spaces(s, end), e)),
    }
}

/// An atom: the first that matches of an expression in parentheses, a
/// boolean, a string, a number, a declaration, an assignment, a call, a key
/// mapping and a variable.
pub open spec fn spec_atom(s: Seq<u8>, pos: int, table: KeyTable) -> Parsed<ExprTree>
    decreases s.len() - pos, 4int,
{
    or_else(
        or_else(
            or_else(
                or_else(
                    or_else(
                        or_else(
                            or_else(
                                or_else(spec_group(s, pos, table), spec_boolean(s, pos)),
                                spec_string(s, pos),
                            ),
                            spec_number(s, pos),
                        ),
                        spec_variable_initialization(s, pos, table),
                    ),
                    spec_variable_assignment(s, pos, table),
                ),
                spec_function_call(s, pos, table),
            ),
            spec_key_mapping_inline(s, pos, table),
        ),
        spec_variable(s, pos),
    )
}

/// An expression in parentheses: `(`, an expression, `)`.
pub open spec fn spec_group(s: Seq<u8>, pos: int, table: KeyTable) -> Parsed<ExprTree>
    decreases s.len() - pos, 3int,
{
    match spec_tag(s, pos, "(") {
        Err(f) => Err(f),
        Ok(inner) => if pos < inner <= s.len() {
            match spec_expr(s, inner, table) {
                Err(f) => Err(f),
                Ok((at_close, e)) => match spec_tag(s, at_close, ")") {
                    Err(f) => Err(f),
                    Ok(end) => Ok((end, e)),
                },
            }
        } else {
            Err(Failure::expecting(pos, "("))
        },
    }
}

/// The value of a declaration or an assignment: `=` between optional white
/// space, and an expression.
pub open spec fn spec_assigned(s: Seq<u8>, from: int, pos: int, table: KeyTable) -> Parsed<
    ExprTree,
>
    decreases s.len() - from, 2int,
{
    match spec_tag(s, skip_spaces(s, pos), "=") {
        Err(f) => Err(f),
        Ok(after) => {
            let at_value = skip_spaces(s, after);
            if from < at_value <= s.len() {
                spec_expr(s, at_value, table)
            } else {
                Err(Failure::expecting(at_value, "expression"))
            }
        },
    }
}

/// A declaration: `let`, white space, a name, and the value.
pub open spec fn spec_variable_initialization(s: Seq<u8>, pos: int, table: KeyTable) -> Parsed<
    ExprTree,
>
    decreases s.len() - pos, 3int,
{
    match spec_tag(s, pos, "let") {
        Err(f) => Err(f),
        Ok(after) => match spec_ws1(s, after) {
            Err(f) => Err(f),
            Ok(at_name) => match spec_ident(s, at_name) {
                Err(f) => Err(f),
                Ok((after_name, name)) => match spec_assigned(s, pos, after_name, table) {
                    Err(f) => Err(f),
                    Ok((end, e)) => Ok((end, ExprTree::VariableInit(name, Box::new(e)))),
                },
            },
        },
    }
}

/// An assignment: a name and the value.
pub open spec fn spec_variable_assignment(s: Seq<u8>, pos: int, table: KeyTable) -> Parsed<
    ExprTree,
>
    decreases s.len() - pos, 3int,
{
    match spec_ident(s, pos) {
        Err(f) => Err(f),
        Ok((after_name, name)) => match spec_assigned(s, pos, after_name, table) {
            Err(f) => Err(f),
            Ok((end, e)) => Ok((end, ExprTree::VariableAssign(name, Box::new(e)))),
        },
    }
}

/// A call: a name, `(`, optional white space, the arguments, `)`.
pub open spec fn spec_function_call(s: Seq<u8>, pos: int, table: KeyTable) -> Parsed<ExprTree>
    decreases s.len() - pos, 3int,
{
    match spec_ident(s, pos) {
        Err(f) => Err(f),
        Ok((at_paren, name)) => match spec_tag(s, at_paren, "(") {
            Err(f) => Err(f),
            Ok(after) => {
                let at_arguments = skip_spaces(s, after);
                if pos < at_arguments <= s.len() {
                    let (at_close, arguments) = spec_arguments(s, at_arguments, table);
                    match spec_tag(s, at_close, ")") {
                        Err(f) => Err(f),
                        Ok(end) => Ok((end, ExprTree::FunctionCall(name, arguments))),
                    }
                } else {
                    Err(Failure::expecting(at_arguments, "expression"))
                }
            },
        },
    }
}

/// The arguments of a call: none, or expressions with `,` between them.
pub open spec fn spec_arguments(s: Seq<u8>, pos: int, table: KeyTable) -> (int, Seq<ExprTree>)
    decreases s.len() - pos, 50int,
{
    match spec_expr(s, pos, table) {
        Ok((end, first)) if pos <= end <= s.len() => spec_more_arguments(
            s,
            end,
            table,
            seq![first],
        ),
        _ => (pos, Seq::empty()),
    }
}

/// The arguments after those in `list`: `,`, optional white space and an
/// expression, again and again.
pub open spec fn spec_more_arguments(
    s: Seq<u8>,
    pos: int,
    table: KeyTable,
    list: Seq<ExprTree>,
) -> (int, Seq<ExprTree>)
    decreases s.len() - pos, 48int,
{
    match spec_tag(s, pos, ",") {
        Err(_) => (pos, list),
        Ok(after) => {
            let at_next = skip_spaces(s, after);
            if pos <= at_next <= s.len() {
                match spec_expr(s, at_next, table) {
                    Ok((end, next)) if pos < end <= s.len() => spec_more_arguments(
                        s,
                        end,
                        table,
                        list.push(next),
                    ),
                    _ => (pos, list),
                }
            } else {
                (pos, list)
            }
        },
    }
}

fn operator(input: &[u8], pos: usize, level: u8) -> (r: Option<(usize, BinaryOp)>)
    requires
        pos <= input.len(),
        MULTIPLICATIVE <= level <= RELATIONAL,
    ensures
        match r {
            Some((end, op)) => spec_operator(input@, pos as int, level as int) == Some(
                (end as int, op),
            ) && pos < end <= input.len(),
            None => spec_operator(input@, pos as int, level as int) is None,
        },
{
    proof {
        tokens();
    }
    if level == MULTIPLICATIVE {
        if tag(input, pos, "*") {
            Some((pos + 1, BinaryOp::Mul))
        } else if tag(input, pos, "/") {
            Some((pos + 1, BinaryOp::Div))
        } else {
            None
        }
    } else if level == ADDITIVE {
        if tag(input, pos, "+") {
            Some((pos + 1, BinaryOp::Add))
        } else if tag(input, pos, "-") {
            Some((pos + 1, BinaryOp::Sub))
        } else {
            None
        }
    } else {
        if tag(input, pos, "==") {
            Some((pos + 2, BinaryOp::Eq))
        } else if tag(input, pos, "!=") {
            Some((pos + 2, BinaryOp::Neq))
        } else if tag(input, pos, "&&") {
            Some((pos + 2, BinaryOp::And))
        } else if tag(input, pos, "||") {
            Some((pos + 2, BinaryOp::Or))
        } else if tag(input, pos, "<") {
            Some((pos + 1, BinaryOp::LT))
        } else if tag(input, pos, ">") {
            Some((pos + 1, BinaryOp::GT))
        } else {
            None
        }
    }
}

/// Reads a variable.
pub fn variable(input: &[u8], pos: usize) -> (r: Result<(usize, Expr), CustomError>)
    requires
        pos <= input.len(),
    ensures
        outcome(r) == spec_variable(input@, pos as int),
        r matches Ok((end, _)) ==> pos < end <= input.len(),
{
    match ident(input, pos) {
        Err(err) => Err(err),
        Ok((end, name)) => Ok((end, Expr::Variable(name))),
    }
}

/// Reads an expression.
pub fn expr(input: &[u8], pos: usize, keys: &KeyRegistry) -> (r: Result<(usize, Expr), CustomError>)
    requires
        pos <= input.len(),
    ensures
        outcome(r) == spec_expr(input@, pos as int, keys@),
        r matches Ok((end, _)) ==> pos < end <= input.len(),
    decreases input.len() - pos, 46int,
{
    chain(input, pos, keys, RELATIONAL)
}

/// Reads a chain of `+` and `-`.
pub fn expr_1(input: &[u8], pos: usize, keys: &KeyRegistry) -> (r: Result<
    (usize, Expr),
    CustomError,
>)
    requires
        pos <= input.len(),
    ensures
        outcome(r) == spec_expr_1(input@, pos as int, keys@),
        r matches Ok((end, _)) ==> pos < end <= input.len(),
{
    chain(input, pos, keys, ADDITIVE)
}

/// Reads a chain of `*` and `/`.
pub fn expr_2(input: &[u8], pos: usize, keys: &KeyRegistry) -> (r: Result<
    (usize, Expr),
    CustomError,
>)
    requires
        pos <= input.len(),
    ensures
        outcome(r) == spec_expr_2(input@, pos as int, keys@),
        r matches Ok((end, _)) ==> pos < end <= input.len(),
{
    chain(input, pos, keys, MULTIPLICATIVE)
}

fn chain(input: &[u8], pos: usize, keys: &KeyRegistry, level: u8) -> (r: Result<
    (usize, Expr),
    CustomError,
>)
    requires
        pos <= input.len(),
        MULTIPLICATIVE <= level <= RELATIONAL,
    ensures
        outcome(r) == spec_level(input@, pos as int, keys@, level as int),
        r matches Ok((end, _)) ==> pos < end <= input.len(),
    decreases input.len() - pos, 10 * level + 5,
{
    match operand(input, pos, keys, level) {
        Err(err) => Err(err),
        Ok((end, first)) => Ok(fold(input, end, keys, level, first)),
    }
}

fn operand(input: &[u8], pos: usize, keys: &KeyRegistry, level: u8) -> (r: Result<
    (usize, Expr),
    CustomError,
>)
    requires
        pos <= input.len(),
        MULTIPLICATIVE <= level <= RELATIONAL,
    ensures
        outcome(r) == spec_operand(input@, pos as int, keys@, level as int),
        r matches Ok((end, _)) ==> pos < end <= input.len(),
    decreases input.len() - pos, 10 * level + 3,
{
    if level == MULTIPLICATIVE {
        expr_3(input, pos, keys)
    } else {
        chain(input, pos, keys, level - 1)
    }
}

fn fold(input: &[u8], pos: usize, keys: &KeyRegistry, level: u8, first: Expr) -> (r: (usize, Expr))
    requires
        pos <= input.len(),
        MULTIPLICATIVE <= level <= RELATIONAL,
    ensures
        (r.0 as int, r.1@) == spec_fold(input@, pos as int, keys@, level as int, first@),
        pos <= r.0 <= input.len(),
    decreases input.len() - pos, 10 * level + 4,
{
    let mut acc = first;
    let mut at: usize = pos;
    loop
        invariant
            pos <= at <= input.len(),
            MULTIPLICATIVE <= level <= RELATIONAL,
            spec_fold(input@, pos as int, keys@, level as int, first@) == spec_fold(
                input@,
                at as int,
                keys@,
                level as int,
                acc@,
            ),
        ensures
            pos <= at <= input.len(),
            (at as int, acc@) == spec_fold(input@, pos as int, keys@, level as int, first@),
        decreases input.len() - at,
    {
        let at_operator = ws0(input, at);
        match operator(input, at_operator, level) {
            None => {
                break ;
            },
            Some((after, op)) => {
                let at_operand = ws0(input, after);
                match operand(input, at_operand, keys, level) {
                    Err(_) => {
                        break ;
                    },
                    Ok((end, term)) => {
                        acc = Expr::binary(op, acc, term);
                        at = end;
                    },
                }
            },
        }
    }
    (at, acc)
}

/// Reads an atom that `??` may stand in front of.
pub fn expr_3(input: &[u8], pos: usize, keys: &KeyRegistry) -> (r: Result<
    (usize, Expr),
    CustomError,
>)
    requires
        pos <= input.len(),
    ensures
        outcome(r) == spec_expr_3(input@, pos as int, keys@),
        r matches Ok((end, _)) ==> pos < end <= input.len(),
    decreases input.len() - pos, 15int,
{
    proof {
        tokens();
    }
    let negated = match token(input, pos, "??") {
        Err(err) => Err(err),
        Ok(after) => match expr_4(input, after, keys) {
            Err(err) => Err(err),
            Ok((end, e)) => Ok((end, Expr::Neg(Box::new(e)))),
        },
    };
    match negated {
        Ok(found) => Ok(found),
        Err(first) => match expr_4(input, pos, keys) {
            Ok(found) => Ok(found),
            Err(second) => Err(first.or(second)),
        },
    }
}

/// Reads an atom and the white space after it.
pub fn expr_4(input: &[u8], pos: usize, keys: &KeyRegistry) -> (r: Result<
    (usize, Expr),
    CustomError,
>)
    requires
        pos <= input.len(),
    ensures
        outcome(r) == spec_expr_4(input@, pos as int, keys@),
        r matches Ok((end, _)) ==> pos < end <= input.len(),
    decreases input.len() - pos, 5int,
{
    match atom(input, pos, keys) {
        Err(err) => Err(err),
        Ok((end, e)) => Ok((ws0(input, end), e)),
    }
}

fn atom(input: &[u8], pos: usize, keys: &KeyRegistry) -> (r: Result<(usize, Expr), CustomError>)
    requires
        pos <= input.len(),
    ensures
        outcome(r) == spec_atom(input@, pos as int, keys@),
        r matches Ok((end, _)) ==> pos < end <= input.len(),
    decreases input.len() - pos, 4int,
{
    let failure = match group(input, pos, keys) {
        Ok(found) => {
            return Ok(found);
        },
        Err(err) => err,
    };
    let failure = match boolean(input, pos) {
        Ok(found) => {
            return Ok(found);
        },
        Err(err) => failure.or(err),
    };
    let failure = match string(input, pos) {
        Ok(found) => {
            return Ok(found);
        },
        Err(err) => failure.or(err),
    };
    let failure = match number(input, pos) {
        Ok(found) => {
            return Ok(found);
        },
        Err(err) => failure.or(err),
    };
    let failure = match variable_initialization(input, pos, keys) {
        Ok(found) => {
            return Ok(found);
        },
        Err(err) => failure.or(err),
    };
    let failure = match variable_assignment(input, pos, keys) {
        Ok(found) => {
            return Ok(found);
        },
        Err(err) => failure.or(err),
    };
    let failure = match function_call(input, pos, keys) {
        Ok(found) => {
            return Ok(found);
        },
        Err(err) => failure.or(err),
    };
    let failure = match key_mapping_inline(input, pos, keys) {
        Ok(found) => {
            return Ok(found);
        },
        Err(err) => failure.or(err),
    };
    match variable(input, pos) {
        Ok(found) => Ok(found),
        Err(err) => Err(failure.or(err)),
    }
}

fn group(input: &[u8], pos: usize, keys: &KeyRegistry) -> (r: Result<(usize, Expr), CustomError>)
    requires
        pos <= input.len(),
    ensures
        outcome(r) == spec_group(input@, pos as int, keys@),
        r matches Ok((end, _)) ==> pos < end <= input.len(),
    decreases input.len() - pos, 3int,
{
    proof {
        tokens();
    }
    match token(input, pos, "(") {
        Err(err) => Err(err),
        Ok(inner) => match expr(input, inner, keys) {
            Err(err) => Err(err),
            Ok((at_close, e)) => match token(input, at_close, ")") {
                Err(err) => Err(err),
                Ok(end) => Ok((end, e)),
            },
        },
    }
}

fn assigned(input: &[u8], from: usize, pos: usize, keys: &KeyRegistry) -> (r: Result<
    (usize, Expr),
    CustomError,
>)
    requires
        from < pos <= input.len(),
    ensures
        outcome(r) == spec_assigned(input@, from as int, pos as int, keys@),
        r matches Ok((end, _)) ==> pos < end <= input.len(),
    decreases input.len() - from, 2int,
{
    match token(input, ws0(input, pos), "=") {
        Err(err) => Err(err),
        Ok(after) => expr(input, ws0(input, after), keys),
    }
}

fn variable_initialization(input: &[u8], pos: usize, keys: &KeyRegistry) -> (r: Result<
    (usize, Expr),
    CustomError,
>)
    requires
        pos <= input.len(),
    ensures
        outcome(r) == spec_variable_initialization(input@, pos as int, keys@),
        r matches Ok((end, _)) ==> pos < end <= input.len(),
    decreases input.len() - pos, 3int,
{
    match token(input, pos, "let") {
        Err(err) => Err(err),
        Ok(after) => match ws1(input, after) {
            Err(err) => Err(err),
            Ok(at_name) => match ident(input, at_name) {
                Err(err) => Err(err),
                Ok((after_name, name)) => match assigned(input, pos, after_name, keys) {
                    Err(err) => Err(err),
                    Ok((end, e)) => Ok((end, Expr::VariableInit(name, Box::new(e)))),
                },
            },
        },
    }
}

fn variable_assignment(input: &[u8], pos: usize, keys: &KeyRegistry) -> (r: Result<
    (usize, Expr),
    CustomError,
>)
    requires
        pos <= input.len(),
    ensures
        outcome(r) == spec_variable_assignment(input@, pos as int, keys@),
        r matches Ok((end, _)) ==> pos < end <= input.len(),
    decreases input.len() - pos, 3int,
{
    match ident(input, pos) {
        Err(err) => Err(err),
        Ok((after_name, name)) => match assigned(input, pos, after_name, keys) {
            Err(err) => Err(err),
            Ok((end, e)) => Ok((end, Expr::VariableAssign(name, Box::new(e)))),
        },
    }
}

fn function_call(input: &[u8], pos: usize, keys: &KeyRegistry) -> (r: Result<
    (usize, Expr),
    CustomError,
>)
    requires
        pos <= input.len(),
    ensures
        outcome(r) == spec_function_call(input@, pos as int, keys@),
        r matches Ok((end, _)) ==> pos < end <= input.len(),
    decreases input.len() - pos, 3int,
{
    match ident(input, pos) {
        Err(err) => Err(err),
        Ok((at_paren, name)) => match token(input, at_paren, "(") {
            Err(err) => Err(err),
            Ok(after) => {
                let (at_close, list) = arguments(input, ws0(input, after), keys);
                match token(input, at_close, ")") {
                    Err(err) => Err(err),
                    Ok(end) => Ok((end, Expr::FunctionCall(name, list))),
                }
            },
        },
    }
}

fn arguments(input: &[u8], pos: usize, keys: &KeyRegistry) -> (r: (usize, Vec<Expr>))
    requires
        pos <= input.len(),
    ensures
        (r.0 as int, expr_trees(r.1@)) == spec_arguments(input@, pos as int, keys@),
        pos <= r.0 <= input.len(),
    decreases input.len() - pos, 50int,
{
    let mut list: Vec<Expr> = Vec::new();
    let mut at: usize = pos;
    match expr(input, pos, keys) {
        Err(_) => {
            assert(expr_trees(list@) =~= Seq::empty());
            return (pos, list);
        },
        Ok((end, first)) => {
            list.push(first);
            at = end;
            assert(expr_trees(list@) =~= seq![first@]);
        },
    }
    loop
        invariant
            pos <= at <= input.len(),
            spec_arguments(input@, pos as int, keys@) == spec_more_arguments(
                input@,
                at as int,
                keys@,
                expr_trees(list@),
            ),
        ensures
            pos <= at <= input.len(),
            (at as int, expr_trees(list@)) == spec_arguments(input@, pos as int, keys@),
        decreases input.len() - at,
    {
        match token(input, at, ",") {
            Err(_) => {
                break ;
            },
            Ok(after) => {
                let at_next = ws0(input, after);
                match expr(input, at_next, keys) {
                    Err(_) => {
                        break ;
                    },
                    Ok((end, next)) => {
                        let ghost before = expr_trees(list@);
                        list.push(next);
                        at = end;
                        assert(expr_trees(list@) =~= before.push(next@));
                    },
                }
            },
        }
    }
    (at, list)
}

} // verus!
