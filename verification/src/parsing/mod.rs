//! The grammar of the script language: statements, blocks and whole scripts.
//! The levels below them stand in the modules of this one: `primitives`
//! (white space, tokens, names, literals), `key` (key references) and
//! `expression`. `error` holds the failure of a parse and its message, `render`
//! writes a tree back as text, `laws` and `round_trip` hold what is proved of
//! the grammar as a whole.

pub mod error;
pub mod expression;
pub mod key;
pub mod laws;
pub mod primitives;
pub mod render;
pub mod round_trip;
pub mod tokens;

use vstd::prelude::*;
use crate::ast::{stmt_trees, Block, BlockTree, Stmt, StmtTree};
use crate::parsing::error::{CustomError, Failure};
use crate::parsing::expression::{expr, spec_expr};
use crate::parsing::primitives::{or_else, outcome, skip_spaces, spec_tag, token, ws0, Parsed};
use crate::parsing::tokens::tokens;
use crate::registry::{KeyRegistry, KeyTable};

verus! {

/// An expression as a statement: an expression and `;`.
pub open spec fn spec_expr_stmt(s: Seq<u8>, pos: int, table: KeyTable) -> Parsed<StmtTree> {
    match spec_expr(s, pos, table) {
        Err(f) => Err(f),
        Ok((at_end, e)) => match spec_tag(s, at_end, ";") {
            Err(f) => Err(f),
            Ok(end) => Ok((end, StmtTree::Expr(e))),
        },
    }
}

/// A conditional: `if`, `(`, a condition, `)` and a block, with optional
/// white space between them.
pub open spec fn spec_if_stmt(s: Seq<u8>, pos: int, table: KeyTable) -> Parsed<StmtTree>
    decreases s.len() - pos, 5int,
{
    match spec_tag(s, pos, "if") {
        Err(f) => Err(f),
        Ok(after_if) => match spec_tag(s, skip_spaces(s, after_if), "(") {
            Err(f) => Err(f),
            Ok(after_open) => match spec_expr(s, skip_spaces(s, after_open), table) {
                Err(f) => Err(f),
                Ok((after_condition, condition)) => match spec_tag(
                    s,
                    skip_spaces(s, after_condition),
                    ")",
                ) {
                    Err(f) => Err(f),
                    Ok(after_close) => {
                        let at_body = skip_spaces(s, after_close);
                        if pos < at_body <= s.len() {
                            match spec_block(s, at_body, table) {
                                Err(f) => Err(f),
                                Ok((end, body)) => Ok((end, StmtTree::If(condition, body))),
                            }
                        } else {
                            Err(Failure::expecting(at_body, "{"))
                        }
                    },
                },
            },
        },
    }
}

/// A block as a statement.
pub open spec fn spec_block_stmt(s: Seq<u8>, pos: int, table: KeyTable) -> Parsed<StmtTree>
    decreases s.len() - pos, 6int,
{
    match spec_block(s, pos, table) {
        Err(f) => Err(f),
        Ok((end, body)) => Ok((end, StmtTree::Block(body))),
    }
}

/// A statement: the first that matches of a conditional, an expression
/// with `;`, and a block.
pub open spec fn spec_stmt(s: Seq<u8>, pos: int, table: KeyTable) -> Parsed<StmtTree>
    decreases s.len() - pos, 10int,
{
    or_else(
        or_else(spec_if_stmt(s, pos, table), spec_expr_stmt(s, pos, table)),
        spec_block_stmt(s, pos, table),
    )
}

/// The body of a block: no statement, or statements with optional white
/// space between them, in the order in which they stand. It never fails: it
/// ends where no further statement matches.
pub open spec fn spec_block_body(s: Seq<u8>, pos: int, table: KeyTable) -> (int, BlockTree)
    decreases s.len() - pos, 20int,
{
    match spec_stmt(s, pos, table) {
        Ok((end, first)) if pos <= end <= s.len() => spec_more_statements(
            s,
            end,
            table,
            seq![first],
        ),
        _ => (pos, BlockTree { statements: Seq::empty() }),
    }
}

/// The statements after those in `list`.
pub open spec fn spec_more_statements(
    s: Seq<u8>,
    pos: int,
    table: KeyTable,
    list: Seq<StmtTree>,
) -> (int, BlockTree)
    decreases s.len() - pos, 15int,
{
    let at_next = skip_spaces(s, pos);
    if pos <= at_next <= s.len() {
        match spec_stmt(s, at_next, table) {
            Ok((end, next)) if pos < end <= s.len() => spec_more_statements(
                s,
                end,
                table,
                list.push(next),
            ),
            _ => (pos, BlockTree { statements: list }),
        }
    } else {
        (pos, BlockTree { statements: list })
    }
}

/// A block: `{`, a body and `}`, with optional white space around the body.
pub open spec fn spec_block(s: Seq<u8>, pos: int, table: KeyTable) -> Parsed<BlockTree>
    decreases s.len() - pos, 5int,
{
    match spec_tag(s, pos, "{") {
        Err(f) => Err(f),
        Ok(after_open) => {
            let at_body = skip_spaces(s, after_open);
            if pos < at_body <= s.len() {
                let (after_body, body) = spec_block_body(s, at_body, table);
                match spec_tag(s, skip_spaces(s, after_body), "}") {
                    Err(f) => Err(f),
                    Ok(end) => Ok((end, body)),
                }
            } else {
                Err(Failure::expecting(pos, "{"))
            }
        },
    }
}

/// A whole script: a body with optional white space around it, and no
/// braces. It ends where no further statement matches.
pub open spec fn spec_global_block(s: Seq<u8>, pos: int, table: KeyTable) -> (int, BlockTree) {
    let (after_body, body) = spec_block_body(s, skip_spaces(s, pos), table);
    (skip_spaces(s, after_body), body)
}

/// What parsing a script that must be read to its end gives: the block of
/// its statements, or, where a part of the input is left, the failure of the
/// statement that was tried there.
pub open spec fn spec_script(s: Seq<u8>, table: KeyTable) -> Result<BlockTree, Failure> {
    let (end, body) = spec_global_block(s, 0, table);
    if end == s.len() {
        Ok(body)
    } else {
        match spec_stmt(s, end, table) {
            Err(f) => Err(f),
            Ok(_) => Err(Failure::expecting(end, "statement")),
        }
    }
}

fn expr_stmt(input: &[u8], pos: usize, keys: &KeyRegistry) -> (r: Result<(usize, Stmt), CustomError>)
    requires
        pos <= input.len(),
    ensures
        outcome(r) == spec_expr_stmt(input@, pos as int, keys@),
        r matches Ok((end, _)) ==> pos < end <= input.len(),
{
    match expr(input, pos, keys) {
        Err(err) => Err(err),
        Ok((at_end, e)) => match token(input, at_end, ";") {
            Err(err) => Err(err),
            Ok(end) => Ok((end, Stmt::Expr(e))),
        },
    }
}

/// Reads a conditional.
pub fn if_stmt(input: &[u8], pos: usize, keys: &KeyRegistry) -> (r: Result<
    (usize, Stmt),
    CustomError,
>)
    requires
        pos <= input.len(),
    ensures
        outcome(r) == spec_if_stmt(input@, pos as int, keys@),
        r matches Ok((end, _)) ==> pos < end <= input.len(),
    decreases input.len() - pos, 5int,
{
    proof {
        tokens();
    }
    match token(input, pos, "if") {
        Err(err) => Err(err),
        Ok(after_if) => match token(input, ws0(input, after_if), "(") {
            Err(err) => Err(err),
            Ok(after_open) => match expr(input, ws0(input, after_open), keys) {
                Err(err) => Err(err),
                Ok((after_condition, condition)) => match token(
                    input,
                    ws0(input, after_condition),
                    ")",
                ) {
                    Err(err) => Err(err),
                    Ok(after_close) => match block(input, ws0(input, after_close), keys) {
                        Err(err) => Err(err),
                        Ok((end, body)) => Ok((end, Stmt::If(condition, body))),
                    },
                },
            },
        },
    }
}

fn block_stmt(input: &[u8], pos: usize, keys: &KeyRegistry) -> (r: Result<
    (usize, Stmt),
    CustomError,
>)
    requires
        pos <= input.len(),
    ensures
        outcome(r) == spec_block_stmt(input@, pos as int, keys@),
        r matches Ok((end, _)) ==> pos < end <= input.len(),
    decreases input.len() - pos, 6int,
{
    match block(input, pos, keys) {
        Err(err) => Err(err),
        Ok((end, body)) => Ok((end, Stmt::Block(body))),
    }
}

/// Reads a statement.
pub fn stmt(input: &[u8], pos: usize, keys: &KeyRegistry) -> (r: Result<(usize, Stmt), CustomError>)
    requires
        pos <= input.len(),
    ensures
        outcome(r) == spec_stmt(input@, pos as int, keys@),
        r matches Ok((end, _)) ==> pos < end <= input.len(),
    decreases input.len() - pos, 10int,
{
    let failure = match if_stmt(input, pos, keys) {
        Ok(found) => {
            return Ok(found);
        },
        Err(err) => err,
    };
    let failure = match expr_stmt(input, pos, keys) {
        Ok(found) => {
            return Ok(found);
        },
        Err(err) => failure.or(err),
    };
    match block_stmt(input, pos, keys) {
        Ok(found) => Ok(found),
        Err(err) => Err(failure.or(err)),
    }
}

/// Reads the body of a block. It always succeeds.
pub fn block_body(input: &[u8], pos: usize, keys: &KeyRegistry) -> (r: Result<
    (usize, Block),
    CustomError,
>)
    requires
        pos <= input.len(),
    ensures
        outcome(r) == Ok::<(int, BlockTree), Failure>(spec_block_body(input@, pos as int, keys@)),
        r matches Ok((end, _)) && pos <= end <= input.len(),
    decreases input.len() - pos, 20int,
{
    let mut statements: Vec<Stmt> = Vec::new();
    let mut at: usize = pos;
    match stmt(input, pos, keys) {
        Err(_) => {
            assert(stmt_trees(statements@) =~= Seq::empty());
            return Ok((pos, Block { statements }));
        },
        Ok((end, first)) => {
            statements.push(first);
            at = end;
            assert(stmt_trees(statements@) =~= seq![first@]);
        },
    }
    loop
        invariant
            pos <= at <= input.len(),
            spec_block_body(input@, pos as int, keys@) == spec_more_statements(
                input@,
                at as int,
                keys@,
                stmt_trees(statements@),
            ),
        ensures
            pos <= at <= input.len(),
            (at as int, BlockTree { statements: stmt_trees(statements@) }) == spec_block_body(
                input@,
                pos as int,
                keys@,
            ),
        decreases input.len() - at,
    {
        match stmt(input, ws0(input, at), keys) {
            Err(_) => {
                break ;
            },
            Ok((end, next)) => {
                let ghost before = stmt_trees(statements@);
                statements.push(next);
                at = end;
                assert(stmt_trees(statements@) =~= before.push(next@));
            },
        }
    }
    Ok((at, Block { statements }))
}

/// Reads a block.
pub fn block(input: &[u8], pos: usize, keys: &KeyRegistry) -> (r: Result<(usize, Block), CustomError>)
    requires
        pos <= input.len(),
    ensures
        outcome(r) == spec_block(input@, pos as int, keys@),
        r matches Ok((end, _)) ==> pos < end <= input.len(),
    decreases input.len() - pos, 5int,
{
    proof {
        tokens();
    }
    match token(input, pos, "{") {
        Err(err) => Err(err),
        Ok(after_open) => match block_body(input, ws0(input, after_open), keys) {
            Err(err) => Err(err),
            Ok((after_body, body)) => match token(input, ws0(input, after_body), "}") {
                Err(err) => Err(err),
                Ok(end) => Ok((end, body)),
            },
        },
    }
}

/// Reads a whole script from `pos` on, as far as statements go. It always
/// succeeds; what it returns beside the block is where it stopped.
pub fn global_block(input: &[u8], pos: usize, keys: &KeyRegistry) -> (r: Result<
    (usize, Block),
    CustomError,
>)
    requires
        pos <= input.len(),
    ensures
        outcome(r) == Ok::<(int, BlockTree), Failure>(
            spec_global_block(input@, pos as int, keys@),
        ),
        r matches Ok((end, _)) && pos <= end <= input.len(),
{
    match block_body(input, ws0(input, pos), keys) {
        Err(err) => Err(err),
        Ok((after_body, body)) => Ok((ws0(input, after_body), body)),
    }
}

/// Parses a script that must be read to its end.
pub fn parse_script(input: &[u8], keys: &KeyRegistry) -> (r: Result<Block, CustomError>)
    ensures
        match r {
            Ok(block) => spec_script(input@, keys@) == Ok::<BlockTree, Failure>(block@),
            Err(err) => spec_script(input@, keys@) == Err::<BlockTree, Failure>(err@),
        },
{
    match global_block(input, 0, keys) {
        Err(err) => Err(err),
        Ok((end, body)) => {
            if end == input.len() {
                Ok(body)
            } else {
                match stmt(input, end, keys) {
                    Err(err) => Err(err),
                    Ok(_) => Err(CustomError::expecting(end, "statement")),
                }
            }
        },
    }
}

} // verus!
