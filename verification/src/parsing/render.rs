//! Writing a tree back as source text.
//!
//! The text is the shortest that the grammar reads back as the same tree:
//! it has no white space but the one that `let` needs, and every operand
//! that is not a literal, a name, a call or a key mapping stands in
//! parentheses.

use vstd::prelude::*;
use crate::ast::{
    expr_trees, stmt_trees, BinaryOp, Block, BlockTree, Expr, ExprTree, Stmt, StmtTree, ValueTree,
    ValueType,
};
use crate::key_defs::{KeyModifierFlags, ParsedKeyAction};
use crate::parsing::key::is_capital;
use crate::registry::{KeyRegistry, KeyTable};
use crate::text::{append_bytes, literal, lower_seq, to_lower, utf8};

verus! {

/// How an operator is written.
pub open spec fn operator_text(op: BinaryOp) -> Seq<u8> {
    match op {
        BinaryOp::Add => utf8("+"),
        BinaryOp::Sub => utf8("-"),
        BinaryOp::Mul => utf8("*"),
        BinaryOp::Div => utf8("/"),
        BinaryOp::Eq => utf8("=="),
        BinaryOp::Neq => utf8("!="),
        BinaryOp::GT => utf8(">"),
        BinaryOp::LT => utf8("<"),
        BinaryOp::And => utf8("&&"),
        BinaryOp::Or => utf8("||"),
    }
}

/// Whether an expression is written without parentheses where it is an
/// operand: a literal, a variable, a call or a key mapping.
pub open spec fn is_simple(e: ExprTree) -> bool {
    e is Value || e is Variable || e is FunctionCall || e is KeyMappingInline
}

/// The prefix of a set of modifiers: `!` for alt, `^` for ctrl, `+` for
/// shift and `#` for meta, in this order.
pub open spec fn render_modifiers(flags: KeyModifierFlags) -> Seq<u8> {
    (if flags.alt {
        utf8("!")
    } else {
        Seq::empty()
    }) + (if flags.ctrl {
        utf8("^")
    } else {
        Seq::empty()
    }) + (if flags.shift {
        utf8("+")
    } else {
        Seq::empty()
    }) + (if flags.meta {
        utf8("#")
    } else {
        Seq::empty()
    })
}

/// How the name of a key is written: as it is, but a single capital
/// letter in lower case, since written as a capital it would ask for shift.
pub open spec fn render_key_name(name: Seq<u8>) -> Seq<u8> {
    if is_capital(name) {
        lower_seq(name)
    } else {
        name
    }
}

/// A key action: the prefix of its modifiers, and the name of its key.
/// A key that the registry has no name for is left out.
pub open spec fn render_action(action: ParsedKeyAction, table: KeyTable) -> Seq<u8> {
    match action {
        ParsedKeyAction::KeyClickAction(click) => render_modifiers(click.modifiers) + (
        match table.name_of(click.key.code) {
            Some(name) => render_key_name(name),
            None => Seq::empty(),
        }),
    }
}

/// A literal.
pub open spec fn render_value(value: ValueTree) -> Seq<u8> {
    match value {
        ValueTree::Bool(true) => utf8("true"),
        ValueTree::Bool(false) => utf8("false"),
        ValueTree::Number(text) => text,
        ValueTree::String(text) => utf8("\"") + text + utf8("\""),
    }
}

/// An expression.
pub open spec fn render_expr(e: ExprTree, table: KeyTable) -> Seq<u8>
    decreases e, 0int,
{
    match e {
        ExprTree::Value(value) => render_value(value),
        ExprTree::Binary(op, left, right) => render_operand(*left, table) + operator_text(op)
            + render_operand(*right, table),
        ExprTree::Neg(inner) => utf8("??") + render_operand(*inner, table),
        ExprTree::VariableInit(name, value) => utf8("let ") + name + utf8("=") + render_expr(
            *value,
            table,
        ),
        ExprTree::VariableAssign(name, value) => name + utf8("=") + render_expr(*value, table),
        ExprTree::FunctionCall(name, arguments) => name + utf8("(") + render_arguments(
            arguments,
            table,
            0,
        ) + utf8(")"),
        ExprTree::KeyMappingInline(from, to) => render_action(from, table) + utf8("::")
            + render_action(to, table),
        ExprTree::Lambda(body) => render_block(body, table),
        ExprTree::Variable(name) => name,
    }
}

/// An expression where it is an operand.
pub open spec fn render_operand(e: ExprTree, table: KeyTable) -> Seq<u8>
    decreases e, 1int,
{
    if is_simple(e) {
        render_expr(e, table)
    } else {
        utf8("(") + render_expr(e, table) + utf8(")")
    }
}

/// The arguments of a call from the one at `from` on, with `,` between them.
pub open spec fn render_arguments(arguments: Seq<ExprTree>, table: KeyTable, from: int) -> Seq<u8>
    decreases arguments, arguments.len() - from,
{
    if from < 0 || from >= arguments.len() {
        Seq::empty()
    } else if from == arguments.len() - 1 {
        render_expr(arguments[from], table)
    } else {
        render_expr(arguments[from], table) + utf8(",") + render_arguments(
            arguments,
            table,
            from + 1,
        )
    }
}

/// A statement.
pub open spec fn render_stmt(statement: StmtTree, table: KeyTable) -> Seq<u8>
    decreases statement, 0int,
{
    match statement {
        StmtTree::Expr(e) => render_expr(e, table) + utf8(";"),
        StmtTree::If(condition, body) => utf8("if(") + render_expr(condition, table) + utf8(")")
            + render_block(body, table),
        StmtTree::Block(body) => render_block(body, table),
    }
}

/// A block: its statements between braces.
pub open spec fn render_block(block: BlockTree, table: KeyTable) -> Seq<u8>
    decreases block, 1int,
{
    utf8("{") + render_statements(block.statements, table, 0) + utf8("}")
}

/// The statements from the one at `from` on, one after the other.
pub open spec fn render_statements(list: Seq<StmtTree>, table: KeyTable, from: int) -> Seq<u8>
    decreases list, list.len() - from,
{
    if from < 0 || from >= list.len() {
        Seq::empty()
    } else {
        render_stmt(list[from], table) + render_statements(list, table, from + 1)
    }
}

/// A script: the statements of its block, without braces.
pub open spec fn render_script(block: BlockTree, table: KeyTable) -> Seq<u8> {
    render_statements(block.statements, table, 0)
}

fn write_operator(op: BinaryOp, out: &mut Vec<u8>)
    ensures
        final(out)@ == old(out)@ + operator_text(op),
{
    let text = match op {
        BinaryOp::Add => "+",
        BinaryOp::Sub => "-",
        BinaryOp::Mul => "*",
        BinaryOp::Div => "/",
        BinaryOp::Eq => "==",
        BinaryOp::Neq => "!=",
        BinaryOp::GT => ">",
        BinaryOp::LT => "<",
        BinaryOp::And => "&&",
        BinaryOp::Or => "||",
    };
    append_bytes(out, text.as_bytes());
}

fn write_modifiers(flags: &KeyModifierFlags, out: &mut Vec<u8>)
    ensures
        final(out)@ == old(out)@ + render_modifiers(*flags),
{
    if flags.alt {
        append_bytes(out, "!".as_bytes());
    }
    if flags.ctrl {
        append_bytes(out, "^".as_bytes());
    }
    if flags.shift {
        append_bytes(out, "+".as_bytes());
    }
    if flags.meta {
        append_bytes(out, "#".as_bytes());
    }
    assert(out@ =~= old(out)@ + render_modifiers(*flags));
}

/// Writes a key action behind `out`.
pub fn write_action(action: &ParsedKeyAction, keys: &KeyRegistry, out: &mut Vec<u8>)
    ensures
        final(out)@ == old(out)@ + render_action(*action, keys@),
{
    match action {
        ParsedKeyAction::KeyClickAction(click) => {
            write_modifiers(&click.modifiers, out);
            match keys.name_of(click.key) {
                Some(name) => {
                    if name.len() == 1 && 65 <= name[0] && name[0] <= 90 {
                        let low = to_lower(name.as_slice());
                        append_bytes(out, low.as_slice());
                    } else {
                        append_bytes(out, name.as_slice());
                    }
                },
                None => {},
            }
            assert(out@ =~= old(out)@ + render_action(*action, keys@));
        },
    }
}

fn write_value(value: &ValueType, out: &mut Vec<u8>)
    ensures
        final(out)@ == old(out)@ + render_value(value@),
{
    match value {
        ValueType::Bool(true) => {
            append_bytes(out, "true".as_bytes());
        },
        ValueType::Bool(false) => {
            append_bytes(out, "false".as_bytes());
        },
        ValueType::Number(text) => {
            append_bytes(out, text.as_slice());
        },
        ValueType::String(text) => {
            append_bytes(out, "\"".as_bytes());
            append_bytes(out, text.as_slice());
            append_bytes(out, "\"".as_bytes());
            assert(out@ =~= old(out)@ + render_value(value@));
        },
    }
}

fn as_binary(e: &Expr) -> (r: Option<(BinaryOp, &Expr, &Expr)>)
    ensures
        match r {
            Some((op, left, right)) => e@ == ExprTree::Binary(op, Box::new(left@), Box::new(right@))
                && decreases_to!(e => left) && decreases_to!(e => right),
            None => !(e@ is Binary),
        },
{
    match e {
        Expr::Add(left, right) => Some((BinaryOp::Add, &**left, &**right)),
        Expr::Sub(left, right) => Some((BinaryOp::Sub, &**left, &**right)),
        Expr::Mul(left, right) => Some((BinaryOp::Mul, &**left, &**right)),
        Expr::Div(left, right) => Some((BinaryOp::Div, &**left, &**right)),
        Expr::Eq(left, right) => Some((BinaryOp::Eq, &**left, &**right)),
        Expr::Neq(left, right) => Some((BinaryOp::Neq, &**left, &**right)),
        Expr::GT(left, right) => Some((BinaryOp::GT, &**left, &**right)),
        Expr::LT(left, right) => Some((BinaryOp::LT, &**left, &**right)),
        Expr::And(left, right) => Some((BinaryOp::And, &**left, &**right)),
        Expr::Or(left, right) => Some((BinaryOp::Or, &**left, &**right)),
        _ => None,
    }
}

fn write_operand(e: &Expr, keys: &KeyRegistry, out: &mut Vec<u8>)
    ensures
        final(out)@ == old(out)@ + render_operand(e@, keys@),
    decreases e, 1int,
{
    let simple = match e {
        Expr::Value(_) => true,
        Expr::Variable(_) => true,
        Expr::FunctionCall(_, _) => true,
        Expr::KeyMappingInline(_, _) => true,
        _ => false,
    };
    if simple {
        write_expr(e, keys, out);
    } else {
        append_bytes(out, "(".as_bytes());
        write_expr(e, keys, out);
        append_bytes(out, ")".as_bytes());
        assert(out@ =~= old(out)@ + render_operand(e@, keys@));
    }
}

/// Writes an expression behind `out`.
pub fn write_expr(e: &Expr, keys: &KeyRegistry, out: &mut Vec<u8>)
    ensures
        final(out)@ == old(out)@ + render_expr(e@, keys@),
    decreases e, 0int,
{
    match as_binary(e) {
        Some((op, left, right)) => {
            write_operand(left, keys, out);
            write_operator(op, out);
            write_operand(right, keys, out);
            return ;
        },
        None => {},
    }
    match e {
        Expr::Value(value) => {
            write_value(value, out);
        },
        Expr::Neg(inner) => {
            append_bytes(out, "??".as_bytes());
            write_operand(inner, keys, out);
            assert(out@ =~= old(out)@ + render_expr(e@, keys@));
        },
        Expr::VariableInit(name, value) => {
            append_bytes(out, "let ".as_bytes());
            append_bytes(out, name.as_slice());
            append_bytes(out, "=".as_bytes());
            write_expr(value, keys, out);
            assert(out@ =~= old(out)@ + render_expr(e@, keys@));
        },
        Expr::VariableAssign(name, value) => {
            append_bytes(out, name.as_slice());
            append_bytes(out, "=".as_bytes());
            write_expr(value, keys, out);
            assert(out@ =~= old(out)@ + render_expr(e@, keys@));
        },
        Expr::FunctionCall(name, arguments) => {
            append_bytes(out, name.as_slice());
            append_bytes(out, "(".as_bytes());
            let ghost head = out@;
            let ghost trees = expr_trees(arguments@);
            let mut i: usize = 0;
            while i < arguments.len()
                invariant
                    i <= arguments.len(),
                    decreases_to!(e => arguments),
                    trees == expr_trees(arguments@),
                    head + render_arguments(trees, keys@, 0) == out@ + render_arguments(
                        trees,
                        keys@,
                        i as int,
                    ),
                decreases arguments.len() - i,
            {
                let ghost before = out@;
                write_expr(&arguments[i], keys, out);
                if i + 1 < arguments.len() {
                    append_bytes(out, ",".as_bytes());
                }
                assert(out@ + render_arguments(trees, keys@, i + 1) =~= before + render_arguments(
                    trees,
                    keys@,
                    i as int,
                ));
                i += 1;
            }
            append_bytes(out, ")".as_bytes());
            assert(out@ =~= old(out)@ + render_expr(e@, keys@));
        },
        Expr::KeyMappingInline(from, to) => {
            write_action(from, keys, out);
            append_bytes(out, "::".as_bytes());
            write_action(to, keys, out);
            assert(out@ =~= old(out)@ + render_expr(e@, keys@));
        },
        Expr::Lambda(body) => {
            write_block(body, keys, out);
        },
        Expr::Variable(name) => {
            append_bytes(out, name.as_slice());
        },
        _ => {},
    }
}

/// Writes a statement behind `out`.
pub fn write_stmt(statement: &Stmt, keys: &KeyRegistry, out: &mut Vec<u8>)
    ensures
        final(out)@ == old(out)@ + render_stmt(statement@, keys@),
    decreases statement, 0int,
{
    match statement {
        Stmt::Expr(e) => {
            write_expr(e, keys, out);
            append_bytes(out, ";".as_bytes());
        },
        Stmt::If(condition, body) => {
            append_bytes(out, "if(".as_bytes());
            write_expr(condition, keys, out);
            append_bytes(out, ")".as_bytes());
            write_block(body, keys, out);
            assert(out@ =~= old(out)@ + render_stmt(statement@, keys@));
        },
        Stmt::Block(body) => {
            write_block(body, keys, out);
        },
    }
}

fn write_statements(block: &Block, keys: &KeyRegistry, out: &mut Vec<u8>)
    ensures
        final(out)@ == old(out)@ + render_statements(block@.statements, keys@, 0),
    decreases block, 0int,
{
    let ghost head = out@;
    let ghost trees = stmt_trees(block.statements@);
    let mut i: usize = 0;
    while i < block.statements.len()
        invariant
            i <= block.statements.len(),
            trees == stmt_trees(block.statements@),
            head + render_statements(trees, keys@, 0) == out@ + render_statements(
                trees,
                keys@,
                i as int,
            ),
        decreases block.statements.len() - i,
    {
        let ghost before = out@;
        write_stmt(&block.statements[i], keys, out);
        assert(out@ + render_statements(trees, keys@, i + 1) =~= before + render_statements(
            trees,
            keys@,
            i as int,
        ));
        i += 1;
    }
    assert(out@ =~= head + render_statements(trees, keys@, 0));
}

/// Writes a block behind `out`.
pub fn write_block(block: &Block, keys: &KeyRegistry, out: &mut Vec<u8>)
    ensures
        final(out)@ == old(out)@ + render_block(block@, keys@),
    decreases block, 1int,
{
    append_bytes(out, "{".as_bytes());
    write_statements(block, keys, out);
    append_bytes(out, "}".as_bytes());
    assert(out@ =~= old(out)@ + render_block(block@, keys@));
}

/// The source text of an expression.
pub fn expr_to_source(e: &Expr, keys: &KeyRegistry) -> (source: Vec<u8>)
    ensures
        source@ == render_expr(e@, keys@),
{
    let mut source: Vec<u8> = Vec::new();
    write_expr(e, keys, &mut source);
    assert(source@ =~= render_expr(e@, keys@));
    source
}

/// The source text of a statement.
pub fn stmt_to_source(statement: &Stmt, keys: &KeyRegistry) -> (source: Vec<u8>)
    ensures
        source@ == render_stmt(statement@, keys@),
{
    let mut source: Vec<u8> = Vec::new();
    write_stmt(statement, keys, &mut source);
    assert(source@ =~= render_stmt(statement@, keys@));
    source
}

/// The source text of a script: the statements of its block, without braces.
pub fn script_to_source(block: &Block, keys: &KeyRegistry) -> (source: Vec<u8>)
    ensures
        source@ == render_script(block@, keys@),
{
    let mut source: Vec<u8> = Vec::new();
    write_statements(block, keys, &mut source);
    assert(source@ =~= render_script(block@, keys@));
    source
}

} // verus!
