use keyscript::ast::{Block, Expr, Stmt, ValueType};
use keyscript::key_defs::{make_key, KeyClickActionWithMods, KeyModifierFlags, ParsedKeyAction};
use keyscript::parsing::expression::expr;
use keyscript::parsing::render::{
    expr_to_source, script_to_source, stmt_to_source, write_action, write_block, write_expr,
    write_stmt,
};
use keyscript::parsing::{block, parse_script, stmt};
use keyscript::registry::KeyRegistry;

fn reads_back_as(source: &str, written: &str) {
    let keys = KeyRegistry::new();
    let (end, tree) = expr(source.as_bytes(), 0, &keys).unwrap();
    assert_eq!(end, source.len());
    let text = expr_to_source(&tree, &keys);
    assert_eq!(String::from_utf8(text.clone()).unwrap(), written);
    assert_eq!(expr(&text, 0, &keys), Ok((text.len(), tree)));
}

#[test]
fn written_expressions_are_read_back() {
    reads_back_as("2 + 3 * 4", "2+(3*4)");
    reads_back_as("2 - 3 - 4", "(2-3)-4");
    reads_back_as("a == b == c", "(a==b)==c");
    reads_back_as("a < b == c", "(a<b)==c");
    reads_back_as("(1 + 2 ) * 3", "(1+2)*3");
    reads_back_as("??a * b", "(??a)*b");
    reads_back_as("??(a * b)", "??(a*b)");
    reads_back_as("??\"x y\"  ", "??\"x y\"");
    reads_back_as("let foo = true", "let foo=true");
    reads_back_as("let  x  =  y  =  1 + 2", "let x=y=1+2");
    reads_back_as("(let x = 1) + 2", "(let x=1)+2");
    reads_back_as("f( )", "f()");
    reads_back_as("f(1, g(x , \"s\"), 2.50 / y)", "f(1,g(x,\"s\"),2.50/y)");
    reads_back_as("iffy(truex) != letter", "iffy(truex)!=letter");
    reads_back_as("true && false || x > 3", "((true&&false)||x)>3");
    reads_back_as("a::b", "a::b");
    reads_back_as("A::b", "+a::b");
    reads_back_as("#^!+enter::+A", "!^+#ENTER::+a");
    reads_back_as("x + +a::b", "x++a::b");
    reads_back_as("shift::ctrl", "LEFTSHIFT::LEFTCTRL");
    reads_back_as("a::b + a::b", "a::b+a::b");
    reads_back_as("f4::kp0 == f(a::b)", "F4::KP0==f(a::b)");
}

#[test]
fn written_statements_are_read_back() {
    let keys = KeyRegistry::new();
    let sources = vec![
        "if(true){ a::b; }",
        "if ( foo() == \"a\" ) { a::b; if(x){} { } }",
        "{ let foo = true; a::b; b::c; }",
        "{}",
        "iffy = 1;",
        "if_(x);",
        "x;",
    ];
    for source in sources {
        let (end, tree) = stmt(source.as_bytes(), 0, &keys).unwrap();
        assert_eq!(end, source.len());
        let text = stmt_to_source(&tree, &keys);
        assert_eq!(stmt(&text, 0, &keys), Ok((text.len(), tree)));
    }
    let (_, tree) = stmt("if ( a ) { b ; { c ; } }".as_bytes(), 0, &keys).unwrap();
    assert_eq!(String::from_utf8(stmt_to_source(&tree, &keys)).unwrap(), "if(a){b;{c;}}");
}

#[test]
fn written_scripts_are_read_back() {
    let keys = KeyRegistry::new();
    let source = "\n a::b;\n let n = 3 * (4 - 1);\n if (n == 9) {\n   A::^c;\n }\n";
    let tree = parse_script(source.as_bytes(), &keys).unwrap();
    let text = script_to_source(&tree, &keys);
    assert_eq!(
        String::from_utf8(text.clone()).unwrap(),
        "a::b;let n=3*(4-1);if(n==9){+a::^c;}"
    );
    assert_eq!(parse_script(&text, &keys), Ok(tree));
    assert_eq!(script_to_source(&Block::new(), &keys), Vec::<u8>::new());
    assert_eq!(parse_script(&[], &keys), Ok(Block::new()));
}

#[test]
fn writing_appends_to_what_is_there() {
    let keys = KeyRegistry::new();
    let mut out = b"> ".to_vec();
    write_expr(&Expr::Variable(b"x".to_vec()), &keys, &mut out);
    assert_eq!(out, b"> x".to_vec());
    write_stmt(&Stmt::Expr(Expr::Value(ValueType::Bool(false))), &keys, &mut out);
    assert_eq!(out, b"> xfalse;".to_vec());
    write_block(&Block { statements: vec![Stmt::Block(Block::new())] }, &keys, &mut out);
    assert_eq!(out, b"> xfalse;{{}}".to_vec());
    let mut flags = KeyModifierFlags::new();
    flags.meta();
    write_action(
        &ParsedKeyAction::KeyClickAction(KeyClickActionWithMods::new_with_mods(make_key(1), flags)),
        &keys,
        &mut out,
    );
    assert_eq!(out, b"> xfalse;{{}}#ESC".to_vec());
}

#[test]
fn a_lambda_and_a_key_without_a_name_are_written_but_not_read() {
    let keys = KeyRegistry::new();
    let lambda = Expr::Lambda(Block { statements: vec![Stmt::Expr(Expr::Variable(b"x".to_vec()))] });
    let text = expr_to_source(&lambda, &keys);
    assert_eq!(text, b"{x;}".to_vec());
    assert!(expr(&text, 0, &keys).is_err());
    assert_eq!(block(&text, 0, &keys).map(|found| found.0), Ok(4));
    let nameless = Expr::KeyMappingInline(
        ParsedKeyAction::KeyClickAction(KeyClickActionWithMods::new(make_key(60000))),
        ParsedKeyAction::KeyClickAction(KeyClickActionWithMods::new(make_key(30))),
    );
    assert_eq!(expr_to_source(&nameless, &keys), b"::a".to_vec());
    assert_eq!(keys.name_of(make_key(60000)), None);
    assert_eq!(keys.name_of(make_key(30)), Some(b"A".to_vec()));
    assert_eq!(keys.name_of(make_key(57)), Some(b"SPACE".to_vec()));
    assert_eq!(keys.name_of(make_key(11)), None);
}
