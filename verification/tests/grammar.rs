use keyscript::ast::{Block, Expr, Stmt, ValueType};
use keyscript::key_defs::{
    make_key, Key, KeyClickActionWithMods, KeyModifierFlags, ParsedKeyAction, ParsedSingleKey,
};
use keyscript::parsing::error::CustomError;
use keyscript::parsing::expression::{expr, expr_1, expr_2, expr_3, expr_4, variable};
use keyscript::parsing::key::{key, key_action_with_flags, key_mapping_inline, modifiers};
use keyscript::parsing::{block, block_body, global_block, if_stmt, parse_script, stmt};
use keyscript::registry::KeyRegistry;
use tap::Tap;

fn key_a() -> Key {
    make_key(30)
}

fn key_b() -> Key {
    make_key(48)
}

fn key_c() -> Key {
    make_key(46)
}

fn key_d() -> Key {
    make_key(32)
}

fn key_enter() -> Key {
    make_key(28)
}

fn number(text: &str) -> Expr {
    Expr::Value(ValueType::Number(text.as_bytes().to_vec()))
}

fn text(content: &str) -> Expr {
    Expr::Value(ValueType::String(content.as_bytes().to_vec()))
}

fn boolean(value: bool) -> Expr {
    Expr::Value(ValueType::Bool(value))
}

fn var(name: &str) -> Expr {
    Expr::Variable(name.as_bytes().to_vec())
}

fn click(key: Key) -> ParsedKeyAction {
    ParsedKeyAction::KeyClickAction(KeyClickActionWithMods::new(key))
}

fn mapping(from: Key, to: Key) -> Expr {
    Expr::KeyMappingInline(click(from), click(to))
}

fn parse_expr(source: &str) -> Result<(usize, Expr), CustomError> {
    expr(source.as_bytes(), 0, &KeyRegistry::new())
}

fn parse_stmt(source: &str) -> Result<(usize, Stmt), CustomError> {
    stmt(source.as_bytes(), 0, &KeyRegistry::new())
}

fn parse_block(source: &str) -> Result<(usize, Block), CustomError> {
    block(source.as_bytes(), 0, &KeyRegistry::new())
}

fn parse_block_body(source: &str) -> Result<(usize, Block), CustomError> {
    block_body(source.as_bytes(), 0, &KeyRegistry::new())
}

fn parse_if(source: &str) -> Result<(usize, Stmt), CustomError> {
    if_stmt(source.as_bytes(), 0, &KeyRegistry::new())
}

fn parse_key(source: &str) -> Result<(usize, ParsedSingleKey), CustomError> {
    key(source.as_bytes(), 0, &KeyRegistry::new())
}

#[test]
fn expression_test_operator_equal() {
    assert_eq!(
        parse_expr("true == true"),
        Ok((12, Expr::Eq(Box::new(boolean(true)), Box::new(boolean(true)))))
    );
    assert_eq!(
        parse_expr("\"hello world\" == \"hello world\""),
        Ok((30, Expr::Eq(Box::new(text("hello world")), Box::new(text("hello world")))))
    );
    assert_eq!(
        parse_expr("\"22hello\" == true"),
        Ok((17, Expr::Eq(Box::new(text("22hello")), Box::new(boolean(true)))))
    );
}

#[test]
fn mod_test_operator_equal() {
    let keys = KeyRegistry::new();
    assert_eq!(
        expr("true == true".as_bytes(), 0, &keys),
        Ok(("true == true".len(), Expr::Eq(Box::new(boolean(true)), Box::new(boolean(true)))))
    );
    assert_eq!(
        expr("\"hello world\" == \"hello world\"".as_bytes(), 0, &keys),
        Ok((
            "\"hello world\" == \"hello world\"".len(),
            Expr::Eq(Box::new(text("hello world")), Box::new(text("hello world")))
        ))
    );
    assert_eq!(
        expr("\"22hello\" == true".as_bytes(), 0, &keys),
        Ok((
            "\"22hello\" == true".len(),
            Expr::Eq(Box::new(text("22hello")), Box::new(boolean(true)))
        ))
    );
}

#[test]
fn test_add_sub() {
    assert_eq!(
        parse_expr("33 + 33"),
        Ok((7, Expr::Add(Box::new(number("33")), Box::new(number("33")))))
    );
    assert_eq!(
        parse_expr("33 - 33"),
        Ok((7, Expr::Sub(Box::new(number("33")), Box::new(number("33")))))
    );
    match parse_expr("33 + 33") {
        Ok((_, Expr::Add(left, _))) => match *left {
            Expr::Value(ValueType::Number(digits)) => {
                let value: f64 = std::str::from_utf8(&digits).unwrap().parse().unwrap();
                assert_eq!(value, 33.0);
            }
            _ => panic!("the left operand is no number"),
        },
        _ => panic!("no sum was read"),
    }
}

#[test]
fn test_if_stmt() {
    assert_eq!(
        parse_if("if(true){ a::b; }"),
        Ok((
            17,
            Stmt::If(parse_expr("true").unwrap().1, parse_block("{a::b;}").unwrap().1)
        ))
    );
    assert_eq!(
        parse_stmt("if(true){ a::b; }"),
        Ok((
            17,
            Stmt::If(parse_expr("true").unwrap().1, parse_block("{a::b;}").unwrap().1)
        ))
    );
    assert_eq!(
        parse_stmt("if(\"a\" == \"a\"){ a::b; }"),
        Ok((
            "if(\"a\" == \"a\"){ a::b; }".len(),
            Stmt::If(
                parse_expr("\"a\" == \"a\"").unwrap().1,
                parse_block("{a::b;}").unwrap().1
            )
        ))
    );
    assert_eq!(
        parse_stmt("if(foo() == \"a\"){ a::b; }"),
        Ok((
            "if(foo() == \"a\"){ a::b; }".len(),
            Stmt::If(
                Expr::Eq(
                    Box::new(Expr::FunctionCall("foo".as_bytes().to_vec(), vec![])),
                    Box::new(text("a")),
                ),
                parse_block("{a::b;}").unwrap().1
            )
        ))
    );
}

#[test]
fn test_key() {
    assert_eq!(parse_key("a"), Ok((1, ParsedSingleKey::Key(key_a()))));
    assert_eq!(parse_key("A"), Ok((1, ParsedSingleKey::CapitalKey(key_a()))));
    assert_eq!(parse_key("enter"), Ok((5, ParsedSingleKey::Key(key_enter()))));
    assert!(matches!(parse_key("entert"), Err(..)));
}

#[test]
fn test_key_action() {
    assert_eq!(
        key_action_with_flags("!a".as_bytes(), 0, &KeyRegistry::new()),
        Ok((
            2,
            ParsedKeyAction::KeyClickAction(KeyClickActionWithMods::new_with_mods(
                key_a(),
                KeyModifierFlags::new().tap_mut(|v| v.alt()),
            ))
        ))
    );
}

#[test]
fn test_block() {
    assert_eq!(
        parse_block_body("a::b;"),
        Ok((
            5,
            Block::new().tap_mut(|b| {
                b.statements.push(parse_stmt("a::b;").unwrap().1);
            })
        ))
    );
    assert_eq!(
        parse_block("{ let foo = true; }"),
        Ok((
            19,
            Block::new().tap_mut(|b| {
                b.statements.push(parse_stmt("let foo = true;").unwrap().1);
            })
        ))
    );
    assert_eq!(
        parse_block("{ let foo = true; a::b; b::c; }"),
        Ok((
            31,
            Block::new().tap_mut(|b| {
                b.statements.push(parse_stmt("let foo = true;").unwrap().1);
                b.statements.push(parse_stmt("a::b;").unwrap().1);
                b.statements.push(parse_stmt("b::c;").unwrap().1);
            })
        ))
    );
    assert_eq!(
        parse_block_body("if(true){a::b;}"),
        Ok((
            15,
            Block::new().tap_mut(|b| {
                b.statements = vec![parse_if("if(true){a::b;}").unwrap().1];
            })
        ))
    );
}

#[test]
fn multiplication_binds_tighter_than_addition() {
    assert_eq!(
        parse_expr("2 + 3 * 4"),
        Ok((
            9,
            Expr::Add(
                Box::new(number("2")),
                Box::new(Expr::Mul(Box::new(number("3")), Box::new(number("4"))))
            )
        ))
    );
    assert_eq!(
        parse_expr("2 * 3 + 4"),
        Ok((
            9,
            Expr::Add(
                Box::new(Expr::Mul(Box::new(number("2")), Box::new(number("3")))),
                Box::new(number("4"))
            )
        ))
    );
}

#[test]
fn subtraction_associates_to_the_left() {
    assert_eq!(
        parse_expr("2 - 3 - 4"),
        Ok((
            9,
            Expr::Sub(
                Box::new(Expr::Sub(Box::new(number("2")), Box::new(number("3")))),
                Box::new(number("4"))
            )
        ))
    );
    assert_eq!(
        parse_expr("8 / 4 / 2"),
        Ok((
            9,
            Expr::Div(
                Box::new(Expr::Div(Box::new(number("8")), Box::new(number("4")))),
                Box::new(number("2"))
            )
        ))
    );
}

#[test]
fn relational_operators_share_one_level() {
    assert_eq!(
        parse_expr("a == b == c"),
        Ok((
            11,
            Expr::Eq(
                Box::new(Expr::Eq(Box::new(var("a")), Box::new(var("b")))),
                Box::new(var("c"))
            )
        ))
    );
    assert_eq!(
        parse_expr("a < b == c"),
        Ok((
            10,
            Expr::Eq(
                Box::new(Expr::LT(Box::new(var("a")), Box::new(var("b")))),
                Box::new(var("c"))
            )
        ))
    );
    assert_eq!(
        parse_expr("a || b && c"),
        Ok((
            11,
            Expr::And(
                Box::new(Expr::Or(Box::new(var("a")), Box::new(var("b")))),
                Box::new(var("c"))
            )
        ))
    );
    assert_eq!(
        parse_expr("a != b > c"),
        Ok((
            10,
            Expr::GT(
                Box::new(Expr::Neq(Box::new(var("a")), Box::new(var("b")))),
                Box::new(var("c"))
            )
        ))
    );
}

#[test]
fn parentheses_override_the_levels() {
    assert_eq!(
        parse_expr("(2 + 3) * 4"),
        Ok((
            11,
            Expr::Mul(
                Box::new(Expr::Add(Box::new(number("2")), Box::new(number("3")))),
                Box::new(number("4"))
            )
        ))
    );
}

#[test]
fn white_space_is_read_only_where_the_grammar_has_it() {
    assert!(parse_expr("( 1)").is_err());
    assert!(parse_expr("?? a").is_err());
    assert!(parse_expr(" 1").is_err());
    assert_eq!(parse_expr("(1 )"), Ok((4, number("1"))));
    assert_eq!(parse_expr("f (1)"), Ok((2, var("f"))));
    assert_eq!(parse_expr("a ::b"), Ok((2, var("a"))));
    assert_eq!(parse_expr("1\t+\n2\r\n"), Ok((7, Expr::Add(Box::new(number("1")), Box::new(number("2"))))));
    assert_eq!(parse_stmt("a::b ;"), Ok((6, Stmt::Expr(mapping(key_a(), key_b())))));
    assert_eq!(parse_stmt("x ;"), Ok((3, Stmt::Expr(var("x")))));
    assert_eq!(parse_stmt("if  (  x  )  {  }"), Ok((17, Stmt::If(var("x"), Block::new()))));
    assert!(parse_expr("let\tx = 1").is_ok());
    assert!(parse_expr("letx").is_ok());
}

#[test]
fn negation_wraps_an_atom() {
    assert_eq!(parse_expr("??a"), Ok((3, Expr::Neg(Box::new(var("a"))))));
    assert_eq!(
        expr_3("??a * b".as_bytes(), 0, &KeyRegistry::new()),
        Ok((4, Expr::Neg(Box::new(var("a")))))
    );
    assert_eq!(
        parse_expr("??a * b"),
        Ok((7, Expr::Mul(Box::new(Expr::Neg(Box::new(var("a")))), Box::new(var("b")))))
    );
}

#[test]
fn an_atom_takes_the_white_space_after_it() {
    let keys = KeyRegistry::new();
    assert_eq!(expr_4("abc   + 1".as_bytes(), 0, &keys), Ok((6, var("abc"))));
    assert_eq!(expr_2("abc   + 1".as_bytes(), 0, &keys), Ok((6, var("abc"))));
    assert_eq!(
        expr_1("abc   + 1 == 2".as_bytes(), 0, &keys),
        Ok((10, Expr::Add(Box::new(var("abc")), Box::new(number("1")))))
    );
    assert_eq!(variable("abc   + 1".as_bytes(), 0), Ok((3, var("abc"))));
}

#[test]
fn a_chain_ends_where_no_operand_follows() {
    assert_eq!(parse_expr("1 + "), Ok((2, number("1"))));
    assert_eq!(parse_expr("1 + ;"), Ok((2, number("1"))));
}

#[test]
fn literals_are_read() {
    assert_eq!(parse_expr("3.25"), Ok((4, number("3.25"))));
    assert_eq!(parse_expr("3."), Ok((1, number("3"))));
    assert_eq!(parse_expr("\"\""), Ok((2, text(""))));
    assert_eq!(parse_expr("false"), Ok((5, boolean(false))));
}

#[test]
fn the_words_of_the_language_are_no_identifiers() {
    assert_eq!(parse_expr("truex"), Ok((5, var("truex"))));
    assert_eq!(parse_expr("true_"), Ok((5, var("true_"))));
    assert_eq!(parse_expr("falsehood + 1"), Ok((13, Expr::Add(Box::new(var("falsehood")), Box::new(number("1"))))));
    assert_eq!(parse_expr("true+1"), Ok((6, Expr::Add(Box::new(boolean(true)), Box::new(number("1"))))));
    assert_eq!(parse_expr("iffy"), Ok((4, var("iffy"))));
    assert_eq!(parse_expr("letter"), Ok((6, var("letter"))));
    assert!(parse_expr("let").is_err());
    assert!(parse_expr("if").is_err());
    assert!(parse_expr("let true = 1").is_err());
    assert!(parse_expr("let if = 1").is_err());
    assert!(variable("false".as_bytes(), 0).is_err());
    assert_eq!(parse_expr("letx = 1"), Ok((8, Expr::VariableAssign("letx".as_bytes().to_vec(), Box::new(number("1"))))));
    assert_eq!(parse_expr("_x1"), Ok((3, var("_x1"))));
}

#[test]
fn declarations_assignments_and_calls_are_read() {
    assert_eq!(
        parse_expr("let foo = 1 + 2"),
        Ok((
            15,
            Expr::VariableInit(
                "foo".as_bytes().to_vec(),
                Box::new(Expr::Add(Box::new(number("1")), Box::new(number("2"))))
            )
        ))
    );
    assert_eq!(
        parse_expr("foo = bar"),
        Ok((9, Expr::VariableAssign("foo".as_bytes().to_vec(), Box::new(var("bar")))))
    );
    assert_eq!(
        parse_expr("f(1, x ,\"s\")"),
        Ok((
            12,
            Expr::FunctionCall("f".as_bytes().to_vec(), vec![number("1"), var("x"), text("s")])
        ))
    );
    assert_eq!(
        parse_expr("f( )"),
        Ok((4, Expr::FunctionCall("f".as_bytes().to_vec(), vec![])))
    );
    assert!(parse_expr("f(1,)").is_ok());
    assert_eq!(parse_expr("f(1,)"), Ok((1, var("f"))));
}

#[test]
fn key_mappings_are_read() {
    assert_eq!(parse_expr("a::b"), Ok((4, mapping(key_a(), key_b()))));
    let mut shift = KeyModifierFlags::new();
    shift.shift();
    let mut ctrl_alt = KeyModifierFlags::new();
    ctrl_alt.ctrl();
    ctrl_alt.alt();
    assert_eq!(
        key_mapping_inline("A::^!enter".as_bytes(), 0, &KeyRegistry::new()),
        Ok((
            10,
            Expr::KeyMappingInline(
                ParsedKeyAction::KeyClickAction(KeyClickActionWithMods::new_with_mods(
                    key_a(),
                    shift
                )),
                ParsedKeyAction::KeyClickAction(KeyClickActionWithMods::new_with_mods(
                    key_enter(),
                    ctrl_alt
                )),
            )
        ))
    );
}

#[test]
fn modifier_prefixes_are_read() {
    let keys = KeyRegistry::new();
    let mut all = KeyModifierFlags::new();
    all.ctrl();
    all.alt();
    all.meta();
    assert_eq!(
        key_action_with_flags("!#^a".as_bytes(), 0, &keys),
        Ok((
            4,
            ParsedKeyAction::KeyClickAction(KeyClickActionWithMods::new_with_mods(key_a(), all))
        ))
    );
    let mut shift = KeyModifierFlags::new();
    shift.shift();
    let shifted_a =
        ParsedKeyAction::KeyClickAction(KeyClickActionWithMods::new_with_mods(key_a(), shift));
    assert_eq!(key_action_with_flags("A".as_bytes(), 0, &keys), Ok((1, shifted_a)));
    assert_eq!(key_action_with_flags("+A".as_bytes(), 0, &keys), Ok((2, shifted_a)));
    assert_eq!(key_action_with_flags("+a".as_bytes(), 0, &keys), Ok((2, shifted_a)));
    assert!(matches!(key_action_with_flags("+al".as_bytes(), 0, &keys), Err(..)));
    assert!(matches!(key_action_with_flags("++a".as_bytes(), 0, &keys), Err(..)));
    assert_eq!(modifiers("^+x".as_bytes(), 0).map(|found| found.0), Ok(2));
}

#[test]
fn an_unknown_key_fails_where_its_name_begins() {
    let err = parse_key("entert").unwrap_err();
    assert_eq!(err.offset, 0);
    assert_eq!(err.expected, vec!["key name".as_bytes().to_vec()]);
    let err = key_action_with_flags("!entert".as_bytes(), 0, &KeyRegistry::new()).unwrap_err();
    assert_eq!(err.offset, 1);
    let err = key_action_with_flags("!!a".as_bytes(), 0, &KeyRegistry::new()).unwrap_err();
    assert_eq!(err.offset, 1);
    assert_eq!(err.expected, vec!["key name".as_bytes().to_vec()]);
}

#[test]
fn a_failed_atom_lists_what_every_alternative_expected() {
    let err = parse_expr("@").unwrap_err();
    assert_eq!(err.offset, 0);
    let expected: Vec<&str> = vec![
        "??",
        "(",
        "true",
        "false",
        "\"",
        "number",
        "let",
        "identifier",
        "identifier",
        "identifier",
        "identifier",
    ];
    let expected: Vec<Vec<u8>> = expected.iter().map(|t| t.as_bytes().to_vec()).collect();
    assert_eq!(err.expected, expected);
}

#[test]
fn a_failure_points_where_the_last_alternative_failed() {
    let err = parse_stmt("let x = ;").unwrap_err();
    assert_eq!(err.offset, 0);
    assert_eq!(err.expected[0], "if".as_bytes().to_vec());
    assert_eq!(err.expected.last().unwrap(), &"{".as_bytes().to_vec());
    let err = parse_block("{ a::b; ").unwrap_err();
    assert_eq!(err.offset, 8);
    assert_eq!(err.expected, vec!["}".as_bytes().to_vec()]);
    let err = parse_expr("\"abc").unwrap_err();
    assert_eq!(err.expected[4], "\"".as_bytes().to_vec());
}

#[test]
fn block_keeps_the_order_of_its_statements() {
    assert_eq!(
        parse_block("{ a::b; c::d; }"),
        Ok((
            15,
            Block {
                statements: vec![
                    Stmt::Expr(mapping(key_a(), key_b())),
                    Stmt::Expr(mapping(key_c(), key_d())),
                ]
            }
        ))
    );
}

#[test]
fn empty_block_has_no_statements() {
    assert_eq!(parse_block("{}"), Ok((2, Block { statements: vec![] })));
    assert_eq!(parse_block("{  \n }"), Ok((6, Block::new())));
    assert_eq!(parse_block_body(""), Ok((0, Block::new())));
    assert_eq!(parse_block_body("}"), Ok((0, Block::new())));
}

#[test]
fn blocks_nest() {
    assert_eq!(
        parse_stmt("{ { a::b; } if (x) { } }"),
        Ok((
            24,
            Stmt::Block(Block {
                statements: vec![
                    Stmt::Block(Block { statements: vec![Stmt::Expr(mapping(key_a(), key_b()))] }),
                    Stmt::If(var("x"), Block::new()),
                ]
            })
        ))
    );
}

#[test]
fn a_script_is_read_without_braces() {
    let keys = KeyRegistry::new();
    let source = "  a::b;\n  let x = 1;\n";
    let expected = Block {
        statements: vec![
            Stmt::Expr(mapping(key_a(), key_b())),
            Stmt::Expr(Expr::VariableInit("x".as_bytes().to_vec(), Box::new(number("1")))),
        ],
    };
    assert_eq!(global_block(source.as_bytes(), 0, &keys), Ok((source.len(), Block { statements: vec![
            Stmt::Expr(mapping(key_a(), key_b())),
            Stmt::Expr(Expr::VariableInit("x".as_bytes().to_vec(), Box::new(number("1")))),
        ] })));
    assert_eq!(parse_script(source.as_bytes(), &keys), Ok(expected));
    assert_eq!(global_block("a::b; @".as_bytes(), 0, &keys).map(|found| found.0), Ok(6));
    assert_eq!(global_block("".as_bytes(), 0, &keys), Ok((0, Block::new())));
    assert_eq!(parse_script("".as_bytes(), &keys), Ok(Block::new()));
}

#[test]
fn a_script_with_text_left_over_fails_there() {
    let keys = KeyRegistry::new();
    let err = parse_script("a::b; @".as_bytes(), &keys).unwrap_err();
    assert_eq!(err.offset, 6);
    assert_eq!(err.expected[0], "if".as_bytes().to_vec());
    let err = parse_script("a::b; x".as_bytes(), &keys).unwrap_err();
    assert_eq!(err.offset, 6);
}

#[test]
fn parsing_starts_where_it_is_told() {
    let keys = KeyRegistry::new();
    assert_eq!(expr("xx 1 + 2".as_bytes(), 3, &keys), Ok((8, Expr::Add(Box::new(number("1")), Box::new(number("2"))))));
    assert!(expr("1".as_bytes(), 1, &keys).is_err());
}
