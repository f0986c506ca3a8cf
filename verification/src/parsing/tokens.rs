//! The tokens of the grammar, byte by byte: what the proofs need to know of
//! the texts that the rules are written with.

use vstd::prelude::*;
use crate::text::{ascii_text_bytes, utf8};

verus! {

/// The bytes of a token that is written in ASCII.
pub proof fn token_bytes(text: &str)
    requires
        vstd::string::is_ascii(text),
    ensures
        utf8(text).len() == text@.len(),
        forall|i: int| 0 <= i < text@.len() ==> utf8(text)[i] == text@[i] as u8,
{
    ascii_text_bytes(text);
}

/// The bytes of the token `(`.
pub proof fn open_token()
    ensures
        utf8("(").len() == 1,
        utf8("(")[0] == 40,
{
    reveal_strlit("(");
    token_bytes("(");
}

/// The bytes of the token `)`.
pub proof fn close_token()
    ensures
        utf8(")").len() == 1,
        utf8(")")[0] == 41,
{
    reveal_strlit(")");
    token_bytes(")");
}

/// The bytes of the token `,`.
pub proof fn comma_token()
    ensures
        utf8(",").len() == 1,
        utf8(",")[0] == 44,
{
    reveal_strlit(",");
    token_bytes(",");
}

/// The bytes of the token `;`.
pub proof fn semicolon_token()
    ensures
        utf8(";").len() == 1,
        utf8(";")[0] == 59,
{
    reveal_strlit(";");
    token_bytes(";");
}

/// The bytes of the token `=`.
pub proof fn assign_token()
    ensures
        utf8("=").len() == 1,
        utf8("=")[0] == 61,
{
    reveal_strlit("=");
    token_bytes("=");
}

/// The bytes of the token `{`.
pub proof fn open_brace_token()
    ensures
        utf8("{").len() == 1,
        utf8("{")[0] == 123,
{
    reveal_strlit("{");
    token_bytes("{");
}

/// The bytes of the token `}`.
pub proof fn close_brace_token()
    ensures
        utf8("}").len() == 1,
        utf8("}")[0] == 125,
{
    reveal_strlit("}");
    token_bytes("}");
}

/// The bytes of the token `"`.
pub proof fn quote_token()
    ensures
        utf8("\"").len() == 1,
        utf8("\"")[0] == 34,
{
    reveal_strlit("\"");
    token_bytes("\"");
}

/// The bytes of the token `*`.
pub proof fn star_token()
    ensures
        utf8("*").len() == 1,
        utf8("*")[0] == 42,
{
    reveal_strlit("*");
    token_bytes("*");
}

/// The bytes of the token `/`.
pub proof fn slash_token()
    ensures
        utf8("/").len() == 1,
        utf8("/")[0] == 47,
{
    reveal_strlit("/");
    token_bytes("/");
}

/// The bytes of the token `+`.
pub proof fn plus_token()
    ensures
        utf8("+").len() == 1,
        utf8("+")[0] == 43,
{
    reveal_strlit("+");
    token_bytes("+");
}

/// The bytes of the token `-`.
pub proof fn minus_token()
    ensures
        utf8("-").len() == 1,
        utf8("-")[0] == 45,
{
    reveal_strlit("-");
    token_bytes("-");
}

/// The bytes of the token `<`.
pub proof fn less_token()
    ensures
        utf8("<").len() == 1,
        utf8("<")[0] == 60,
{
    reveal_strlit("<");
    token_bytes("<");
}

/// The bytes of the token `>`.
pub proof fn greater_token()
    ensures
        utf8(">").len() == 1,
        utf8(">")[0] == 62,
{
    reveal_strlit(">");
    token_bytes(">");
}

/// The bytes of the token `==`.
pub proof fn equal_token()
    ensures
        utf8("==").len() == 2,
        utf8("==")[0] == 61,
        utf8("==")[1] == 61,
{
    reveal_strlit("==");
    token_bytes("==");
}

/// The bytes of the token `!=`.
pub proof fn unequal_token()
    ensures
        utf8("!=").len() == 2,
        utf8("!=")[0] == 33,
        utf8("!=")[1] == 61,
{
    reveal_strlit("!=");
    token_bytes("!=");
}

/// The bytes of the token `&&`.
pub proof fn and_token()
    ensures
        utf8("&&").len() == 2,
        utf8("&&")[0] == 38,
        utf8("&&")[1] == 38,
{
    reveal_strlit("&&");
    token_bytes("&&");
}

/// The bytes of the token `||`.
pub proof fn or_token()
    ensures
        utf8("||").len() == 2,
        utf8("||")[0] == 124,
        utf8("||")[1] == 124,
{
    reveal_strlit("||");
    token_bytes("||");
}

/// The bytes of the token `??`.
pub proof fn negation_token()
    ensures
        utf8("??").len() == 2,
        utf8("??")[0] == 63,
        utf8("??")[1] == 63,
{
    reveal_strlit("??");
    token_bytes("??");
}

/// The bytes of the token `::`.
pub proof fn colons_token()
    ensures
        utf8("::").len() == 2,
        utf8("::")[0] == 58,
        utf8("::")[1] == 58,
{
    reveal_strlit("::");
    token_bytes("::");
}

/// The bytes of the token `if`.
pub proof fn if_token()
    ensures
        utf8("if").len() == 2,
        utf8("if")[0] == 105,
        utf8("if")[1] == 102,
{
    reveal_strlit("if");
    token_bytes("if");
}

/// The bytes of the token `let`.
pub proof fn let_token()
    ensures
        utf8("let").len() == 3,
        utf8("let")[0] == 108,
        utf8("let")[1] == 101,
        utf8("let")[2] == 116,
{
    reveal_strlit("let");
    token_bytes("let");
}

/// The bytes of the token `true`.
pub proof fn true_token()
    ensures
        utf8("true").len() == 4,
        utf8("true")[0] == 116,
        utf8("true")[1] == 114,
        utf8("true")[2] == 117,
        utf8("true")[3] == 101,
{
    reveal_strlit("true");
    token_bytes("true");
}

/// The bytes of the token `false`.
pub proof fn false_token()
    ensures
        utf8("false").len() == 5,
        utf8("false")[0] == 102,
        utf8("false")[1] == 97,
        utf8("false")[2] == 108,
        utf8("false")[3] == 115,
        utf8("false")[4] == 101,
{
    reveal_strlit("false");
    token_bytes("false");
}

/// The bytes of the token `!`.
pub proof fn alt_token()
    ensures
        utf8("!").len() == 1,
        utf8("!")[0] == 33,
{
    reveal_strlit("!");
    token_bytes("!");
}

/// The bytes of the token `^`.
pub proof fn ctrl_token()
    ensures
        utf8("^").len() == 1,
        utf8("^")[0] == 94,
{
    reveal_strlit("^");
    token_bytes("^");
}

/// The bytes of the token `#`.
pub proof fn meta_token()
    ensures
        utf8("#").len() == 1,
        utf8("#")[0] == 35,
{
    reveal_strlit("#");
    token_bytes("#");
}

/// The bytes of `let` with the space behind it.
pub proof fn let_space_token()
    ensures
        utf8("let ").len() == 4,
        utf8("let ")[0] == 108,
        utf8("let ")[1] == 101,
        utf8("let ")[2] == 116,
        utf8("let ")[3] == 32,
{
    reveal_strlit("let ");
    token_bytes("let ");
}

/// The bytes of `if` with the parenthesis behind it.
pub proof fn if_open_token()
    ensures
        utf8("if(").len() == 3,
        utf8("if(")[0] == 105,
        utf8("if(")[1] == 102,
        utf8("if(")[2] == 40,
{
    reveal_strlit("if(");
    token_bytes("if(");
}

/// The tokens of the grammar, byte by byte.
pub proof fn tokens()
    ensures
        utf8("(") == seq![40u8],
        utf8(")") == seq![41u8],
        utf8(",") == seq![44u8],
        utf8(";") == seq![59u8],
        utf8("=") == seq![61u8],
        utf8("{") == seq![123u8],
        utf8("}") == seq![125u8],
        utf8("\"") == seq![34u8],
        utf8("*") == seq![42u8],
        utf8("/") == seq![47u8],
        utf8("+") == seq![43u8],
        utf8("-") == seq![45u8],
        utf8("<") == seq![60u8],
        utf8(">") == seq![62u8],
        utf8("==") == seq![61u8, 61u8],
        utf8("!=") == seq![33u8, 61u8],
        utf8("&&") == seq![38u8, 38u8],
        utf8("||") == seq![124u8, 124u8],
        utf8("??") == seq![63u8, 63u8],
        utf8("::") == seq![58u8, 58u8],
        utf8("if") == seq![105u8, 102u8],
        utf8("let") == seq![108u8, 101u8, 116u8],
        utf8("true") == seq![116u8, 114u8, 117u8, 101u8],
        utf8("false") == seq![102u8, 97u8, 108u8, 115u8, 101u8],
{
    open_token();
    close_token();
    comma_token();
    semicolon_token();
    assign_token();
    open_brace_token();
    close_brace_token();
    quote_token();
    star_token();
    slash_token();
    plus_token();
    minus_token();
    less_token();
    greater_token();
    equal_token();
    unequal_token();
    and_token();
    or_token();
    negation_token();
    colons_token();
    if_token();
    let_token();
    true_token();
    false_token();
    assert(utf8("(") =~= seq![40u8]);
    assert(utf8(")") =~= seq![41u8]);
    assert(utf8(",") =~= seq![44u8]);
    assert(utf8(";") =~= seq![59u8]);
    assert(utf8("=") =~= seq![61u8]);
    assert(utf8("{") =~= seq![123u8]);
    assert(utf8("}") =~= seq![125u8]);
    assert(utf8("\"") =~= seq![34u8]);
    assert(utf8("*") =~= seq![42u8]);
    assert(utf8("/") =~= seq![47u8]);
    assert(utf8("+") =~= seq![43u8]);
    assert(utf8("-") =~= seq![45u8]);
    assert(utf8("<") =~= seq![60u8]);
    assert(utf8(">") =~= seq![62u8]);
    assert(utf8("==") =~= seq![61u8, 61u8]);
    assert(utf8("!=") =~= seq![33u8, 61u8]);
    assert(utf8("&&") =~= seq![38u8, 38u8]);
    assert(utf8("||") =~= seq![124u8, 124u8]);
    assert(utf8("??") =~= seq![63u8, 63u8]);
    assert(utf8("::") =~= seq![58u8, 58u8]);
    assert(utf8("if") =~= seq![105u8, 102u8]);
    assert(utf8("let") =~= seq![108u8, 101u8, 116u8]);
    assert(utf8("true") =~= seq![116u8, 114u8, 117u8, 101u8]);
    assert(utf8("false") =~= seq![102u8, 97u8, 108u8, 115u8, 101u8]);
}

} // verus!
