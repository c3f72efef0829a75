//! The token catalog: the closed set of token kinds, each with a symbolic
//! name and a matching pattern, in a fixed declaration order that decides
//! ties during scanning; and the operator-precedence table consumed by an
//! expression parser.

use vstd::prelude::*;

verus! {

/// A token kind of the catalog. The declaration order of the variants is the
/// catalog's declaration order: among overlapping matches of equal length the
/// scanner picks the kind that comes first here (see [`crate::matching`]).
#[allow(non_camel_case_types)]
#[derive(Debug, Clone, Copy, PartialEq, Eq, Structural)]
pub enum Token {
    // Calculator tokens
    PLUS,
    MINUS,
    MUL,
    DIV,
    MODULO,
    LPAREN,
    RPAREN,
    // Logic tokens
    AND,
    OR,
    XOR,
    NOT,
    // Syntax tokens
    SEMI,
    COMMA,
    LBRACE,
    RBRACE,
    LSQUARE,
    RSQUARE,
    // Comparison tokens
    EQUAL,
    NOTEQ,
    INFERIOR,
    SUPERIOR,
    INFERIOREQ,
    SUPERIOREQ,
    ASSIGN,
    // Literals
    STRING,
    FLOAT,
    INTEGER,
    TRUE,
    FALSE,
    // Reserved keywords
    VAR,
    FUNCTION,
    IF,
    WHILE,
    ELSE,
    RETURN,
    NAN,
    PRINT,
    WHITESPACE,
    COMMENT,
    // Domain movement commands
    MOVE_UP,
    MOVE_DOWN,
    MOVE_LEFT,
    MOVE_RIGHT,
    ID,
}

/// Number of entries in the catalog.
pub const CATALOG_LEN: usize = 44;

/// The catalog in declaration order: the order in which the scanner tries the
/// kinds, and the order that breaks ties among matches of equal length.
pub open spec fn catalog() -> Seq<Token> {
    seq![
        Token::PLUS,
        Token::MINUS,
        Token::MUL,
        Token::DIV,
        Token::MODULO,
        Token::LPAREN,
        Token::RPAREN,
        Token::AND,
        Token::OR,
        Token::XOR,
        Token::NOT,
        Token::SEMI,
        Token::COMMA,
        Token::LBRACE,
        Token::RBRACE,
        Token::LSQUARE,
        Token::RSQUARE,
        Token::EQUAL,
        Token::NOTEQ,
        Token::INFERIOR,
        Token::SUPERIOR,
        Token::INFERIOREQ,
        Token::SUPERIOREQ,
        Token::ASSIGN,
        Token::STRING,
        Token::FLOAT,
        Token::INTEGER,
        Token::TRUE,
        Token::FALSE,
        Token::VAR,
        Token::FUNCTION,
        Token::IF,
        Token::WHILE,
        Token::ELSE,
        Token::RETURN,
        Token::NAN,
        Token::PRINT,
        Token::WHITESPACE,
        Token::COMMENT,
        Token::MOVE_UP,
        Token::MOVE_DOWN,
        Token::MOVE_LEFT,
        Token::MOVE_RIGHT,
        Token::ID,
    ]
}

/// The catalog as an executable ordered sequence, in declaration order.
pub fn patterns() -> (r: Vec<Token>)
    ensures
        r@ == catalog(),
{
    let mut r: Vec<Token> = Vec::new();
    r.push(Token::PLUS);
    r.push(Token::MINUS);
    r.push(Token::MUL);
    r.push(Token::DIV);
    r.push(Token::MODULO);
    r.push(Token::LPAREN);
    r.push(Token::RPAREN);
    r.push(Token::AND);
    r.push(Token::OR);
    r.push(Token::XOR);
    r.push(Token::NOT);
    r.push(Token::SEMI);
    r.push(Token::COMMA);
    r.push(Token::LBRACE);
    r.push(Token::RBRACE);
    r.push(Token::LSQUARE);
    r.push(Token::RSQUARE);
    r.push(Token::EQUAL);
    r.push(Token::NOTEQ);
    r.push(Token::INFERIOR);
    r.push(Token::SUPERIOR);
    r.push(Token::INFERIOREQ);
    r.push(Token::SUPERIOREQ);
    r.push(Token::ASSIGN);
    r.push(Token::STRING);
    r.push(Token::FLOAT);
    r.push(Token::INTEGER);
    r.push(Token::TRUE);
    r.push(Token::FALSE);
    r.push(Token::VAR);
    r.push(Token::FUNCTION);
    r.push(Token::IF);
    r.push(Token::WHILE);
    r.push(Token::ELSE);
    r.push(Token::RETURN);
    r.push(Token::NAN);
    r.push(Token::PRINT);
    r.push(Token::WHITESPACE);
    r.push(Token::COMMENT);
    r.push(Token::MOVE_UP);
    r.push(Token::MOVE_DOWN);
    r.push(Token::MOVE_LEFT);
    r.push(Token::MOVE_RIGHT);
    r.push(Token::ID);
    assert(r@ =~= catalog());
    r
}

/// The pattern text of each kind, as catalog data (regular-expression style).
pub open spec fn spec_pattern(t: Token) -> Seq<char> {
    match t {
        Token::PLUS => r#"\+"#@,
        Token::MINUS => r#"\-"#@,
        Token::MUL => r#"\*"#@,
        Token::DIV => r#"/"#@,
        Token::MODULO => r#"%"#@,
        Token::LPAREN => r#"\("#@,
        Token::RPAREN => r#"\)"#@,
        Token::AND => r#"&&"#@,
        Token::OR => r#"\|\|"#@,
        Token::XOR => r#"\^"#@,
        Token::NOT => r#"!"#@,
        Token::SEMI => r#";"#@,
        Token::COMMA => r#","#@,
        Token::LBRACE => r#"\{"#@,
        Token::RBRACE => r#"\}"#@,
        Token::LSQUARE => r#"\["#@,
        Token::RSQUARE => r#"\]"#@,
        Token::EQUAL => r#"=="#@,
        Token::NOTEQ => r#"!="#@,
        Token::INFERIOR => r#"<"#@,
        Token::SUPERIOR => r#">"#@,
        Token::INFERIOREQ => r#"<="#@,
        Token::SUPERIOREQ => r#">="#@,
        Token::ASSIGN => r#"="#@,
        Token::STRING => r#"("[^"]*")|('[^']*')"#@,
        Token::FLOAT => r#"\d+\.\d+"#@,
        Token::INTEGER => r#"\d+"#@,
        Token::TRUE => r#"true"#@,
        Token::FALSE => r#"false"#@,
        Token::VAR => r#"var"#@,
        Token::FUNCTION => r#"function"#@,
        Token::IF => r#"if"#@,
        Token::WHILE => r#"while"#@,
        Token::ELSE => r#"else"#@,
        Token::RETURN => r#"return"#@,
        Token::NAN => r#"nan"#@,
        Token::PRINT => r#"print"#@,
        Token::WHITESPACE => r#"(\t|\n|\s|\r)+"#@,
        Token::COMMENT => r#"#.*"#@,
        Token::MOVE_UP => r#"MoveUp"#@,
        Token::MOVE_DOWN => r#"MoveDown"#@,
        Token::MOVE_LEFT => r#"MoveLeft"#@,
        Token::MOVE_RIGHT => r#"MoveRight"#@,
        Token::ID => r#"[_a-zA-Z][_a-zA-Z0-9]*"#@,
    }
}

/// The symbolic name of each kind.
pub open spec fn spec_name(t: Token) -> Seq<char> {
    match t {
        Token::PLUS => "PLUS"@,
        Token::MINUS => "MINUS"@,
        Token::MUL => "MUL"@,
        Token::DIV => "DIV"@,
        Token::MODULO => "MODULO"@,
        Token::LPAREN => "LPAREN"@,
        Token::RPAREN => "RPAREN"@,
        Token::AND => "AND"@,
        Token::OR => "OR"@,
        Token::XOR => "XOR"@,
        Token::NOT => "NOT"@,
        Token::SEMI => "SEMI"@,
        Token::COMMA => "COMMA"@,
        Token::LBRACE => "LBRACE"@,
        Token::RBRACE => "RBRACE"@,
        Token::LSQUARE => "LSQUARE"@,
        Token::RSQUARE => "RSQUARE"@,
        Token::EQUAL => "EQUAL"@,
        Token::NOTEQ => "NOTEQ"@,
        Token::INFERIOR => "INFERIOR"@,
        Token::SUPERIOR => "SUPERIOR"@,
        Token::INFERIOREQ => "INFERIOREQ"@,
        Token::SUPERIOREQ => "SUPERIOREQ"@,
        Token::ASSIGN => "ASSIGN"@,
        Token::STRING => "STRING"@,
        Token::FLOAT => "FLOAT"@,
        Token::INTEGER => "INTEGER"@,
        Token::TRUE => "TRUE"@,
        Token::FALSE => "FALSE"@,
        Token::VAR => "VAR"@,
        Token::FUNCTION => "FUNCTION"@,
        Token::IF => "IF"@,
        Token::WHILE => "WHILE"@,
        Token::ELSE => "ELSE"@,
        Token::RETURN => "RETURN"@,
        Token::NAN => "NAN"@,
        Token::PRINT => "PRINT"@,
        Token::WHITESPACE => "WHITESPACE"@,
        Token::COMMENT => "COMMENT"@,
        Token::MOVE_UP => "MOVE_UP"@,
        Token::MOVE_DOWN => "MOVE_DOWN"@,
        Token::MOVE_LEFT => "MOVE_LEFT"@,
        Token::MOVE_RIGHT => "MOVE_RIGHT"@,
        Token::ID => "ID"@,
    }
}

impl Token {
    /// The pattern of this kind, as written in the catalog.
    pub fn get_value(&self) -> (r: &'static str)
        ensures
            r@ == spec_pattern(*self),
    {
        match self {
            Token::PLUS => r#"\+"#,
            Token::MINUS => r#"\-"#,
            Token::MUL => r#"\*"#,
            Token::DIV => r#"/"#,
            Token::MODULO => r#"%"#,
            Token::LPAREN => r#"\("#,
            Token::RPAREN => r#"\)"#,
            Token::AND => r#"&&"#,
            Token::OR => r#"\|\|"#,
            Token::XOR => r#"\^"#,
            Token::NOT => r#"!"#,
            Token::SEMI => r#";"#,
            Token::COMMA => r#","#,
            Token::LBRACE => r#"\{"#,
            Token::RBRACE => r#"\}"#,
            Token::LSQUARE => r#"\["#,
            Token::RSQUARE => r#"\]"#,
            Token::EQUAL => r#"=="#,
            Token::NOTEQ => r#"!="#,
            Token::INFERIOR => r#"<"#,
            Token::SUPERIOR => r#">"#,
            Token::INFERIOREQ => r#"<="#,
            Token::SUPERIOREQ => r#">="#,
            Token::ASSIGN => r#"="#,
            Token::STRING => r#"("[^"]*")|('[^']*')"#,
            Token::FLOAT => r#"\d+\.\d+"#,
            Token::INTEGER => r#"\d+"#,
            Token::TRUE => r#"true"#,
            Token::FALSE => r#"false"#,
            Token::VAR => r#"var"#,
            Token::FUNCTION => r#"function"#,
            Token::IF => r#"if"#,
            Token::WHILE => r#"while"#,
            Token::ELSE => r#"else"#,
            Token::RETURN => r#"return"#,
            Token::NAN => r#"nan"#,
            Token::PRINT => r#"print"#,
            Token::WHITESPACE => r#"(\t|\n|\s|\r)+"#,
            Token::COMMENT => r#"#.*"#,
            Token::MOVE_UP => r#"MoveUp"#,
            Token::MOVE_DOWN => r#"MoveDown"#,
            Token::MOVE_LEFT => r#"MoveLeft"#,
            Token::MOVE_RIGHT => r#"MoveRight"#,
            Token::ID => r#"[_a-zA-Z][_a-zA-Z0-9]*"#,
        }
    }

    /// The symbolic name of this kind.
    pub fn get_name(&self) -> (r: &'static str)
        ensures
            r@ == spec_name(*self),
    {
        match self {
            Token::PLUS => "PLUS",
            Token::MINUS => "MINUS",
            Token::MUL => "MUL",
            Token::DIV => "DIV",
            Token::MODULO => "MODULO",
            Token::LPAREN => "LPAREN",
            Token::RPAREN => "RPAREN",
            Token::AND => "AND",
            Token::OR => "OR",
            Token::XOR => "XOR",
            Token::NOT => "NOT",
            Token::SEMI => "SEMI",
            Token::COMMA => "COMMA",
            Token::LBRACE => "LBRACE",
            Token::RBRACE => "RBRACE",
            Token::LSQUARE => "LSQUARE",
            Token::RSQUARE => "RSQUARE",
            Token::EQUAL => "EQUAL",
            Token::NOTEQ => "NOTEQ",
            Token::INFERIOR => "INFERIOR",
            Token::SUPERIOR => "SUPERIOR",
            Token::INFERIOREQ => "INFERIOREQ",
            Token::SUPERIOREQ => "SUPERIOREQ",
            Token::ASSIGN => "ASSIGN",
            Token::STRING => "STRING",
            Token::FLOAT => "FLOAT",
            Token::INTEGER => "INTEGER",
            Token::TRUE => "TRUE",
            Token::FALSE => "FALSE",
            Token::VAR => "VAR",
            Token::FUNCTION => "FUNCTION",
            Token::IF => "IF",
            Token::WHILE => "WHILE",
            Token::ELSE => "ELSE",
            Token::RETURN => "RETURN",
            Token::NAN => "NAN",
            Token::PRINT => "PRINT",
            Token::WHITESPACE => "WHITESPACE",
            Token::COMMENT => "COMMENT",
            Token::MOVE_UP => "MOVE_UP",
            Token::MOVE_DOWN => "MOVE_DOWN",
            Token::MOVE_LEFT => "MOVE_LEFT",
            Token::MOVE_RIGHT => "MOVE_RIGHT",
            Token::ID => "ID",
        }
    }
}

/// Binding strength of an operator, from loosest to tightest.
#[derive(Debug, Clone, Copy, PartialEq, Eq, PartialOrd, Ord, Structural)]
pub enum Priority {
    LOWEST,
    LOWER,
    LOW,
    HIGH,
    HIGHER,
    HIGHEST,
}

/// The rank of a priority in the total order LOWEST < LOWER < LOW < HIGH <
/// HIGHER < HIGHEST.
pub open spec fn spec_level(p: Priority) -> int {
    match p {
        Priority::LOWEST => 0,
        Priority::LOWER => 1,
        Priority::LOW => 2,
        Priority::HIGH => 3,
        Priority::HIGHER => 4,
        Priority::HIGHEST => 5,
    }
}

/// The symbolic name of each priority.
pub open spec fn spec_priority_name(p: Priority) -> Seq<char> {
    match p {
        Priority::LOWEST => "LOWEST"@,
        Priority::LOWER => "LOWER"@,
        Priority::LOW => "LOW"@,
        Priority::HIGH => "HIGH"@,
        Priority::HIGHER => "HIGHER"@,
        Priority::HIGHEST => "HIGHEST"@,
    }
}

impl Priority {
    /// The symbolic name of this priority.
    pub fn get_name(&self) -> (r: &'static str)
        ensures
            r@ == spec_priority_name(*self),
    {
        match self {
            Priority::LOWEST => "LOWEST",
            Priority::LOWER => "LOWER",
            Priority::LOW => "LOW",
            Priority::HIGH => "HIGH",
            Priority::HIGHER => "HIGHER",
            Priority::HIGHEST => "HIGHEST",
        }
    }

    /// The rank of this priority in the total order, 0 for LOWEST up to 5 for
    /// HIGHEST.
    pub fn level(&self) -> (n: u8)
        ensures
            n as int == spec_level(*self),
    {
        match self {
            Priority::LOWEST => 0,
            Priority::LOWER => 1,
            Priority::LOW => 2,
            Priority::HIGH => 3,
            Priority::HIGHER => 4,
            Priority::HIGHEST => 5,
        }
    }
}

/// The precedence table: a total function from a token-kind name to a
/// priority. Names absent from the table yield LOWEST.
pub open spec fn spec_precedence(name: Seq<char>) -> Priority {
    if name == "EQUAL"@ || name == "NOTEQ"@ {
        Priority::LOWER
    } else if name == "INFERIOR"@ || name == "SUPERIOR"@ {
        Priority::LOW
    } else if name == "PLUS"@ || name == "MINUS"@ {
        Priority::HIGH
    } else if name == "MUL"@ || name == "DIV"@ {
        Priority::HIGHER
    } else if name == "LPAREN"@ {
        Priority::HIGHEST
    } else {
        Priority::LOWEST
    }
}

/// Whether a token-kind name has an entry in the precedence table.
pub open spec fn in_precedence_table(name: Seq<char>) -> bool {
    ||| name == "EQUAL"@
    ||| name == "NOTEQ"@
    ||| name == "INFERIOR"@
    ||| name == "SUPERIOR"@
    ||| name == "PLUS"@
    ||| name == "MINUS"@
    ||| name == "MUL"@
    ||| name == "DIV"@
    ||| name == "LPAREN"@
}

/// String equality on character content.
fn str_eq(a: &str, b: &str) -> (r: bool)
    ensures
        r == (a@ == b@),
{
    let x: String = a.to_owned();
    let y: String = b.to_owned();
    x == y
}

/// Looks a token-kind name up in the precedence table; names absent from the
/// table, including unrecognized ones, yield LOWEST.
pub fn get_precedence(token: &str) -> (r: Priority)
    ensures
        r == spec_precedence(token@),
{
    if str_eq(token, "EQUAL") || str_eq(token, "NOTEQ") {
        Priority::LOWER
    } else if str_eq(token, "INFERIOR") || str_eq(token, "SUPERIOR") {
        Priority::LOW
    } else if str_eq(token, "PLUS") || str_eq(token, "MINUS") {
        Priority::HIGH
    } else if str_eq(token, "MUL") || str_eq(token, "DIV") {
        Priority::HIGHER
    } else if str_eq(token, "LPAREN") {
        Priority::HIGHEST
    } else {
        Priority::LOWEST
    }
}

/// The precedence table orders the operator families as the expression
/// grammar needs: multiplicative operators bind tighter than additive ones,
/// additive ones tighter than comparisons, and every name without a table
/// entry — unrecognized names included — sits at the bottom, LOWEST.
pub proof fn lemma_precedence_order()
    ensures
        spec_level(spec_precedence("MUL"@)) > spec_level(spec_precedence("PLUS"@)),
        spec_level(spec_precedence("PLUS"@)) > spec_level(spec_precedence("INFERIOR"@)),
        spec_level(spec_precedence("INFERIOR"@)) > spec_level(Priority::LOWEST),
        forall|name: Seq<char>| !in_precedence_table(name) ==> spec_precedence(name)
            == Priority::LOWEST,
{
    reveal_strlit("EQUAL");
    reveal_strlit("NOTEQ");
    reveal_strlit("INFERIOR");
    reveal_strlit("SUPERIOR");
    reveal_strlit("PLUS");
    reveal_strlit("MINUS");
    reveal_strlit("MUL");
    reveal_strlit("DIV");
    reveal_strlit("LPAREN");
    assert("EQUAL"@.len() == 5);
    assert("NOTEQ"@.len() == 5);
    assert("INFERIOR"@.len() == 8);
    assert("SUPERIOR"@.len() == 8);
    assert("PLUS"@.len() == 4);
    assert("MINUS"@.len() == 5);
    assert("MUL"@.len() == 3);
    assert("DIV"@.len() == 3);
    assert("LPAREN"@.len() == 6);
    assert("MUL"@[0] == 'M');
    assert("DIV"@[0] == 'D');
    assert(spec_precedence("MUL"@) == Priority::HIGHER);
    assert(spec_precedence("PLUS"@) == Priority::HIGH);
    assert(spec_precedence("INFERIOR"@) == Priority::LOW);
}

} // verus!

