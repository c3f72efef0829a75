use lexer::scanner::{Scanner, TokenClass};
use lexer::tokens::Token;

fn lex(src: &str) -> Vec<(TokenClass, String, usize)> {
    let mut sc = Scanner::new(src.chars().collect());
    sc.tokenize_all()
        .into_iter()
        .map(|t| (t.kind, t.lexeme.iter().collect(), t.pos))
        .collect()
}

fn cat(k: Token, lexeme: &str, pos: usize) -> (TokenClass, String, usize) {
    (TokenClass::Catalog(k), lexeme.to_string(), pos)
}

fn eof(pos: usize) -> (TokenClass, String, usize) {
    (TokenClass::Eof, "\0".to_string(), pos)
}

#[test]
fn empty_source_yields_only_eof() {
    assert_eq!(lex(""), vec![eof(0)]);
}

#[test]
fn whitespace_only_yields_only_eof() {
    assert_eq!(lex("   \t\n\r  "), vec![eof(8)]);
}

#[test]
fn comment_only_yields_only_eof() {
    assert_eq!(lex("# just a comment"), vec![eof(16)]);
}

#[test]
fn whitespace_and_comments_yield_only_eof() {
    assert_eq!(lex("  # one\n\t# two\n   "), vec![eof(18)]);
}

#[test]
fn less_equal_is_one_token() {
    assert_eq!(
        lex("<="),
        vec![cat(Token::INFERIOREQ, "<=", 0), eof(2)]
    );
}

#[test]
fn less_space_equal_is_two_tokens() {
    assert_eq!(
        lex("< ="),
        vec![
            cat(Token::INFERIOR, "<", 0),
            cat(Token::ASSIGN, "=", 2),
            eof(3)
        ]
    );
}

#[test]
fn greater_equal_and_friends() {
    assert_eq!(
        lex(">= == !="),
        vec![
            cat(Token::SUPERIOREQ, ">=", 0),
            cat(Token::EQUAL, "==", 3),
            cat(Token::NOTEQ, "!=", 6),
            eof(8)
        ]
    );
}

#[test]
fn float_is_one_token() {
    assert_eq!(lex("123.45"), vec![cat(Token::FLOAT, "123.45", 0), eof(6)]);
}

#[test]
fn integer_is_one_token() {
    assert_eq!(lex("123"), vec![cat(Token::INTEGER, "123", 0), eof(3)]);
}

#[test]
fn integer_dot_identifier() {
    assert_eq!(
        lex("1.x"),
        vec![
            cat(Token::INTEGER, "1", 0),
            (TokenClass::Illegal, ".".to_string(), 1),
            cat(Token::ID, "x", 2),
            eof(3)
        ]
    );
}

#[test]
fn iffy_is_an_identifier() {
    assert_eq!(lex("iffy"), vec![cat(Token::ID, "iffy", 0), eof(4)]);
}

#[test]
fn truex_is_an_identifier() {
    assert_eq!(lex("truex"), vec![cat(Token::ID, "truex", 0), eof(5)]);
}

#[test]
fn if_paren_x_paren() {
    assert_eq!(
        lex("if(x)"),
        vec![
            cat(Token::IF, "if", 0),
            cat(Token::LPAREN, "(", 2),
            cat(Token::ID, "x", 3),
            cat(Token::RPAREN, ")", 4),
            eof(5)
        ]
    );
}

#[test]
fn unrecognized_character_is_illegal() {
    assert_eq!(
        lex("@"),
        vec![(TokenClass::Illegal, "@".to_string(), 0), eof(1)]
    );
}

#[test]
fn scanning_continues_past_illegal() {
    assert_eq!(
        lex("@x"),
        vec![
            (TokenClass::Illegal, "@".to_string(), 0),
            cat(Token::ID, "x", 1),
            eof(2)
        ]
    );
}

#[test]
fn keywords_match_before_identifier() {
    assert_eq!(
        lex("true false var function if while else return nan print"),
        vec![
            cat(Token::TRUE, "true", 0),
            cat(Token::FALSE, "false", 5),
            cat(Token::VAR, "var", 11),
            cat(Token::FUNCTION, "function", 15),
            cat(Token::IF, "if", 24),
            cat(Token::WHILE, "while", 27),
            cat(Token::ELSE, "else", 33),
            cat(Token::RETURN, "return", 38),
            cat(Token::NAN, "nan", 45),
            cat(Token::PRINT, "print", 49),
            eof(54)
        ]
    );
}

#[test]
fn movement_commands_match_before_identifier() {
    assert_eq!(
        lex("MoveUp MoveDown MoveLeft MoveRight"),
        vec![
            cat(Token::MOVE_UP, "MoveUp", 0),
            cat(Token::MOVE_DOWN, "MoveDown", 7),
            cat(Token::MOVE_LEFT, "MoveLeft", 16),
            cat(Token::MOVE_RIGHT, "MoveRight", 25),
            eof(34)
        ]
    );
}

#[test]
fn movement_prefix_is_an_identifier() {
    assert_eq!(lex("MoveUpward"), vec![cat(Token::ID, "MoveUpward", 0), eof(10)]);
}

#[test]
fn operators_and_punctuation() {
    assert_eq!(
        lex("+-*/%(){}[];,^!"),
        vec![
            cat(Token::PLUS, "+", 0),
            cat(Token::MINUS, "-", 1),
            cat(Token::MUL, "*", 2),
            cat(Token::DIV, "/", 3),
            cat(Token::MODULO, "%", 4),
            cat(Token::LPAREN, "(", 5),
            cat(Token::RPAREN, ")", 6),
            cat(Token::LBRACE, "{", 7),
            cat(Token::RBRACE, "}", 8),
            cat(Token::LSQUARE, "[", 9),
            cat(Token::RSQUARE, "]", 10),
            cat(Token::SEMI, ";", 11),
            cat(Token::COMMA, ",", 12),
            cat(Token::XOR, "^", 13),
            cat(Token::NOT, "!", 14),
            eof(15)
        ]
    );
}

#[test]
fn logical_and_or() {
    assert_eq!(
        lex("&& ||"),
        vec![cat(Token::AND, "&&", 0), cat(Token::OR, "||", 3), eof(5)]
    );
}

#[test]
fn lone_ampersand_is_illegal() {
    assert_eq!(
        lex("&"),
        vec![(TokenClass::Illegal, "&".to_string(), 0), eof(1)]
    );
}

#[test]
fn double_quoted_string() {
    assert_eq!(
        lex("\"hello world\""),
        vec![cat(Token::STRING, "\"hello world\"", 0), eof(13)]
    );
}

#[test]
fn single_quoted_string() {
    assert_eq!(lex("'ab'"), vec![cat(Token::STRING, "'ab'", 0), eof(4)]);
}

#[test]
fn unterminated_string_is_illegal_quote() {
    assert_eq!(
        lex("\"ab"),
        vec![
            (TokenClass::Illegal, "\"".to_string(), 0),
            cat(Token::ID, "ab", 1),
            eof(3)
        ]
    );
}

#[test]
fn string_has_no_escapes() {
    // The backslash does not escape the closing quote: the literal ends at
    // the first quote of the same style.
    assert_eq!(
        lex("'a\\'"),
        vec![cat(Token::STRING, "'a\\'", 0), eof(4)]
    );
}

#[test]
fn comment_runs_to_end_of_line() {
    assert_eq!(
        lex("a # comment ; if\nb"),
        vec![cat(Token::ID, "a", 0), cat(Token::ID, "b", 17), eof(18)]
    );
}

#[test]
fn assignment_statement() {
    assert_eq!(
        lex("var x = 1;"),
        vec![
            cat(Token::VAR, "var", 0),
            cat(Token::ID, "x", 4),
            cat(Token::ASSIGN, "=", 6),
            cat(Token::INTEGER, "1", 8),
            cat(Token::SEMI, ";", 9),
            eof(10)
        ]
    );
}

#[test]
fn next_token_is_idempotent_at_eof() {
    let mut sc = Scanner::new("+".chars().collect());
    let t1 = sc.next_token();
    assert_eq!(t1.kind, TokenClass::Catalog(Token::PLUS));
    let t2 = sc.next_token();
    let t3 = sc.next_token();
    assert_eq!(t2.kind, TokenClass::Eof);
    assert_eq!(t2, t3);
}

#[test]
fn eof_lexeme_is_the_sentinel() {
    let mut sc = Scanner::new(Vec::new());
    let t = sc.next_token();
    assert_eq!(t.kind, TokenClass::Eof);
    assert_eq!(t.lexeme, vec!['\0']);
    assert_eq!(t.pos, 0);
}

#[test]
fn token_class_names() {
    assert_eq!(TokenClass::Eof.get_name(), "EOF");
    assert_eq!(TokenClass::Illegal.get_name(), "ILLEGAL");
    assert_eq!(TokenClass::Catalog(Token::INFERIOREQ).get_name(), "INFERIOREQ");
}

#[test]
fn two_scanners_same_input_same_output() {
    let src = "var x_1 = 12.5; # set\nwhile (x_1 <= 3) { MoveUp } @";
    let mut a = Scanner::new(src.chars().collect());
    let mut b = Scanner::new(src.chars().collect());
    assert_eq!(a.tokenize_all(), b.tokenize_all());
}
