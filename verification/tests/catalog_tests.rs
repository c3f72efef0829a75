use lexer::tokens::{get_precedence, patterns, Priority, Token, CATALOG_LEN};

#[test]
fn precedence_ordering() {
    assert!(get_precedence("MUL") > get_precedence("PLUS"));
    assert!(get_precedence("PLUS") > get_precedence("INFERIOR"));
    assert!(get_precedence("INFERIOR") > get_precedence("UNKNOWN"));
    assert_eq!(get_precedence("UNKNOWN"), Priority::LOWEST);
}

#[test]
fn precedence_table_entries() {
    assert_eq!(get_precedence("EQUAL"), Priority::LOWER);
    assert_eq!(get_precedence("NOTEQ"), Priority::LOWER);
    assert_eq!(get_precedence("INFERIOR"), Priority::LOW);
    assert_eq!(get_precedence("SUPERIOR"), Priority::LOW);
    assert_eq!(get_precedence("PLUS"), Priority::HIGH);
    assert_eq!(get_precedence("MINUS"), Priority::HIGH);
    assert_eq!(get_precedence("MUL"), Priority::HIGHER);
    assert_eq!(get_precedence("DIV"), Priority::HIGHER);
    assert_eq!(get_precedence("LPAREN"), Priority::HIGHEST);
}

#[test]
fn precedence_defaults_to_lowest() {
    // Kinds without a table entry default to LOWEST, the two-character
    // comparison operators among them.
    assert_eq!(get_precedence("INFERIOREQ"), Priority::LOWEST);
    assert_eq!(get_precedence("SUPERIOREQ"), Priority::LOWEST);
    assert_eq!(get_precedence("ID"), Priority::LOWEST);
    assert_eq!(get_precedence(""), Priority::LOWEST);
    assert_eq!(get_precedence("mul"), Priority::LOWEST);
}

#[test]
fn priority_is_totally_ordered() {
    assert!(Priority::LOWEST < Priority::LOWER);
    assert!(Priority::LOWER < Priority::LOW);
    assert!(Priority::LOW < Priority::HIGH);
    assert!(Priority::HIGH < Priority::HIGHER);
    assert!(Priority::HIGHER < Priority::HIGHEST);
}

#[test]
fn priority_levels_follow_the_order() {
    assert_eq!(Priority::LOWEST.level(), 0);
    assert_eq!(Priority::LOWER.level(), 1);
    assert_eq!(Priority::LOW.level(), 2);
    assert_eq!(Priority::HIGH.level(), 3);
    assert_eq!(Priority::HIGHER.level(), 4);
    assert_eq!(Priority::HIGHEST.level(), 5);
}

#[test]
fn priority_names() {
    assert_eq!(Priority::LOWEST.get_name(), "LOWEST");
    assert_eq!(Priority::LOWER.get_name(), "LOWER");
    assert_eq!(Priority::LOW.get_name(), "LOW");
    assert_eq!(Priority::HIGH.get_name(), "HIGH");
    assert_eq!(Priority::HIGHER.get_name(), "HIGHER");
    assert_eq!(Priority::HIGHEST.get_name(), "HIGHEST");
}

#[test]
fn token_names() {
    assert_eq!(Token::PLUS.get_name(), "PLUS");
    assert_eq!(Token::INFERIOREQ.get_name(), "INFERIOREQ");
    assert_eq!(Token::MOVE_UP.get_name(), "MOVE_UP");
    assert_eq!(Token::ID.get_name(), "ID");
}

#[test]
fn token_patterns() {
    assert_eq!(Token::PLUS.get_value(), r#"\+"#);
    assert_eq!(Token::INFERIOREQ.get_value(), r#"<="#);
    assert_eq!(Token::STRING.get_value(), r#"("[^"]*")|('[^']*')"#);
    assert_eq!(Token::FLOAT.get_value(), r#"\d+\.\d+"#);
    assert_eq!(Token::ID.get_value(), r#"[_a-zA-Z][_a-zA-Z0-9]*"#);
}

#[test]
fn catalog_order_puts_specific_before_general() {
    let pats = patterns();
    assert_eq!(pats.len(), CATALOG_LEN);
    assert_eq!(pats[0], Token::PLUS);
    let pos = |k: Token| pats.iter().position(|&p| p == k).unwrap();
    // Keywords and movement commands are declared before the identifier
    // pattern, so that on a tie in matched length the keyword wins; the
    // identifier pattern comes last.
    assert!(pos(Token::IF) < pos(Token::ID));
    assert!(pos(Token::TRUE) < pos(Token::ID));
    assert!(pos(Token::MOVE_RIGHT) < pos(Token::ID));
    assert!(pos(Token::FLOAT) < pos(Token::INTEGER));
    assert_eq!(pos(Token::ID), CATALOG_LEN - 1);
}

#[test]
fn catalog_names_are_unique() {
    let pats = patterns();
    for i in 0..pats.len() {
        for j in 0..pats.len() {
            if i != j {
                assert_ne!(pats[i].get_name(), pats[j].get_name());
            }
        }
    }
}
