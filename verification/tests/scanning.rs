use raven_lang::{Scanner, TokenType};

fn kinds(source: &str) -> Vec<(String, TokenType, usize)> {
    let mut scanner = Scanner::new(source);
    let mut out = Vec::new();
    loop {
        match scanner.get_token() {
            Ok(token) => {
                let done = token.typee == TokenType::EOF;
                out.push((token.lexeme.to_string(), token.typee, token.line));
                if done {
                    return out;
                }
            }
            Err(token) => {
                out.push((token.lexeme.to_string(), token.typee, token.line));
                return out;
            }
        }
    }
}

#[test]
fn empty_source_yields_eof() {
    let tokens = kinds("");
    assert_eq!(tokens, vec![(String::new(), TokenType::EOF, 1)]);
}

#[test]
fn keywords_are_recognised() {
    for (src, tt) in [
        ("and", TokenType::And),
        ("else", TokenType::Else),
        ("false", TokenType::False),
        ("for", TokenType::For),
        ("function", TokenType::Function),
        ("if", TokenType::If),
        ("in", TokenType::In),
        ("import", TokenType::Import),
        ("let", TokenType::Let),
        ("match", TokenType::Match),
        ("mutable", TokenType::Mutable),
        ("not", TokenType::Not),
        ("or", TokenType::Or),
        ("public", TokenType::Public),
        ("return", TokenType::Return),
        ("self", TokenType::Selff),
        ("struct", TokenType::Struct),
        ("true", TokenType::True),
        ("while", TokenType::While),
    ] {
        let tokens = kinds(src);
        assert_eq!(tokens[0], (src.to_string(), tt, 1), "keyword {}", src);
        assert_eq!(tokens[1].1, TokenType::EOF);
    }
}

#[test]
fn near_keywords_are_identifiers() {
    for src in ["ands", "le", "letter", "whil", "selfish", "structure", "f", "i"] {
        let tokens = kinds(src);
        assert_eq!(tokens[0], (src.to_string(), TokenType::Identifier, 1), "{}", src);
    }
}

#[test]
fn numbers_take_digits_and_a_dotted_fraction() {
    assert_eq!(kinds("123")[0], ("123".to_string(), TokenType::Number, 1));
    assert_eq!(kinds("3.14")[0], ("3.14".to_string(), TokenType::Number, 1));
    // A dot not followed by a digit stays out of the number.
    let tokens = kinds("1.");
    assert_eq!(tokens[0], ("1".to_string(), TokenType::Number, 1));
    assert_eq!(tokens[1], (".".to_string(), TokenType::Dot, 1));
}

#[test]
fn single_character_tokens() {
    let tokens = kinds("(){},.");
    let expected = [
        ("(", TokenType::LeftParen),
        (")", TokenType::RightParen),
        ("{", TokenType::LeftBrace),
        ("}", TokenType::RightBrace),
        (",", TokenType::Comma),
        (".", TokenType::Dot),
    ];
    for (i, (lexeme, tt)) in expected.iter().enumerate() {
        assert_eq!(tokens[i], (lexeme.to_string(), *tt, 1));
    }
}

#[test]
fn operators_compound_with_equals() {
    let tokens = kinds("+= -= *= /= == != <= >=");
    let expected = [
        ("+=", TokenType::PlusEqual),
        ("-=", TokenType::MinusEqual),
        ("*=", TokenType::StarEqual),
        ("/=", TokenType::SlashEqual),
        ("==", TokenType::EqualEqual),
        ("!=", TokenType::BangEqual),
        ("<=", TokenType::LessEqual),
        (">=", TokenType::GreaterEqual),
    ];
    for (i, (lexeme, tt)) in expected.iter().enumerate() {
        assert_eq!(tokens[i], (lexeme.to_string(), *tt, 1));
    }
}

#[test]
fn operators_stand_alone_without_equals() {
    let tokens = kinds("+ - * / ! = < >");
    let expected = [
        ("+", TokenType::Plus),
        ("-", TokenType::Minus),
        ("*", TokenType::Star),
        ("/", TokenType::Slash),
        ("!", TokenType::Bang),
        ("=", TokenType::Equal),
        ("<", TokenType::Less),
        (">", TokenType::Greater),
    ];
    for (i, (lexeme, tt)) in expected.iter().enumerate() {
        assert_eq!(tokens[i], (lexeme.to_string(), *tt, 1));
    }
}

#[test]
fn a_small_statement_scans_token_by_token() {
    let tokens = kinds("let x = 1.5");
    assert_eq!(tokens[0], ("let".to_string(), TokenType::Let, 1));
    assert_eq!(tokens[1], ("x".to_string(), TokenType::Identifier, 1));
    assert_eq!(tokens[2], ("=".to_string(), TokenType::Equal, 1));
    assert_eq!(tokens[3], ("1.5".to_string(), TokenType::Number, 1));
    assert_eq!(tokens[4].1, TokenType::EOF);
}

#[test]
fn newlines_advance_the_line_counter() {
    let tokens = kinds("a\nb\nc");
    assert_eq!(tokens[0], ("a".to_string(), TokenType::Identifier, 1));
    assert_eq!(tokens[1], ("b".to_string(), TokenType::Identifier, 2));
    assert_eq!(tokens[2], ("c".to_string(), TokenType::Identifier, 3));
}

#[test]
fn comments_run_to_the_end_of_the_line() {
    let tokens = kinds("# greeting\nx");
    assert_eq!(tokens[0], ("x".to_string(), TokenType::Identifier, 2));
}

#[test]
fn string_literals_keep_their_quotes() {
    let tokens = kinds("\"hi\"");
    assert_eq!(tokens[0], ("\"hi\"".to_string(), TokenType::String, 1));
}

#[test]
fn strings_may_span_lines() {
    let tokens = kinds("\"a\nb\"");
    assert_eq!(tokens[0], ("\"a\nb\"".to_string(), TokenType::String, 2));
}

#[test]
fn unterminated_string_is_an_error_token() {
    let tokens = kinds("\"abc");
    assert_eq!(
        tokens[0],
        ("Unterminated string".to_string(), TokenType::Errorr, 1)
    );
}

#[test]
fn unexpected_character_is_an_error_token() {
    let tokens = kinds("@");
    assert_eq!(
        tokens[0],
        ("Unexpected character".to_string(), TokenType::Errorr, 1)
    );
}

#[test]
fn only_one_whitespace_character_is_skipped_per_token() {
    // The scanner skips a single blank before a token; a second one in a row
    // is read as an unexpected character.
    let tokens = kinds("a  b");
    assert_eq!(tokens[0], ("a".to_string(), TokenType::Identifier, 1));
    assert_eq!(
        tokens[1],
        ("Unexpected character".to_string(), TokenType::Errorr, 1)
    );
}

#[test]
fn scanner_primitives_walk_the_source() {
    let mut scanner = Scanner::new("ab");
    assert!(!scanner.is_at_end());
    assert_eq!(scanner.peek(), Some('a'));
    assert_eq!(scanner.peek_next(), Some('b'));
    assert_eq!(scanner.advance(), Some('a'));
    assert_eq!(scanner.peek(), Some('b'));
    assert_eq!(scanner.peek_next(), None);
    assert_eq!(scanner.get_lexeme(), "a");
    scanner.reset_start();
    assert_eq!(scanner.get_lexeme(), "");
    assert_eq!(scanner.advance(), Some('b'));
    assert_eq!(scanner.get_lexeme(), "b");
    assert!(scanner.is_at_end());
    assert_eq!(scanner.advance(), None);
}
