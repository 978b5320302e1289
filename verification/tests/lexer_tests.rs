use ttc_rs::error::{CompileError, ErrorCategory};
use ttc_rs::lexer::{Lexer, Token, TokenType};

fn lex(source: &str) -> Vec<Token> {
    let mut lexer = Lexer::new(source);
    let mut tokens = Vec::new();

    let mut token = lexer.get_token().unwrap();
    while token.kind != TokenType::Eof {
        println!("{:?}", token);
        tokens.push(token);
        token = lexer.get_token().unwrap();
    }
    tokens
}

fn kinds(source: &str) -> Vec<TokenType> {
    lex(source).iter().map(|t| t.kind).collect()
}

fn spellings(source: &str) -> Vec<String> {
    lex(source).iter().map(|t| t.spelling.clone()).collect()
}

fn first_error(source: &str) -> CompileError {
    let mut lexer = Lexer::new(source);
    loop {
        match lexer.get_token() {
            Ok(token) => assert_ne!(token.kind, TokenType::Eof, "no defect in {:?}", source),
            Err(e) => return e,
        }
    }
}

#[test]
fn test_tokenize() {
    let input = "LET foo = 123";
    let mut lexer = Lexer::new(input);
    let mut seen = String::new();

    while lexer.peek() != Some('\u{0000}') {
        println!("{} ", lexer.curchar);
        seen.push(lexer.curchar);
        lexer.next_char();
    }
    println!();
    assert_eq!(seen, "LET foo = 123");
    assert_eq!(lexer.curchar, '\n');
}

#[test]
fn test_lex_operators() {
    assert_eq!(
        kinds("+ -\t* /   "),
        vec![
            TokenType::Plus,
            TokenType::Minus,
            TokenType::Asterisk,
            TokenType::Slash,
            TokenType::Newline
        ]
    );
}

#[test]
fn test_lex_all_operators() {
    assert_eq!(
        kinds("+- */ >>= = != <<= =="),
        vec![
            TokenType::Plus,
            TokenType::Minus,
            TokenType::Asterisk,
            TokenType::Slash,
            TokenType::Gt,
            TokenType::Gte,
            TokenType::Eq,
            TokenType::NotEq,
            TokenType::Lt,
            TokenType::Lte,
            TokenType::EqEq,
            TokenType::Newline
        ]
    );
    assert_eq!(
        spellings("+- */ >>= = != <<= =="),
        vec!["+", "-", "*", "/", ">", ">=", "=", "!=", "<", "<=", "==", "\n"]
    );
}

#[test]
fn test_lex_comments() {
    assert_eq!(
        kinds("+- # This is a comment!\n */"),
        vec![
            TokenType::Plus,
            TokenType::Minus,
            TokenType::Newline,
            TokenType::Asterisk,
            TokenType::Slash,
            TokenType::Newline
        ]
    );
}

#[test]
fn test_lex_strings() {
    let tokens = lex("+- \"This is a string\" # This is a comment!\n */");
    assert_eq!(tokens.len(), 7);
    assert_eq!(tokens[2].kind, TokenType::String);
    assert_eq!(tokens[2].spelling, "This is a string");
    assert_eq!(tokens[3].kind, TokenType::Newline);
    assert_eq!(tokens[4].kind, TokenType::Asterisk);
}

#[test]
fn test_lex_numbers() {
    let tokens = lex("+-123 9.8654*/");
    assert_eq!(
        tokens.iter().map(|t| t.kind).collect::<Vec<_>>(),
        vec![
            TokenType::Plus,
            TokenType::Minus,
            TokenType::Number,
            TokenType::Number,
            TokenType::Asterisk,
            TokenType::Slash,
            TokenType::Newline
        ]
    );
    assert_eq!(tokens[2].spelling, "123");
    assert_eq!(tokens[3].spelling, "9.8654");
}

#[test]
fn test_lex_keyword() {
    let tokens = lex("IF+-123 foo*THEN/");
    assert_eq!(
        tokens.iter().map(|t| t.kind).collect::<Vec<_>>(),
        vec![
            TokenType::If,
            TokenType::Plus,
            TokenType::Minus,
            TokenType::Number,
            TokenType::Ident,
            TokenType::Asterisk,
            TokenType::Then,
            TokenType::Slash,
            TokenType::Newline
        ]
    );
    assert_eq!(tokens[0].spelling, "IF");
    assert_eq!(tokens[4].spelling, "foo");
    assert_eq!(tokens[6].spelling, "THEN");
}

#[test]
fn new_appends_one_line_feed() {
    let lexer = Lexer::new("ab");
    assert_eq!(lexer.source, vec!['a', 'b', '\n']);
    assert_eq!(lexer.curpos, 0);
    assert_eq!(lexer.curchar, 'a');
    let empty = Lexer::new("");
    assert_eq!(empty.source, vec!['\n']);
    assert_eq!(empty.curchar, '\n');
}

#[test]
fn next_char_stops_at_the_end() {
    let mut lexer = Lexer::new("a");
    lexer.next_char();
    assert_eq!((lexer.curpos, lexer.curchar), (1, '\n'));
    assert_eq!(lexer.peek(), Some('\0'));
    lexer.next_char();
    assert_eq!((lexer.curpos, lexer.curchar), (2, '\0'));
    lexer.next_char();
    assert_eq!((lexer.curpos, lexer.curchar), (2, '\0'));
    assert_eq!(lexer.peek(), Some('\0'));
}

#[test]
fn skip_whitespace_and_comment_move_the_cursor() {
    let mut lexer = Lexer::new(" \t\r# note\nx");
    lexer.skip_whitespace();
    assert_eq!((lexer.curpos, lexer.curchar), (3, '#'));
    lexer.skip_comment();
    assert_eq!((lexer.curpos, lexer.curchar), (9, '\n'));
    lexer.skip_comment();
    assert_eq!(lexer.curpos, 9);
    lexer.skip_whitespace();
    assert_eq!(lexer.curpos, 9);
}

#[test]
fn end_of_input_is_returned_again_and_again() {
    let mut lexer = Lexer::new("x");
    assert_eq!(lexer.get_token().unwrap().kind, TokenType::Ident);
    assert_eq!(lexer.get_token().unwrap().kind, TokenType::Newline);
    for _ in 0..3 {
        let token = lexer.get_token().unwrap();
        assert_eq!(token.kind, TokenType::Eof);
        assert_eq!(token.spelling, "");
        assert_eq!(lexer.curpos, 2);
    }
}

#[test]
fn every_token_moves_the_cursor_on() {
    let mut lexer = Lexer::new("LET a = 1.5 # c\nPRINT \"x\"\nIF a >= 2 THEN");
    let mut count = 0;
    loop {
        let before = lexer.curpos;
        let token = lexer.get_token().unwrap();
        if token.kind == TokenType::Eof {
            assert_eq!(lexer.curpos, before);
            break;
        }
        assert!(lexer.curpos > before);
        count += 1;
    }
    assert_eq!(count, 14);
}

#[test]
fn keywords_match_exactly() {
    let table = [
        ("ENDIF", TokenType::Endif),
        ("ENDWHILE", TokenType::Endwhile),
        ("GOTO", TokenType::Goto),
        ("IF", TokenType::If),
        ("INPUT", TokenType::Input),
        ("LABEL", TokenType::Label),
        ("LET", TokenType::Let),
        ("REPEAT", TokenType::Repeat),
        ("THEN", TokenType::Then),
        ("WHILE", TokenType::While),
        ("PRINT", TokenType::Print),
    ];
    for (spelling, kind) in table {
        assert_eq!(TokenType::get_token_type_for_ident(spelling), kind);
        assert_eq!(
            TokenType::get_token_type_for_ident(&spelling.to_lowercase()),
            TokenType::Ident
        );
        assert_eq!(
            TokenType::get_token_type_for_ident(&format!("{}S", spelling)),
            TokenType::Ident
        );
        assert_eq!(
            TokenType::get_token_type_for_ident(&spelling[1..]),
            TokenType::Ident
        );
    }
    assert_eq!(kinds("Print PRINT PRINTS print"), vec![
        TokenType::Ident,
        TokenType::Print,
        TokenType::Ident,
        TokenType::Ident,
        TokenType::Newline
    ]);
}

#[test]
fn token_new_resolves_identifiers_only() {
    let keyword = Token::new(TokenType::Ident, "WHILE");
    assert_eq!(keyword.kind, TokenType::While);
    assert_eq!(keyword.spelling, "WHILE");
    let name = Token::new(TokenType::Ident, "While");
    assert_eq!(name.kind, TokenType::Ident);
    let text = Token::new(TokenType::String, "WHILE");
    assert_eq!(text.kind, TokenType::String);
    assert_eq!(text.spelling, "WHILE");
}

#[test]
fn number_boundaries() {
    let tokens = lex("9.8654");
    assert_eq!(tokens.len(), 2);
    assert_eq!(tokens[0].kind, TokenType::Number);
    assert_eq!(tokens[0].spelling, "9.8654");
    assert_eq!(first_error("9."), CompileError::MissingFraction);
    assert_eq!(first_error("9.x"), CompileError::MissingFraction);
    assert_eq!(first_error("9.").category(), ErrorCategory::Lexical);
    assert_eq!(first_error("1.2.3"), CompileError::UnsupportedChar('.'));
}

#[test]
fn string_boundaries() {
    let tokens = lex("\"abc\"");
    assert_eq!(tokens[0].kind, TokenType::String);
    assert_eq!(tokens[0].spelling, "abc");
    let empty = lex("\"\"");
    assert_eq!(empty[0].kind, TokenType::String);
    assert_eq!(empty[0].spelling, "");
    assert_eq!(first_error("\"a%b\""), CompileError::StringChar('%'));
    assert_eq!(first_error("\"a\tb\""), CompileError::StringChar('\t'));
    assert_eq!(first_error("\"a\rb\""), CompileError::StringChar('\r'));
    assert_eq!(first_error("\"a\\b\""), CompileError::StringChar('\\'));
    assert_eq!(first_error("\"open"), CompileError::StringChar('\n'));
    assert_eq!(first_error("\"a%b\"").category(), ErrorCategory::Lexical);
}

#[test]
fn string_may_hold_other_characters() {
    let tokens = lex("\"h\u{e9}llo, # w\u{f6}rld!\" x");
    assert_eq!(tokens[0].spelling, "h\u{e9}llo, # w\u{f6}rld!");
    assert_eq!(tokens[1].kind, TokenType::Ident);
    assert_eq!(tokens[1].spelling, "x");
}

#[test]
fn lone_bang_and_unsupported_characters() {
    assert_eq!(first_error("a ! b"), CompileError::LoneBang);
    assert_eq!(first_error("!"), CompileError::LoneBang);
    assert_eq!(first_error("a_b"), CompileError::UnsupportedChar('_'));
    assert_eq!(first_error("a $ b"), CompileError::UnsupportedChar('$'));
    assert_eq!(first_error(".5"), CompileError::UnsupportedChar('.'));
    assert_eq!(first_error("a ! b").category(), ErrorCategory::Lexical);
    assert_eq!(first_error("a $ b").category(), ErrorCategory::Lexical);
}

#[test]
fn cursor_rests_on_the_malformed_lexeme() {
    let mut lexer = Lexer::new("ab   $c");
    assert_eq!(lexer.get_token().unwrap().spelling, "ab");
    assert_eq!(lexer.get_token().unwrap_err(), CompileError::UnsupportedChar('$'));
    assert_eq!((lexer.curpos, lexer.curchar), (5, '$'));
}

#[test]
fn letters_then_digits_make_one_identifier() {
    let tokens = lex("x1y2 3z");
    assert_eq!(tokens[0].spelling, "x1y2");
    assert_eq!(tokens[0].kind, TokenType::Ident);
    assert_eq!(tokens[1].spelling, "3");
    assert_eq!(tokens[1].kind, TokenType::Number);
    assert_eq!(tokens[2].spelling, "z");
}

#[test]
fn a_nul_character_ends_the_input() {
    let mut lexer = Lexer::new("a\0b");
    assert_eq!(lexer.get_token().unwrap().kind, TokenType::Ident);
    assert_eq!(lexer.get_token().unwrap().kind, TokenType::Eof);
    assert_eq!(lexer.get_token().unwrap().kind, TokenType::Eof);
    assert_eq!(lexer.curpos, 1);
}

#[test]
fn tokens_and_gaps_rebuild_the_source() {
    let input = "LET a = 1.5  # first\n\tPRINT \"a is\" \r\nWHILE a <= 3 REPEAT # loop\nENDWHILE";
    let mut lexer = Lexer::new(input);
    let mut rebuilt = String::new();
    loop {
        let before = lexer.curpos;
        let token = lexer.get_token().unwrap();
        if token.kind == TokenType::Eof {
            break;
        }
        let consumed: String = lexer.source[before..lexer.curpos].iter().collect();
        let lexeme = if token.kind == TokenType::String {
            format!("\"{}\"", token.spelling)
        } else {
            token.spelling.clone()
        };
        assert!(consumed.ends_with(&lexeme));
        let gap = &consumed[..consumed.len() - lexeme.len()];
        let blanks = gap.trim_start_matches(|c| c == ' ' || c == '\t' || c == '\r');
        assert!(blanks.is_empty() || (blanks.starts_with('#') && !blanks.contains('\n')));
        rebuilt.push_str(&consumed);
    }
    assert_eq!(rebuilt, format!("{}\n", input));
}
