use ttc_rs::emitter::Emitter;
use ttc_rs::error::{CompileError, ErrorCategory};
use ttc_rs::lexer::{Lexer, TokenType};
use ttc_rs::parser::{compile, Parser};

const PROLOGUE: &str = "#include <stdio.h>\nint main(int argc, char *argv[]) {\n";
const EPILOGUE: &str = "return 0;\n}\n";

fn program(declarations: &str, body: &str) -> String {
    format!("{}{}{}{}", PROLOGUE, declarations, body, EPILOGUE)
}

fn parse(input: &str) -> Result<String, CompileError> {
    let mut emitter = Emitter::new("dummy.c");
    let mut parser = Parser::new(Lexer::new(input), &mut emitter)?;
    parser.parse()?;
    Ok(emitter.output())
}

#[test]
fn test_parse_label_loop() {
    let input = "LABEL loop\nPRINT \"hello, world\"\nGOTO loop";
    let mut emitter = Emitter::new("dummy.c");
    let mut parser = Parser::new(Lexer::new(input), &mut emitter).unwrap();
    parser.parse().unwrap();
    assert_eq!(
        emitter.output(),
        program("", "loop:\nprintf(\"hello, world\\n\");\ngoto loop;\n")
    );
}

#[test]
fn test_parse_let() {
    let input = "LET foo = bar * 3 + 2";
    let mut emitter = Emitter::new("dummy.c");
    let mut parser = Parser::new(Lexer::new(input), &mut emitter).unwrap();
    let res = parser.parse();
    assert_eq!(res, Err(CompileError::UndeclaredVariable { name: "bar".to_string() }));
    assert_eq!(res.unwrap_err().category(), ErrorCategory::Semantic);
}

#[test]
fn test_parse_let_if() {
    let input = "LET foo = bar * 3 + 2\nIF foo > 0 THEN\nPRINT \"yes!\"\nENDIF\n";
    let mut emitter = Emitter::new("dummy.c");
    let mut parser = Parser::new(Lexer::new(input), &mut emitter).unwrap();
    assert_eq!(parser.parse(), Err(CompileError::UndeclaredVariable { name: "bar".to_string() }));
}

#[test]
fn test_parse_nested_if() {
    let input = "LET foo = bar * 3 + 2\nIF foo > 0 THEN\nIF 10 * 10 < 100 THEN\nPRINT bar\nENDIF\nENDIF";
    let mut emitter = Emitter::new("dummy.c");
    let mut parser = Parser::new(Lexer::new(input), &mut emitter).unwrap();
    assert_eq!(parser.parse(), Err(CompileError::UndeclaredVariable { name: "bar".to_string() }));
}

#[test]
fn test_invalid_variable_and_label() {
    let input = "PRINT index\nGOTO main\n";
    let mut emitter = Emitter::new("dummy.c");
    let mut parser = Parser::new(Lexer::new(input), &mut emitter).unwrap();
    assert_eq!(parser.parse(), Err(CompileError::UndeclaredVariable { name: "index".to_string() }));
}

#[test]
fn round_trip_through_compile() {
    let text = compile("LABEL loop\nPRINT \"hello, world\"\nGOTO loop\n").unwrap();
    assert_eq!(
        text,
        program("", "loop:\nprintf(\"hello, world\\n\");\ngoto loop;\n")
    );
    let prologue = text.find("#include <stdio.h>").unwrap();
    let label = text.find("loop:").unwrap();
    let print = text.find("printf(\"hello, world\\n\");").unwrap();
    let jump = text.find("goto loop;").unwrap();
    assert!(prologue < label && label < print && print < jump);
}

#[test]
fn compile_and_parser_agree() {
    let source = "LET a = 1\nWHILE a < 10 REPEAT\nLET a = a + 1\nENDWHILE\n";
    assert_eq!(compile(source), parse(source));
}

#[test]
fn empty_program() {
    assert_eq!(compile("").unwrap(), program("", ""));
    assert_eq!(compile("\n\n  \n# nothing\n").unwrap(), program("", ""));
}

#[test]
fn undeclared_in_condition() {
    let err = compile("IF foo > 0 THEN\nPRINT \"yes!\"\nENDIF\n").unwrap_err();
    assert_eq!(err, CompileError::UndeclaredVariable { name: "foo".to_string() });
    assert_eq!(err.category(), ErrorCategory::Semantic);
}

#[test]
fn variable_is_known_after_let_or_input() {
    assert_eq!(
        compile("PRINT x\nLET x = 1\n"),
        Err(CompileError::UndeclaredVariable { name: "x".to_string() })
    );
    assert_eq!(
        compile("LET x = 1\nPRINT x\nLET y = x + x\n").unwrap(),
        program(
            "float x;\nfloat y;\n",
            "x = 1;\nprintf(\"%.2f\\n\", (float)(x));\ny = x+x;\n"
        )
    );
    assert_eq!(
        compile("INPUT x\nPRINT x\n").unwrap(),
        program(
            "float x;\n",
            "if (0 == scanf(\"%f\", &x)) {\nx = 0;\nscanf(\"%*s\");\n}\nprintf(\"%.2f\\n\", (float)(x));\n"
        )
    );
    assert_eq!(
        compile("LET x = x\n").unwrap(),
        program("float x;\n", "x = x;\n")
    );
}

#[test]
fn variable_is_declared_once() {
    assert_eq!(
        compile("LET b = 2\nINPUT a\nLET a = b\nINPUT b\n").unwrap(),
        program(
            "float b;\nfloat a;\n",
            "b = 2;\nif (0 == scanf(\"%f\", &a)) {\na = 0;\nscanf(\"%*s\");\n}\na = b;\nif (0 == scanf(\"%f\", &b)) {\nb = 0;\nscanf(\"%*s\");\n}\n"
        )
    );
}

#[test]
fn duplicate_label() {
    let err = compile("LABEL a\nLABEL b\nLABEL a\n").unwrap_err();
    assert_eq!(err, CompileError::DuplicateLabel { name: "a".to_string() });
    assert_eq!(err.category(), ErrorCategory::Semantic);
    assert_eq!(
        compile("LABEL a\nLABEL \"a\"\n"),
        Err(CompileError::DuplicateLabel { name: "a".to_string() })
    );
}

#[test]
fn forward_reference_to_a_label() {
    assert_eq!(
        compile("GOTO end\nPRINT \"skipped\"\nLABEL end\n").unwrap(),
        program("", "goto end;\nprintf(\"skipped\\n\");\nend:\n")
    );
    assert_eq!(
        compile("LABEL unused\n").unwrap(),
        program("", "unused:\n")
    );
}

#[test]
fn undefined_label_is_found_at_the_end() {
    let err = compile("GOTO nowhere\nPRINT \"x\"\n").unwrap_err();
    assert_eq!(err, CompileError::UndefinedLabel { name: "nowhere".to_string() });
    assert_eq!(err.category(), ErrorCategory::Semantic);
    assert_eq!(
        compile("GOTO nowhere\nPRINT y\n"),
        Err(CompileError::UndeclaredVariable { name: "y".to_string() })
    );
    assert_eq!(
        compile("GOTO nowhere\nPRINT \"x\"\nENDIF\n"),
        Err(CompileError::InvalidStatement { found: TokenType::Endif, spelling: "ENDIF".to_string() })
    );
    assert_eq!(
        compile("GOTO nowhere\n!"),
        Err(CompileError::LoneBang)
    );
}

#[test]
fn precedence_is_passed_through() {
    assert_eq!(
        compile("LET a = -1 + 2 * +3 / 4 - 5.5\n").unwrap(),
        program("float a;\n", "a = -1+2*+3/4-5.5;\n")
    );
}

#[test]
fn if_and_while_blocks() {
    let source = "LET n = 3\nWHILE n > 0 REPEAT\n\n  IF n == 1 THEN\n    PRINT \"last\"\n  ENDIF\n  LET n = n - 1\nENDWHILE\n";
    assert_eq!(
        compile(source).unwrap(),
        program(
            "float n;\n",
            "n = 3;\nwhile (n>0) {\nif (n==1) {\nprintf(\"last\\n\");\n}\nn = n-1;\n}\n"
        )
    );
}

#[test]
fn comparisons_chain() {
    assert_eq!(
        compile("LET a = 1\nIF a == a < a != a <= a >= a > a THEN\nENDIF\n").unwrap(),
        program("float a;\n", "a = 1;\nif (a==a<a!=a<=a>=a>a) {\n}\n")
    );
}

#[test]
fn condition_needs_a_comparison() {
    let err = compile("LET a = 1\nIF a THEN\nENDIF\n").unwrap_err();
    assert_eq!(err, CompileError::ExpectedComparison { found: TokenType::Then });
    assert_eq!(err.category(), ErrorCategory::Syntax);
    assert_eq!(
        compile("LET a = 1\nWHILE a + 1 REPEAT\nENDWHILE\n"),
        Err(CompileError::ExpectedComparison { found: TokenType::Repeat })
    );
}

#[test]
fn syntax_defects() {
    assert_eq!(
        compile("LET a 1\n"),
        Err(CompileError::UnexpectedToken { expected: TokenType::Eq, found: TokenType::Number })
    );
    assert_eq!(
        compile("LET 1 = 1\n"),
        Err(CompileError::UnexpectedToken { expected: TokenType::Ident, found: TokenType::Number })
    );
    assert_eq!(
        compile("LET a = 1 LET b = 2\n"),
        Err(CompileError::UnexpectedToken { expected: TokenType::Newline, found: TokenType::Let })
    );
    assert_eq!(
        compile("LET a = 1\nIF a > 0 REPEAT\nENDIF\n"),
        Err(CompileError::UnexpectedToken { expected: TokenType::Then, found: TokenType::Repeat })
    );
    assert_eq!(
        compile("LET a = 1\nIF a > 0 THEN\nPRINT a\n"),
        Err(CompileError::InvalidStatement { found: TokenType::Eof, spelling: String::new() })
    );
    assert_eq!(
        compile("LET a = 1\nIF a > 0 THEN\nENDWHILE\n"),
        Err(CompileError::InvalidStatement { found: TokenType::Endwhile, spelling: "ENDWHILE".to_string() })
    );
    assert_eq!(
        compile("LET a = *\n"),
        Err(CompileError::ExpectedOperand { found: TokenType::Asterisk, spelling: "*".to_string() })
    );
    assert_eq!(
        compile("LET a = 1 +\n"),
        Err(CompileError::ExpectedOperand { found: TokenType::Newline, spelling: "\n".to_string() })
    );
    assert_eq!(
        compile("PRINT\n"),
        Err(CompileError::ExpectedOperand { found: TokenType::Newline, spelling: "\n".to_string() })
    );
    assert_eq!(
        compile("GOTO 5\n"),
        Err(CompileError::UnexpectedToken { expected: TokenType::Ident, found: TokenType::Number })
    );
    assert_eq!(
        compile("foo\n"),
        Err(CompileError::InvalidStatement { found: TokenType::Ident, spelling: "foo".to_string() })
    );
    assert_eq!(
        compile("LET a = 1 +\n").unwrap_err().category(),
        ErrorCategory::Syntax
    );
    assert_eq!(
        compile("foo\n").unwrap_err().category(),
        ErrorCategory::Syntax
    );
    assert_eq!(
        compile("LET a 1\n").unwrap_err().category(),
        ErrorCategory::Syntax
    );
}

#[test]
fn lexical_defects_stop_the_parse() {
    assert_eq!(compile("LET a = 9.\n"), Err(CompileError::MissingFraction));
    assert_eq!(compile("PRINT \"a%b\"\n"), Err(CompileError::StringChar('%')));
    assert_eq!(compile("LET a = 1 ! 2\n"), Err(CompileError::LoneBang));
    assert_eq!(compile("@\n"), Err(CompileError::UnsupportedChar('@')));
    assert_eq!(compile("LET a_b = 1\n"), Err(CompileError::UnsupportedChar('_')));
}

#[test]
fn first_token_defect_is_reported_by_new() {
    let mut emitter = Emitter::new("dummy.c");
    let res = Parser::new(Lexer::new("$"), &mut emitter);
    assert!(matches!(res, Err(CompileError::UnsupportedChar('$'))));
    assert_eq!(emitter.output(), "");
}

#[test]
fn parser_steps_can_be_taken_one_by_one() {
    let mut emitter = Emitter::new("dummy.c");
    let mut parser = Parser::new(Lexer::new("1 + 2 * 3 == 7\n\n\nx"), &mut emitter).unwrap();
    assert!(parser.check_token(TokenType::Number));
    assert!(!parser.check_token(TokenType::Ident));
    assert!(parser.is_comparison_operator(TokenType::Lte));
    assert!(!parser.is_comparison_operator(TokenType::Eq));
    parser.parse_comparison().unwrap();
    assert!(parser.check_token(TokenType::Newline));
    parser.parse_newline().unwrap();
    assert!(parser.check_token(TokenType::Ident));
    assert_eq!(
        parser.match_token(TokenType::Number),
        Err(CompileError::UnexpectedToken { expected: TokenType::Number, found: TokenType::Ident })
    );
    parser.match_token(TokenType::Ident).unwrap();
    parser.next_token().unwrap();
    assert!(parser.check_token(TokenType::Eof));
    parser.next_token().unwrap();
    assert!(parser.check_token(TokenType::Eof));
    assert_eq!(emitter.output(), "1+2*3==7");
}

#[test]
fn source_without_final_line_feed() {
    assert_eq!(
        compile("PRINT 1"),
        compile("PRINT 1\n")
    );
    assert_eq!(
        compile("PRINT 1").unwrap(),
        program("", "printf(\"%.2f\\n\", (float)(1));\n")
    );
}

#[test]
fn undefined_label_names_the_first_jump() {
    assert_eq!(
        compile("GOTO b\nGOTO a\nGOTO b\nLABEL c\n"),
        Err(CompileError::UndefinedLabel { name: "b".to_string() })
    );
    assert_eq!(
        compile("GOTO b\nGOTO a\nLABEL b\n"),
        Err(CompileError::UndefinedLabel { name: "a".to_string() })
    );
    assert_eq!(
        compile("GOTO b\nGOTO a\nLABEL b\nLABEL a\nGOTO a\n").unwrap(),
        program("", "goto b;\ngoto a;\nb:\na:\ngoto a;\n")
    );
}

#[test]
fn nested_blocks() {
    let source = "LET a = 1\nIF a > 0 THEN\nWHILE a < 3 REPEAT\nIF a == 2 THEN\nPRINT a\nENDIF\nLET a = a + 1\nENDWHILE\nENDIF\n";
    assert_eq!(
        compile(source).unwrap(),
        program(
            "float a;\n",
            "a = 1;\nif (a>0) {\nwhile (a<3) {\nif (a==2) {\nprintf(\"%.2f\\n\", (float)(a));\n}\na = a+1;\n}\n}\n"
        )
    );
}
