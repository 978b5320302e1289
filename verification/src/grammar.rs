//! The translation as a mathematical function: what a compilation session
//! holds, and where each rule of the grammar takes it.
//!
//! ```text
//! primary    ::= NUMBER | IDENT
//! unary      ::= [ '+' | '-' ] primary
//! term       ::= unary { ('*' | '/') unary }
//! expression ::= term { ('+' | '-') term }
//! comparison ::= expression (CMP expression)+
//! statement  ::= ( PRINT (expression | STRING)
//!                | IF comparison THEN NL {statement} ENDIF
//!                | WHILE comparison REPEAT NL {statement} ENDWHILE
//!                | LABEL IDENT | GOTO IDENT
//!                | LET IDENT '=' expression | INPUT IDENT ) NL
//! program    ::= {statement}
//! ```
//!
//! A rule maps the session in which it starts to the session in which it
//! ends, or to the defect that stops the compilation. The repeating rules
//! recurse on the session that one round leaves. They end because every
//! round consumes a token, which the module `order` proves.

use crate::emitter::line;
use crate::error::Defect;
use crate::lexer::{scan, TokenType};
use crate::names::{first_missing, with_name};
use crate::order::{
    lemma_advance, lemma_block_head, lemma_expression, lemma_pass_token, lemma_term, lemma_unary,
};
use vstd::prelude::*;

verus! {

/// A compilation in progress.
pub struct Session {
    /// The source text.
    pub src: Seq<char>,
    /// The lexer's position: behind the current token.
    pub pos: int,
    /// The kind of the current token.
    pub kind: TokenType,
    /// The spelling of the current token.
    pub spelling: Seq<char>,
    /// The variables declared so far, in the order of their declarations.
    pub symbols: Seq<Seq<char>>,
    /// The labels declared so far.
    pub declared: Seq<Seq<char>>,
    /// The labels jumped to so far, in the order of their first jumps.
    pub gotoed: Seq<Seq<char>>,
    /// The header buffer.
    pub header: Seq<char>,
    /// The body buffer.
    pub code: Seq<char>,
}

/// Where a rule ends: in a session or in a defect.
pub type Step = Result<Session, Defect>;

/// A bound on the tokens still to come: it falls with every token consumed.
pub open spec fn remaining(s: Session) -> nat {
    let chars = if 0 <= s.pos <= s.src.len() {
        s.src.len() - s.pos
    } else {
        0
    };
    let token = if s.kind == TokenType::Eof {
        0int
    } else {
        1int
    };
    (2 * chars + token) as nat
}

/// The session with the next token of the source as its current token.
pub open spec fn advance(s: Session) -> Step {
    match scan(s.src, s.pos) {
        Ok(lx) => Ok(
            Session { pos: lx.next, kind: lx.kind, spelling: s.src.subrange(lx.start, lx.end), ..s },
        ),
        Err(e) => Err(e),
    }
}

/// Consumes the current token if it is of `kind`.
pub open spec fn expect(s: Session, kind: TokenType) -> Step {
    if s.kind == kind {
        advance(s)
    } else {
        Err(Defect::UnexpectedToken { expected: kind, found: s.kind })
    }
}

/// `text` appended to the body.
pub open spec fn write(s: Session, text: Seq<char>) -> Session {
    Session { code: s.code + text, ..s }
}

/// `text` and a line feed appended to the body.
pub open spec fn write_line(s: Session, text: Seq<char>) -> Session {
    Session { code: s.code + line(text), ..s }
}

/// `text` and a line feed appended to the header.
pub open spec fn declare(s: Session, text: Seq<char>) -> Session {
    Session { header: s.header + line(text), ..s }
}

/// The current token's spelling written to the body, and the token consumed.
pub open spec fn pass_token(s: Session) -> Step {
    advance(write(s, s.spelling))
}

/// `{ NL }`
pub open spec fn skip_newlines(s: Session) -> Step
    decreases remaining(s),
    via skip_newlines_ends
{
    if s.kind == TokenType::Newline {
        match advance(s) {
            Ok(s1) => skip_newlines(s1),
            Err(e) => Err(e),
        }
    } else {
        Ok(s)
    }
}

#[via_fn]
proof fn skip_newlines_ends(s: Session) {
    lemma_advance(s);
}

/// `NL { NL }`
pub open spec fn newlines(s: Session) -> Step {
    match expect(s, TokenType::Newline) {
        Ok(s1) => skip_newlines(s1),
        Err(e) => Err(e),
    }
}

/// `NUMBER | IDENT`, the identifier being a declared variable.
pub open spec fn primary(s: Session) -> Step {
    if s.kind == TokenType::Number {
        pass_token(s)
    } else if s.kind == TokenType::Ident {
        if s.symbols.contains(s.spelling) {
            pass_token(s)
        } else {
            Err(Defect::UndeclaredVariable { name: s.spelling })
        }
    } else {
        Err(Defect::ExpectedOperand { found: s.kind, spelling: s.spelling })
    }
}

/// `[ '+' | '-' ] primary`
pub open spec fn unary(s: Session) -> Step {
    if s.kind == TokenType::Plus || s.kind == TokenType::Minus {
        match pass_token(s) {
            Ok(s1) => primary(s1),
            Err(e) => Err(e),
        }
    } else {
        primary(s)
    }
}

/// `{ ('*' | '/') unary }`
pub open spec fn more_factors(s: Session) -> Step
    decreases remaining(s),
    via more_factors_ends
{
    if s.kind == TokenType::Asterisk || s.kind == TokenType::Slash {
        match pass_token(s) {
            Ok(s1) => match unary(s1) {
                Ok(s2) => more_factors(s2),
                Err(e) => Err(e),
            },
            Err(e) => Err(e),
        }
    } else {
        Ok(s)
    }
}

#[via_fn]
proof fn more_factors_ends(s: Session) {
    lemma_pass_token(s);
    if let Ok(s1) = pass_token(s) {
        lemma_unary(s1);
    }
}

/// `unary { ('*' | '/') unary }`
pub open spec fn term(s: Session) -> Step {
    match unary(s) {
        Ok(s1) => more_factors(s1),
        Err(e) => Err(e),
    }
}

/// `{ ('+' | '-') term }`
pub open spec fn more_terms(s: Session) -> Step
    decreases remaining(s),
    via more_terms_ends
{
    if s.kind == TokenType::Plus || s.kind == TokenType::Minus {
        match pass_token(s) {
            Ok(s1) => match term(s1) {
                Ok(s2) => more_terms(s2),
                Err(e) => Err(e),
            },
            Err(e) => Err(e),
        }
    } else {
        Ok(s)
    }
}

#[via_fn]
proof fn more_terms_ends(s: Session) {
    lemma_pass_token(s);
    if let Ok(s1) = pass_token(s) {
        lemma_term(s1);
    }
}

/// `term { ('+' | '-') term }`
pub open spec fn expression(s: Session) -> Step {
    match term(s) {
        Ok(s1) => more_terms(s1),
        Err(e) => Err(e),
    }
}

/// The six comparison operators.
pub open spec fn is_comparison(kind: TokenType) -> bool {
    kind == TokenType::EqEq || kind == TokenType::NotEq || kind == TokenType::Lt || kind
        == TokenType::Lte || kind == TokenType::Gt || kind == TokenType::Gte
}

/// `{ CMP expression }`
pub open spec fn more_comparisons(s: Session) -> Step
    decreases remaining(s),
    via more_comparisons_ends
{
    if is_comparison(s.kind) {
        match pass_token(s) {
            Ok(s1) => match expression(s1) {
                Ok(s2) => more_comparisons(s2),
                Err(e) => Err(e),
            },
            Err(e) => Err(e),
        }
    } else {
        Ok(s)
    }
}

#[via_fn]
proof fn more_comparisons_ends(s: Session) {
    lemma_pass_token(s);
    if let Ok(s1) = pass_token(s) {
        lemma_expression(s1);
    }
}

/// `expression CMP expression { CMP expression }`
pub open spec fn comparison(s: Session) -> Step {
    match expression(s) {
        Ok(s1) => if is_comparison(s1.kind) {
            match pass_token(s1) {
                Ok(s2) => match expression(s2) {
                    Ok(s3) => more_comparisons(s3),
                    Err(e) => Err(e),
                },
                Err(e) => Err(e),
            }
        } else {
            Err(Defect::ExpectedComparison { found: s1.kind })
        },
        Err(e) => Err(e),
    }
}

/// What follows `PRINT`: a string literal, printed as it is, or an
/// expression, printed with two decimals.
pub open spec fn print_statement(s: Session) -> Step {
    if s.kind == TokenType::String {
        advance(write_line(s, "printf(\""@ + s.spelling + "\\n\");"@))
    } else {
        match expression(write(s, "printf(\"%.2f\\n\", (float)("@)) {
            Ok(s1) => Ok(write_line(s1, "));"@)),
            Err(e) => Err(e),
        }
    }
}

/// What follows `LABEL`: a name that no earlier `LABEL` declared.
pub open spec fn label_statement(s: Session) -> Step {
    if s.declared.contains(s.spelling) {
        Err(Defect::DuplicateLabel { name: s.spelling })
    } else {
        expect(
            write_line(Session { declared: with_name(s.declared, s.spelling), ..s }, s.spelling + ":"@),
            TokenType::Ident,
        )
    }
}

/// What follows `GOTO`: a name, which may be declared later.
pub open spec fn goto_statement(s: Session) -> Step {
    expect(
        write_line(
            Session { gotoed: with_name(s.gotoed, s.spelling), ..s },
            "goto "@ + s.spelling + ";"@,
        ),
        TokenType::Ident,
    )
}

/// The variable named by the current token made known: declared in the
/// header where it is new.
pub open spec fn introduce(s: Session) -> Session {
    if s.symbols.contains(s.spelling) {
        s
    } else {
        declare(
            Session { symbols: with_name(s.symbols, s.spelling), ..s },
            "float "@ + s.spelling + ";"@,
        )
    }
}

/// What follows `LET`: a name, `=` and an expression.
pub open spec fn let_statement(s: Session) -> Step {
    match expect(write(introduce(s), s.spelling + " = "@), TokenType::Ident) {
        Ok(s1) => match expect(s1, TokenType::Eq) {
            Ok(s2) => match expression(s2) {
                Ok(s3) => Ok(write_line(s3, ";"@)),
                Err(e) => Err(e),
            },
            Err(e) => Err(e),
        },
        Err(e) => Err(e),
    }
}

/// What follows `INPUT`: a name. The code reads a number into the variable;
/// where the scan fails it sets the variable to zero and skips the
/// offending word.
pub open spec fn input_statement(s: Session) -> Step {
    expect(
        write_line(
            write_line(
                write_line(
                    write_line(introduce(s), "if (0 == scanf(\"%f\", &"@ + s.spelling + ")) {"@),
                    s.spelling + " = 0;"@,
                ),
                "scanf(\"%*s\");"@,
            ),
            "}"@,
        ),
        TokenType::Ident,
    )
}

/// A statement that holds no other statement, without the line end.
pub open spec fn simple_statement(s: Session) -> Step {
    if s.kind == TokenType::Print || s.kind == TokenType::Label || s.kind == TokenType::Goto
        || s.kind == TokenType::Let || s.kind == TokenType::Input {
        match advance(s) {
            Ok(s1) => if s.kind == TokenType::Print {
                print_statement(s1)
            } else if s.kind == TokenType::Label {
                label_statement(s1)
            } else if s.kind == TokenType::Goto {
                goto_statement(s1)
            } else if s.kind == TokenType::Let {
                let_statement(s1)
            } else {
                input_statement(s1)
            },
            Err(e) => Err(e),
        }
    } else {
        Err(Defect::InvalidStatement { found: s.kind, spelling: s.spelling })
    }
}

/// The keyword that opens a block in C, for `IF` and for `WHILE`.
pub open spec fn block_keyword(kind: TokenType) -> Seq<char> {
    if kind == TokenType::If {
        "if ("@
    } else {
        "while ("@
    }
}

/// The token that ends a condition: `THEN` for `IF`, `REPEAT` for `WHILE`.
pub open spec fn block_opener(kind: TokenType) -> TokenType {
    if kind == TokenType::If {
        TokenType::Then
    } else {
        TokenType::Repeat
    }
}

/// The token that ends a block: `ENDIF` for `IF`, `ENDWHILE` for `WHILE`.
pub open spec fn block_closer(kind: TokenType) -> TokenType {
    if kind == TokenType::If {
        TokenType::Endif
    } else {
        TokenType::Endwhile
    }
}

/// The head of a block, the current token being `IF` or `WHILE`: the
/// keyword, the condition, `THEN` or `REPEAT`, and the line end.
pub open spec fn block_head(s: Session) -> Step {
    match advance(s) {
        Ok(s1) => match comparison(write(s1, block_keyword(s.kind))) {
            Ok(s2) => match expect(s2, block_opener(s.kind)) {
                Ok(s3) => match newlines(s3) {
                    Ok(s4) => Ok(write_line(s4, ") {"@)),
                    Err(e) => Err(e),
                },
                Err(e) => Err(e),
            },
            Err(e) => Err(e),
        },
        Err(e) => Err(e),
    }
}

/// The end of a block: its closing keyword.
pub open spec fn block_end(s: Session, closer: TokenType) -> Step {
    match expect(s, closer) {
        Ok(s1) => Ok(write_line(s1, "}"@)),
        Err(e) => Err(e),
    }
}

/// One statement with its line end.
pub open spec fn statement(s: Session) -> Step
    decreases remaining(s), 0int,
    via statement_ends
{
    let body = if s.kind == TokenType::If || s.kind == TokenType::While {
        match block_head(s) {
            Ok(s1) => match statements(s1, block_closer(s.kind)) {
                Ok(s2) => block_end(s2, block_closer(s.kind)),
                Err(e) => Err(e),
            },
            Err(e) => Err(e),
        }
    } else {
        simple_statement(s)
    };
    match body {
        Ok(s3) => newlines(s3),
        Err(e) => Err(e),
    }
}

#[via_fn]
proof fn statement_ends(s: Session) {
    if s.kind == TokenType::If || s.kind == TokenType::While {
        lemma_block_head(s);
    }
}

/// `{ statement }`, up to a token of kind `until`, which is not consumed.
///
/// The comparison of `remaining` bounds the recursion and always holds: a
/// statement consumes at least one token (`lemma_statement` in the module
/// `order`).
pub open spec fn statements(s: Session, until: TokenType) -> Step
    decreases remaining(s), 1int,
{
    if s.kind == until {
        Ok(s)
    } else {
        match statement(s) {
            Ok(s1) => if remaining(s1) < remaining(s) {
                statements(s1, until)
            } else {
                Ok(s1)
            },
            Err(e) => Err(e),
        }
    }
}

/// The whole program between the fixed prologue and the fixed epilogue.
pub open spec fn program(s: Session) -> Step {
    match statements(
        declare(declare(s, "#include <stdio.h>"@), "int main(int argc, char *argv[]) {"@),
        TokenType::Eof,
    ) {
        Ok(s1) => Ok(write_line(write_line(s1, "return 0;"@), "}"@)),
        Err(e) => Err(e),
    }
}

/// A whole parse: leading line ends, the program, and at the very end the
/// test that every label jumped to is declared. The defect names the label
/// that was jumped to first among those that are not.
pub open spec fn parse(s: Session) -> Step {
    match skip_newlines(s) {
        Ok(s1) => match program(s1) {
            Ok(s2) => match first_missing(s2.gotoed, s2.declared, 0) {
                None => Ok(s2),
                Some(name) => Err(Defect::UndefinedLabel { name }),
            },
            Err(e) => Err(e),
        },
        Err(e) => Err(e),
    }
}

/// The session a parser starts in: nothing declared, nothing emitted, and
/// the first token of `src` not yet read, the cursor standing at `pos`.
pub open spec fn opening(src: Seq<char>, pos: int, header: Seq<char>, code: Seq<char>) -> Step {
    advance(
        Session {
            src,
            pos,
            kind: TokenType::Eof,
            spelling: Seq::empty(),
            symbols: Seq::empty(),
            declared: Seq::empty(),
            gotoed: Seq::empty(),
            header,
            code,
        },
    )
}

/// The translation of a source text: the C program, or the first defect.
pub open spec fn translation(source: Seq<char>) -> Result<Seq<char>, Defect> {
    match opening(source.push('\n'), 0, Seq::empty(), Seq::empty()) {
        Ok(s) => match parse(s) {
            Ok(s1) => Ok(s1.header + s1.code),
            Err(e) => Err(e),
        },
        Err(e) => Err(e),
    }
}

} // verus!
