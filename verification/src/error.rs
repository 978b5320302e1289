//! The defects that end a compilation.

use crate::lexer::TokenType;
use crate::text::{join2, join3, push_char};
use vstd::prelude::*;
use vstd::string::*;

verus! {

/// The three families of defects a compilation can end with.
#[derive(Copy, Clone, Debug, PartialEq, Eq, Structural)]
pub enum ErrorCategory {
    Lexical,
    Syntax,
    Semantic,
}

/// A defect as the model of the translation states it, with the offending
/// spelling or name as a sequence of characters.
pub enum Defect {
    /// A `!` that is not followed by `=`.
    LoneBang,
    /// A character that may not stand inside a string literal, or the end of
    /// the text before the closing quote (then the NUL character).
    StringChar(char),
    /// A decimal point with no digit after it.
    MissingFraction,
    /// A character that starts no token.
    UnsupportedChar(char),
    /// The grammar asked for a token of one kind and met one of another.
    UnexpectedToken { expected: TokenType, found: TokenType },
    /// An operand was expected, a number or a variable, and this token met.
    ExpectedOperand { found: TokenType, spelling: Seq<char> },
    /// A condition without any comparison operator.
    ExpectedComparison { found: TokenType },
    /// A token that starts no statement.
    InvalidStatement { found: TokenType, spelling: Seq<char> },
    /// A variable read before any `LET` or `INPUT` introduced it.
    UndeclaredVariable { name: Seq<char> },
    /// A label declared a second time.
    DuplicateLabel { name: Seq<char> },
    /// A `GOTO` whose label no `LABEL` statement declares.
    UndefinedLabel { name: Seq<char> },
}

impl Defect {
    /// The family of `self`.
    pub open spec fn category(self) -> ErrorCategory {
        match self {
            Defect::LoneBang => ErrorCategory::Lexical,
            Defect::StringChar(_) => ErrorCategory::Lexical,
            Defect::MissingFraction => ErrorCategory::Lexical,
            Defect::UnsupportedChar(_) => ErrorCategory::Lexical,
            Defect::UnexpectedToken { .. } => ErrorCategory::Syntax,
            Defect::ExpectedOperand { .. } => ErrorCategory::Syntax,
            Defect::ExpectedComparison { .. } => ErrorCategory::Syntax,
            Defect::InvalidStatement { .. } => ErrorCategory::Syntax,
            Defect::UndeclaredVariable { .. } => ErrorCategory::Semantic,
            Defect::DuplicateLabel { .. } => ErrorCategory::Semantic,
            Defect::UndefinedLabel { .. } => ErrorCategory::Semantic,
        }
    }

    /// The one message that reports `self`: the stage that met the defect,
    /// then what is wrong, with the offending character, token or name.
    pub open spec fn message(self) -> Seq<char> {
        match self {
            Defect::LoneBang => "Lexer error: ! must be followed by ="@,
            Defect::StringChar(c) => "Lexer error: Unsupported character in string: "@.push(c),
            Defect::MissingFraction =>
                "Lexer error: numbers must have at least one digit after the decimal point"@,
            Defect::UnsupportedChar(c) => "Lexer error: Unsupported token: "@.push(c),
            Defect::UnexpectedToken { expected, found } => "Parser error: expected token of kind "@
                + expected.spec_name() + ", but found token of kind "@ + found.spec_name(),
            Defect::ExpectedOperand { found, spelling } => "Parser error: Unexpected token: "@
                + found.spec_name() + " "@ + spelling,
            Defect::ExpectedComparison { found } =>
                "Parser error: Expected comparison operator, but got "@ + found.spec_name(),
            Defect::InvalidStatement { found, spelling } => "Parser error: Invalid statement at "@
                + found.spec_name() + " "@ + spelling,
            Defect::UndeclaredVariable { name } => "Parser error: Undeclared variable: "@ + name,
            Defect::DuplicateLabel { name } => "Parser error: Duplicate label: "@ + name,
            Defect::UndefinedLabel { name } => "Parser error: Goto's label is undefined: "@ + name,
        }
    }
}

/// The first defect met in a source text, as a compilation reports it. Its
/// view is the `Defect` of the same name.
#[derive(Clone, Debug, PartialEq, Eq)]
pub enum CompileError {
    LoneBang,
    StringChar(char),
    MissingFraction,
    UnsupportedChar(char),
    UnexpectedToken { expected: TokenType, found: TokenType },
    ExpectedOperand { found: TokenType, spelling: String },
    ExpectedComparison { found: TokenType },
    InvalidStatement { found: TokenType, spelling: String },
    UndeclaredVariable { name: String },
    DuplicateLabel { name: String },
    UndefinedLabel { name: String },
}

impl CompileError {
    /// The defect that `self` reports.
    pub open spec fn view(&self) -> Defect {
        match *self {
            CompileError::LoneBang => Defect::LoneBang,
            CompileError::StringChar(c) => Defect::StringChar(c),
            CompileError::MissingFraction => Defect::MissingFraction,
            CompileError::UnsupportedChar(c) => Defect::UnsupportedChar(c),
            CompileError::UnexpectedToken { expected, found } => Defect::UnexpectedToken {
                expected,
                found,
            },
            CompileError::ExpectedOperand { found, spelling } => Defect::ExpectedOperand {
                found,
                spelling: spelling@,
            },
            CompileError::ExpectedComparison { found } => Defect::ExpectedComparison { found },
            CompileError::InvalidStatement { found, spelling } => Defect::InvalidStatement {
                found,
                spelling: spelling@,
            },
            CompileError::UndeclaredVariable { name } => Defect::UndeclaredVariable { name: name@ },
            CompileError::DuplicateLabel { name } => Defect::DuplicateLabel { name: name@ },
            CompileError::UndefinedLabel { name } => Defect::UndefinedLabel { name: name@ },
        }
    }

    /// The family of `self`.
    pub fn category(&self) -> (c: ErrorCategory)
        ensures
            c == self@.category(),
    {
        match self {
            CompileError::LoneBang => ErrorCategory::Lexical,
            CompileError::StringChar(_) => ErrorCategory::Lexical,
            CompileError::MissingFraction => ErrorCategory::Lexical,
            CompileError::UnsupportedChar(_) => ErrorCategory::Lexical,
            CompileError::UnexpectedToken { .. } => ErrorCategory::Syntax,
            CompileError::ExpectedOperand { .. } => ErrorCategory::Syntax,
            CompileError::ExpectedComparison { .. } => ErrorCategory::Syntax,
            CompileError::InvalidStatement { .. } => ErrorCategory::Syntax,
            CompileError::UndeclaredVariable { .. } => ErrorCategory::Semantic,
            CompileError::DuplicateLabel { .. } => ErrorCategory::Semantic,
            CompileError::UndefinedLabel { .. } => ErrorCategory::Semantic,
        }
    }

    /// The message that reports `self`.
    pub fn message(&self) -> (text: String)
        ensures
            text@ == self@.message(),
    {
        match self {
            CompileError::LoneBang => "Lexer error: ! must be followed by =".to_owned(),
            CompileError::StringChar(c) => {
                let mut text = "Lexer error: Unsupported character in string: ".to_owned();
                push_char(&mut text, *c);
                text
            },
            CompileError::MissingFraction => {
                "Lexer error: numbers must have at least one digit after the decimal point".to_owned()
            },
            CompileError::UnsupportedChar(c) => {
                let mut text = "Lexer error: Unsupported token: ".to_owned();
                push_char(&mut text, *c);
                text
            },
            CompileError::UnexpectedToken { expected, found } => {
                let mut text = join3(
                    "Parser error: expected token of kind ",
                    expected.name(),
                    ", but found token of kind ",
                );
                text.append(found.name());
                text
            },
            CompileError::ExpectedOperand { found, spelling } => {
                let mut text = join3("Parser error: Unexpected token: ", found.name(), " ");
                text.append(spelling.as_str());
                text
            },
            CompileError::ExpectedComparison { found } => join2(
                "Parser error: Expected comparison operator, but got ",
                found.name(),
            ),
            CompileError::InvalidStatement { found, spelling } => {
                let mut text = join3("Parser error: Invalid statement at ", found.name(), " ");
                text.append(spelling.as_str());
                text
            },
            CompileError::UndeclaredVariable { name } => join2(
                "Parser error: Undeclared variable: ",
                name.as_str(),
            ),
            CompileError::DuplicateLabel { name } => join2(
                "Parser error: Duplicate label: ",
                name.as_str(),
            ),
            CompileError::UndefinedLabel { name } => join2(
                "Parser error: Goto's label is undefined: ",
                name.as_str(),
            ),
        }
    }
}

} // verus!
