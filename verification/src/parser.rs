//! The parser: it pulls tokens from the lexer, recognises the grammar by
//! recursive descent and writes the translation to the emitter as it goes.

use crate::emitter::Emitter;
use crate::error::CompileError;
use crate::grammar::{self, remaining, Session, Step};
use crate::lexer::{lemma_scan_bounds, Lexer, Token, TokenType};
use crate::names::NameSet;
use crate::text::{join2, join3};
use vstd::prelude::*;
use vstd::string::*;

verus! {

/// What a parsing function returns and the session it leaves are those that
/// the rule `step` of the grammar gives.
pub open spec fn follows(res: Result<(), CompileError>, after: Session, step: Step) -> bool {
    match step {
        Ok(s) => res is Ok && after == s,
        Err(d) => res matches Err(e) && e@ == d,
    }
}

/// A compilation in progress: the lexer, the current token, the names seen
/// so far and the emitter that the translation is written to.
///
/// The emitter is borrowed. Every method states that it keeps the borrow:
/// what the lender finds in the emitter when the parser is gone is what the
/// parser wrote last.
pub struct Parser<'a> {
    pub lexer: Lexer,
    pub emitter: &'a mut Emitter,
    pub curtoken: Token,
    pub symbols: NameSet,
    pub declared_labels: NameSet,
    pub gotoed_labels: NameSet,
}

impl<'a> Parser<'a> {
    /// The session this parser is in.
    pub open spec fn view(&self) -> Session {
        Session {
            src: self.lexer.source@,
            pos: self.lexer.curpos as int,
            kind: self.curtoken.kind,
            spelling: self.curtoken.spelling@,
            symbols: self.symbols@,
            declared: self.declared_labels@,
            gotoed: self.gotoed_labels@,
            header: self.emitter.header_text(),
            code: self.emitter.body_text(),
        }
    }

    /// The lexer's cursor is sound and no set of names holds a name twice.
    pub open spec fn wf(&self) -> bool {
        &&& self.lexer.wf()
        &&& self.symbols.wf()
        &&& self.declared_labels.wf()
        &&& self.gotoed_labels.wf()
    }

    /// A parser on `lexer` that writes to `emitter`, with the first token
    /// read.
    pub fn new(mut lexer: Lexer, emitter: &'a mut Emitter) -> (res: Result<Parser<'a>, CompileError>)
        requires
            lexer.wf(),
        ensures
            match grammar::opening(
                lexer.source@,
                lexer.curpos as int,
                old(emitter).header_text(),
                old(emitter).body_text(),
            ) {
                Ok(s) => {
                    &&& res is Ok
                    &&& res->Ok_0@ == s
                    &&& res->Ok_0.wf()
                    &&& *res->Ok_0.emitter == *old(emitter)
                    &&& *final(res->Ok_0.emitter) == *final(emitter)
                },
                Err(d) => res is Err && res->Err_0@ == d && *final(emitter) == *old(emitter),
            },
    {
        match lexer.get_token() {
            Ok(curtoken) => Ok(
                Parser {
                    lexer,
                    emitter,
                    curtoken,
                    symbols: NameSet::new(),
                    declared_labels: NameSet::new(),
                    gotoed_labels: NameSet::new(),
                },
            ),
            Err(e) => Err(e),
        }
    }

    /// Whether the current token is of `kind`.
    pub fn check_token(&self, kind: TokenType) -> (same: bool)
        ensures
            same == (self@.kind == kind),
    {
        self.curtoken.kind == kind
    }

    /// Reads the next token.
    pub fn next_token(&mut self) -> (res: Result<(), CompileError>)
        requires
            old(self).wf(),
        ensures
            final(self).wf(),
            *final(final(self).emitter) == *final(old(self).emitter),
            final(self).emitter.destination() == old(self).emitter.destination(),
            follows(res, final(self)@, grammar::advance(old(self)@)),
            res is Ok ==> remaining(final(self)@) <= remaining(old(self)@),
            res is Ok && old(self)@.kind != TokenType::Eof ==> remaining(final(self)@) < remaining(
                old(self)@,
            ),
    {
        proof {
            lemma_scan_bounds(self.lexer.source@, self.lexer.curpos as int);
        }
        match self.lexer.get_token() {
            Ok(token) => {
                self.curtoken = token;
                Ok(())
            },
            Err(e) => Err(e),
        }
    }

    /// Consumes the current token, which must be of `kind`.
    pub fn match_token(&mut self, kind: TokenType) -> (res: Result<(), CompileError>)
        requires
            old(self).wf(),
        ensures
            final(self).wf(),
            *final(final(self).emitter) == *final(old(self).emitter),
            final(self).emitter.destination() == old(self).emitter.destination(),
            follows(res, final(self)@, grammar::expect(old(self)@, kind)),
            res is Ok ==> remaining(final(self)@) <= remaining(old(self)@),
            res is Ok && kind != TokenType::Eof ==> remaining(final(self)@) < remaining(
                old(self)@,
            ),
    {
        if !self.check_token(kind) {
            return Err(CompileError::UnexpectedToken { expected: kind, found: self.curtoken.kind });
        }
        self.next_token()
    }

    /// Writes the current token's spelling to the body and reads the next
    /// token.
    fn pass_token(&mut self) -> (res: Result<(), CompileError>)
        requires
            old(self).wf(),
        ensures
            final(self).wf(),
            *final(final(self).emitter) == *final(old(self).emitter),
            final(self).emitter.destination() == old(self).emitter.destination(),
            follows(res, final(self)@, grammar::pass_token(old(self)@)),
            res is Ok ==> remaining(final(self)@) <= remaining(old(self)@),
            res is Ok && old(self)@.kind != TokenType::Eof ==> remaining(final(self)@) < remaining(
                old(self)@,
            ),
    {
        self.emitter.emit(self.curtoken.spelling.as_str());
        self.next_token()
    }

    /// `{ NL }`
    fn skip_newlines(&mut self) -> (res: Result<(), CompileError>)
        requires
            old(self).wf(),
        ensures
            final(self).wf(),
            *final(final(self).emitter) == *final(old(self).emitter),
            final(self).emitter.destination() == old(self).emitter.destination(),
            follows(res, final(self)@, grammar::skip_newlines(old(self)@)),
            res is Ok ==> remaining(final(self)@) <= remaining(old(self)@),
    {
        while self.check_token(TokenType::Newline)
            invariant
                self.wf(),
                *final(self.emitter) == *final(old(self).emitter),
                self.emitter.destination() == old(self).emitter.destination(),
                grammar::skip_newlines(self@) == grammar::skip_newlines(old(self)@),
                remaining(self@) <= remaining(old(self)@),
            decreases remaining(self@),
        {
            self.next_token()?;
        }
        Ok(())
    }

    /// `NL ::= "\n"+`
    pub fn parse_newline(&mut self) -> (res: Result<(), CompileError>)
        requires
            old(self).wf(),
        ensures
            final(self).wf(),
            *final(final(self).emitter) == *final(old(self).emitter),
            final(self).emitter.destination() == old(self).emitter.destination(),
            follows(res, final(self)@, grammar::newlines(old(self)@)),
            res is Ok ==> remaining(final(self)@) < remaining(old(self)@),
    {
        match self.match_token(TokenType::Newline) {
            Ok(()) => self.skip_newlines(),
            Err(e) => Err(e),
        }
    }

    /// `primary ::= number | ident`
    pub fn parse_primary(&mut self) -> (res: Result<(), CompileError>)
        requires
            old(self).wf(),
        ensures
            final(self).wf(),
            *final(final(self).emitter) == *final(old(self).emitter),
            final(self).emitter.destination() == old(self).emitter.destination(),
            follows(res, final(self)@, grammar::primary(old(self)@)),
            res is Ok ==> remaining(final(self)@) < remaining(old(self)@),
    {
        if self.check_token(TokenType::Number) {
            self.pass_token()
        } else if self.check_token(TokenType::Ident) {
            if !self.symbols.contains(self.curtoken.spelling.as_str()) {
                return Err(CompileError::UndeclaredVariable { name: self.curtoken.spelling.clone() });
            }
            self.pass_token()
        } else {
            Err(
                CompileError::ExpectedOperand {
                    found: self.curtoken.kind,
                    spelling: self.curtoken.spelling.clone(),
                },
            )
        }
    }

    /// `unary ::= ["+" | "-"] primary`
    pub fn parse_unary(&mut self) -> (res: Result<(), CompileError>)
        requires
            old(self).wf(),
        ensures
            final(self).wf(),
            *final(final(self).emitter) == *final(old(self).emitter),
            final(self).emitter.destination() == old(self).emitter.destination(),
            follows(res, final(self)@, grammar::unary(old(self)@)),
            res is Ok ==> remaining(final(self)@) < remaining(old(self)@),
    {
        if self.check_token(TokenType::Plus) || self.check_token(TokenType::Minus) {
            self.pass_token()?;
        }
        self.parse_primary()
    }

    /// `{ ("*" | "/") unary }`
    fn more_factors(&mut self) -> (res: Result<(), CompileError>)
        requires
            old(self).wf(),
        ensures
            final(self).wf(),
            *final(final(self).emitter) == *final(old(self).emitter),
            final(self).emitter.destination() == old(self).emitter.destination(),
            follows(res, final(self)@, grammar::more_factors(old(self)@)),
            res is Ok ==> remaining(final(self)@) <= remaining(old(self)@),
    {
        while self.check_token(TokenType::Asterisk) || self.check_token(TokenType::Slash)
            invariant
                self.wf(),
                *final(self.emitter) == *final(old(self).emitter),
                self.emitter.destination() == old(self).emitter.destination(),
                grammar::more_factors(self@) == grammar::more_factors(old(self)@),
                remaining(self@) <= remaining(old(self)@),
            decreases remaining(self@),
        {
            self.pass_token()?;
            self.parse_unary()?;
        }
        Ok(())
    }

    /// `term ::= unary { ("*" | "/") unary }`
    pub fn parse_term(&mut self) -> (res: Result<(), CompileError>)
        requires
            old(self).wf(),
        ensures
            final(self).wf(),
            *final(final(self).emitter) == *final(old(self).emitter),
            final(self).emitter.destination() == old(self).emitter.destination(),
            follows(res, final(self)@, grammar::term(old(self)@)),
            res is Ok ==> remaining(final(self)@) < remaining(old(self)@),
    {
        match self.parse_unary() {
            Ok(()) => self.more_factors(),
            Err(e) => Err(e),
        }
    }

    /// `{ ("+" | "-") term }`
    fn more_terms(&mut self) -> (res: Result<(), CompileError>)
        requires
            old(self).wf(),
        ensures
            final(self).wf(),
            *final(final(self).emitter) == *final(old(self).emitter),
            final(self).emitter.destination() == old(self).emitter.destination(),
            follows(res, final(self)@, grammar::more_terms(old(self)@)),
            res is Ok ==> remaining(final(self)@) <= remaining(old(self)@),
    {
        while self.check_token(TokenType::Plus) || self.check_token(TokenType::Minus)
            invariant
                self.wf(),
                *final(self.emitter) == *final(old(self).emitter),
                self.emitter.destination() == old(self).emitter.destination(),
                grammar::more_terms(self@) == grammar::more_terms(old(self)@),
                remaining(self@) <= remaining(old(self)@),
            decreases remaining(self@),
        {
            self.pass_token()?;
            self.parse_term()?;
        }
        Ok(())
    }

    /// `expression ::= term { ("+" | "-") term }`
    pub fn parse_expression(&mut self) -> (res: Result<(), CompileError>)
        requires
            old(self).wf(),
        ensures
            final(self).wf(),
            *final(final(self).emitter) == *final(old(self).emitter),
            final(self).emitter.destination() == old(self).emitter.destination(),
            follows(res, final(self)@, grammar::expression(old(self)@)),
            res is Ok ==> remaining(final(self)@) < remaining(old(self)@),
    {
        match self.parse_term() {
            Ok(()) => self.more_terms(),
            Err(e) => Err(e),
        }
    }

    /// Whether `kind` is one of the six comparison operators.
    pub fn is_comparison_operator(&self, kind: TokenType) -> (yes: bool)
        ensures
            yes == grammar::is_comparison(kind),
    {
        match kind {
            TokenType::EqEq
            | TokenType::NotEq
            | TokenType::Lt
            | TokenType::Lte
            | TokenType::Gt
            | TokenType::Gte => true,
            _ => false,
        }
    }

    /// `{ CMP expression }`
    fn more_comparisons(&mut self) -> (res: Result<(), CompileError>)
        requires
            old(self).wf(),
        ensures
            final(self).wf(),
            *final(final(self).emitter) == *final(old(self).emitter),
            final(self).emitter.destination() == old(self).emitter.destination(),
            follows(res, final(self)@, grammar::more_comparisons(old(self)@)),
            res is Ok ==> remaining(final(self)@) <= remaining(old(self)@),
    {
        while self.is_comparison_operator(self.curtoken.kind)
            invariant
                self.wf(),
                *final(self.emitter) == *final(old(self).emitter),
                self.emitter.destination() == old(self).emitter.destination(),
                grammar::more_comparisons(self@) == grammar::more_comparisons(old(self)@),
                remaining(self@) <= remaining(old(self)@),
            decreases remaining(self@),
        {
            self.pass_token()?;
            self.parse_expression()?;
        }
        Ok(())
    }

    /// `comparison ::= expression ( ("==" | "!=" | "<" | "<=" | ">" | ">=") expression )+`
    pub fn parse_comparison(&mut self) -> (res: Result<(), CompileError>)
        requires
            old(self).wf(),
        ensures
            final(self).wf(),
            *final(final(self).emitter) == *final(old(self).emitter),
            final(self).emitter.destination() == old(self).emitter.destination(),
            follows(res, final(self)@, grammar::comparison(old(self)@)),
            res is Ok ==> remaining(final(self)@) < remaining(old(self)@),
    {
        self.parse_expression()?;
        if !self.is_comparison_operator(self.curtoken.kind) {
            return Err(CompileError::ExpectedComparison { found: self.curtoken.kind });
        }
        self.pass_token()?;
        match self.parse_expression() {
            Ok(()) => self.more_comparisons(),
            Err(e) => Err(e),
        }
    }

    /// What follows `PRINT`.
    fn print_statement(&mut self) -> (res: Result<(), CompileError>)
        requires
            old(self).wf(),
        ensures
            final(self).wf(),
            *final(final(self).emitter) == *final(old(self).emitter),
            final(self).emitter.destination() == old(self).emitter.destination(),
            follows(res, final(self)@, grammar::print_statement(old(self)@)),
            res is Ok ==> remaining(final(self)@) <= remaining(old(self)@),
    {
        if self.check_token(TokenType::String) {
            let call = join3("printf(\"", self.curtoken.spelling.as_str(), "\\n\");");
            self.emitter.emit_line(call.as_str());
            self.match_token(TokenType::String)
        } else {
            self.emitter.emit("printf(\"%.2f\\n\", (float)(");
            self.parse_expression()?;
            self.emitter.emit_line("));");
            Ok(())
        }
    }

    /// What follows `LABEL`.
    fn label_statement(&mut self) -> (res: Result<(), CompileError>)
        requires
            old(self).wf(),
        ensures
            final(self).wf(),
            *final(final(self).emitter) == *final(old(self).emitter),
            final(self).emitter.destination() == old(self).emitter.destination(),
            follows(res, final(self)@, grammar::label_statement(old(self)@)),
            res is Ok ==> remaining(final(self)@) <= remaining(old(self)@),
    {
        if self.declared_labels.contains(self.curtoken.spelling.as_str()) {
            return Err(CompileError::DuplicateLabel { name: self.curtoken.spelling.clone() });
        }
        self.declared_labels.insert(self.curtoken.spelling.as_str());
        let target = join2(self.curtoken.spelling.as_str(), ":");
        self.emitter.emit_line(target.as_str());
        self.match_token(TokenType::Ident)
    }

    /// What follows `GOTO`.
    fn goto_statement(&mut self) -> (res: Result<(), CompileError>)
        requires
            old(self).wf(),
        ensures
            final(self).wf(),
            *final(final(self).emitter) == *final(old(self).emitter),
            final(self).emitter.destination() == old(self).emitter.destination(),
            follows(res, final(self)@, grammar::goto_statement(old(self)@)),
            res is Ok ==> remaining(final(self)@) <= remaining(old(self)@),
    {
        self.gotoed_labels.insert(self.curtoken.spelling.as_str());
        let jump = join3("goto ", self.curtoken.spelling.as_str(), ";");
        self.emitter.emit_line(jump.as_str());
        self.match_token(TokenType::Ident)
    }

    /// Declares the variable that the current token names, if it is new.
    fn introduce(&mut self)
        requires
            old(self).wf(),
        ensures
            final(self).wf(),
            *final(final(self).emitter) == *final(old(self).emitter),
            final(self).emitter.destination() == old(self).emitter.destination(),
            final(self)@ == grammar::introduce(old(self)@),
    {
        if !self.symbols.contains(self.curtoken.spelling.as_str()) {
            self.symbols.insert(self.curtoken.spelling.as_str());
            let declaration = join3("float ", self.curtoken.spelling.as_str(), ";");
            self.emitter.header_line(declaration.as_str());
        }
    }

    /// What follows `LET`.
    fn let_statement(&mut self) -> (res: Result<(), CompileError>)
        requires
            old(self).wf(),
        ensures
            final(self).wf(),
            *final(final(self).emitter) == *final(old(self).emitter),
            final(self).emitter.destination() == old(self).emitter.destination(),
            follows(res, final(self)@, grammar::let_statement(old(self)@)),
            res is Ok ==> remaining(final(self)@) <= remaining(old(self)@),
    {
        self.introduce();
        let target = join2(self.curtoken.spelling.as_str(), " = ");
        self.emitter.emit(target.as_str());
        self.match_token(TokenType::Ident)?;
        self.match_token(TokenType::Eq)?;
        self.parse_expression()?;
        self.emitter.emit_line(";");
        Ok(())
    }

    /// What follows `INPUT`.
    fn input_statement(&mut self) -> (res: Result<(), CompileError>)
        requires
            old(self).wf(),
        ensures
            final(self).wf(),
            *final(final(self).emitter) == *final(old(self).emitter),
            final(self).emitter.destination() == old(self).emitter.destination(),
            follows(res, final(self)@, grammar::input_statement(old(self)@)),
            res is Ok ==> remaining(final(self)@) <= remaining(old(self)@),
    {
        self.introduce();
        let read = join3("if (0 == scanf(\"%f\", &", self.curtoken.spelling.as_str(), ")) {");
        self.emitter.emit_line(read.as_str());
        let reset = join2(self.curtoken.spelling.as_str(), " = 0;");
        self.emitter.emit_line(reset.as_str());
        self.emitter.emit_line("scanf(\"%*s\");");
        self.emitter.emit_line("}");
        self.match_token(TokenType::Ident)
    }

    /// A statement that holds no other statement, without its line end.
    fn simple_statement(&mut self) -> (res: Result<(), CompileError>)
        requires
            old(self).wf(),
        ensures
            final(self).wf(),
            *final(final(self).emitter) == *final(old(self).emitter),
            final(self).emitter.destination() == old(self).emitter.destination(),
            follows(res, final(self)@, grammar::simple_statement(old(self)@)),
            res is Ok ==> remaining(final(self)@) < remaining(old(self)@),
    {
        let kind = self.curtoken.kind;
        match kind {
            TokenType::Print | TokenType::Label | TokenType::Goto | TokenType::Let | TokenType::Input => {},
            _ => {
                return Err(
                    CompileError::InvalidStatement {
                        found: kind,
                        spelling: self.curtoken.spelling.clone(),
                    },
                );
            },
        }
        self.next_token()?;
        match kind {
            TokenType::Print => self.print_statement(),
            TokenType::Label => self.label_statement(),
            TokenType::Goto => self.goto_statement(),
            TokenType::Let => self.let_statement(),
            _ => self.input_statement(),
        }
    }

    /// The head of an `IF` or `WHILE` block, up to the line end behind
    /// `THEN` or `REPEAT`.
    fn block_head(&mut self) -> (res: Result<(), CompileError>)
        requires
            old(self).wf(),
            old(self)@.kind == TokenType::If || old(self)@.kind == TokenType::While,
        ensures
            final(self).wf(),
            *final(final(self).emitter) == *final(old(self).emitter),
            final(self).emitter.destination() == old(self).emitter.destination(),
            follows(res, final(self)@, grammar::block_head(old(self)@)),
            res is Ok ==> remaining(final(self)@) < remaining(old(self)@),
    {
        let is_if = self.check_token(TokenType::If);
        self.next_token()?;
        self.emitter.emit(if is_if { "if (" } else { "while (" });
        self.parse_comparison()?;
        self.match_token(if is_if { TokenType::Then } else { TokenType::Repeat })?;
        self.parse_newline()?;
        self.emitter.emit_line(") {");
        Ok(())
    }

    /// The keyword that closes a block.
    fn block_end(&mut self, closer: TokenType) -> (res: Result<(), CompileError>)
        requires
            old(self).wf(),
        ensures
            final(self).wf(),
            *final(final(self).emitter) == *final(old(self).emitter),
            final(self).emitter.destination() == old(self).emitter.destination(),
            follows(res, final(self)@, grammar::block_end(old(self)@, closer)),
            res is Ok ==> remaining(final(self)@) <= remaining(old(self)@),
    {
        self.match_token(closer)?;
        self.emitter.emit_line("}");
        Ok(())
    }

    /// One statement with its line end.
    pub fn parse_statement(&mut self) -> (res: Result<(), CompileError>)
        requires
            old(self).wf(),
        ensures
            final(self).wf(),
            *final(final(self).emitter) == *final(old(self).emitter),
            final(self).emitter.destination() == old(self).emitter.destination(),
            follows(res, final(self)@, grammar::statement(old(self)@)),
            res is Ok ==> remaining(final(self)@) < remaining(old(self)@),
        decreases remaining(old(self)@), 0int,
    {
        let kind = self.curtoken.kind;
        match kind {
            TokenType::If | TokenType::While => {
                let closer = match kind {
                    TokenType::If => TokenType::Endif,
                    _ => TokenType::Endwhile,
                };
                self.block_head()?;
                self.parse_statements(closer)?;
                self.block_end(closer)?;
            },
            _ => {
                self.simple_statement()?;
            },
        }
        self.parse_newline()
    }

    /// `{ statement }`, up to a token of kind `until`.
    pub fn parse_statements(&mut self, until: TokenType) -> (res: Result<(), CompileError>)
        requires
            old(self).wf(),
        ensures
            final(self).wf(),
            *final(final(self).emitter) == *final(old(self).emitter),
            final(self).emitter.destination() == old(self).emitter.destination(),
            follows(res, final(self)@, grammar::statements(old(self)@, until)),
            res is Ok ==> remaining(final(self)@) <= remaining(old(self)@),
        decreases remaining(old(self)@), 1int,
    {
        while !self.check_token(until)
            invariant
                self.wf(),
                *final(self.emitter) == *final(old(self).emitter),
                self.emitter.destination() == old(self).emitter.destination(),
                grammar::statements(self@, until) == grammar::statements(old(self)@, until),
                remaining(self@) <= remaining(old(self)@),
            decreases remaining(self@),
        {
            self.parse_statement()?;
        }
        Ok(())
    }

    /// `program ::= { statement }`, between the prologue and the epilogue.
    pub fn parse_program(&mut self) -> (res: Result<(), CompileError>)
        requires
            old(self).wf(),
        ensures
            final(self).wf(),
            *final(final(self).emitter) == *final(old(self).emitter),
            final(self).emitter.destination() == old(self).emitter.destination(),
            follows(res, final(self)@, grammar::program(old(self)@)),
    {
        self.emitter.header_line("#include <stdio.h>");
        self.emitter.header_line("int main(int argc, char *argv[]) {");
        self.parse_statements(TokenType::Eof)?;
        self.emitter.emit_line("return 0;");
        self.emitter.emit_line("}");
        Ok(())
    }

    /// Translates the whole source. The labels jumped to are held against
    /// the labels declared once the program has been read to its end.
    pub fn parse(&mut self) -> (res: Result<(), CompileError>)
        requires
            old(self).wf(),
        ensures
            final(self).wf(),
            *final(final(self).emitter) == *final(old(self).emitter),
            final(self).emitter.destination() == old(self).emitter.destination(),
            follows(res, final(self)@, grammar::parse(old(self)@)),
    {
        self.skip_newlines()?;
        self.parse_program()?;
        match self.gotoed_labels.first_missing(&self.declared_labels) {
            Some(name) => Err(CompileError::UndefinedLabel { name }),
            None => Ok(()),
        }
    }
}

/// Translates `source` and writes the C program to `emitter`. What the
/// emitter holds after a defect is of no use.
pub fn compile_into(source: &str, emitter: &mut Emitter) -> (res: Result<(), CompileError>)
    ensures
        final(emitter).destination() == old(emitter).destination(),
        match grammar::opening(
            source@.push('\n'),
            0,
            old(emitter).header_text(),
            old(emitter).body_text(),
        ) {
            Ok(s) => match grammar::parse(s) {
                Ok(t) => {
                    &&& res is Ok
                    &&& final(emitter).header_text() == t.header
                    &&& final(emitter).body_text() == t.code
                },
                Err(d) => res matches Err(e) && e@ == d,
            },
            Err(d) => res matches Err(e) && e@ == d,
        },
{
    match Parser::new(Lexer::new(source), emitter) {
        Ok(mut parser) => parser.parse(),
        Err(e) => Err(e),
    }
}

/// Translates `source` to a C program.
pub fn compile(source: &str) -> (res: Result<String, CompileError>)
    ensures
        match grammar::translation(source@) {
            Ok(text) => res is Ok && res->Ok_0@ == text,
            Err(d) => res matches Err(e) && e@ == d,
        },
{
    let mut emitter = Emitter::new("");
    match compile_into(source, &mut emitter) {
        Ok(()) => Ok(emitter.output()),
        Err(e) => Err(e),
    }
}

} // verus!
