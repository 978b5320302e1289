//! What holds of every rule of the grammar: a rule only moves forward.
//! It leaves the source as it is, consumes tokens, adds to the sets of
//! names and appends to the two buffers; and it never reports a jump to an
//! undeclared label, which only the end of a whole parse can tell.

use crate::error::{Defect, ErrorCategory};
use crate::grammar::{
    self, advance, block_closer, block_end, block_head, block_keyword, block_opener, comparison,
    declare, expect, expression, goto_statement, input_statement, introduce, is_comparison,
    label_statement, let_statement, more_comparisons, more_factors, more_terms, newlines, parse,
    pass_token, primary, print_statement, program, remaining, simple_statement, skip_newlines,
    statement, statements, term, unary, write_line, Session, Step,
};
use crate::lexer::{lemma_scan_bounds, TokenType};
use crate::names::{first_missing, lemma_first_missing, lemma_with_name, with_name, within};
use vstd::prelude::*;

verus! {

/// The cursor of `s` stands in its source.
pub open spec fn in_source(s: Session) -> bool {
    0 <= s.pos <= s.src.len()
}

/// `t` continues `s`: it reads the same source, stands in it if `s` does
/// and has no more of it left, it knows every name that `s` knows, and its
/// buffers start with those of `s`.
pub open spec fn continues(s: Session, t: Session) -> bool {
    &&& t.src == s.src
    &&& in_source(s) ==> in_source(t)
    &&& remaining(t) <= remaining(s)
    &&& within(s.symbols, t.symbols)
    &&& within(s.declared, t.declared)
    &&& within(s.gotoed, t.gotoed)
    &&& s.header.is_prefix_of(t.header)
    &&& s.code.is_prefix_of(t.code)
}

/// The step `r`, taken from `s`, is orderly: where it succeeds its session
/// continues `s`, having consumed a token if `consuming` is set; where it
/// fails the defect is not an undeclared jump target.
pub open spec fn orderly(s: Session, r: Step, consuming: bool) -> bool {
    match r {
        Ok(t) => continues(s, t) && (consuming ==> remaining(t) < remaining(s)),
        Err(e) => !(e is UndefinedLabel),
    }
}

/// What continues a session that continues `a` continues `a`.
pub proof fn lemma_continues_transitive(a: Session, b: Session, c: Session)
    requires
        continues(a, b),
        continues(b, c),
    ensures
        continues(a, c),
{
    assert(a.header =~= c.header.subrange(0, a.header.len() as int));
    assert(a.code =~= c.code.subrange(0, a.code.len() as int));
}

/// A step that is orderly from a session that continues `s` is orderly
/// from `s`.
pub proof fn lemma_orderly_after(s: Session, m: Session, r: Step)
    requires
        continues(s, m),
        orderly(m, r, false),
    ensures
        orderly(s, r, false),
        r matches Ok(t) ==> remaining(t) <= remaining(m),
{
    if let Ok(t) = r {
        lemma_continues_transitive(s, m, t);
    }
}

/// Writing and declaring continue the session without consuming anything.
pub proof fn lemma_emitting_continues(s: Session, text: Seq<char>)
    ensures
        continues(s, s),
        continues(s, grammar::write(s, text)),
        continues(s, write_line(s, text)),
        continues(s, declare(s, text)),
        remaining(grammar::write(s, text)) == remaining(s),
        remaining(write_line(s, text)) == remaining(s),
        remaining(declare(s, text)) == remaining(s),
{
    assert(s.header =~= s.header.subrange(0, s.header.len() as int));
    assert(s.code =~= s.code.subrange(0, s.code.len() as int));
    assert(s.code =~= grammar::write(s, text).code.subrange(0, s.code.len() as int));
    assert(s.code =~= write_line(s, text).code.subrange(0, s.code.len() as int));
    assert(s.header =~= declare(s, text).header.subrange(0, s.header.len() as int));
}

/// Reading a token is orderly, it consumes unless the input is at its end,
/// and it fails on lexical defects only.
pub proof fn lemma_advance(s: Session)
    ensures
        orderly(s, advance(s), s.kind != TokenType::Eof),
        advance(s) matches Err(e) ==> e.category() == ErrorCategory::Lexical,
{
    if in_source(s) {
        lemma_scan_bounds(s.src, s.pos);
    }
    lemma_emitting_continues(s, Seq::empty());
}

/// The rule `expect` is orderly, consumes a token unless it expects the end
/// of the input, and never fails on a semantic defect.
pub proof fn lemma_expect(s: Session, kind: TokenType)
    ensures
        orderly(s, expect(s, kind), kind != TokenType::Eof),
        expect(s, kind) matches Err(e) ==> e.category() != ErrorCategory::Semantic,
{
    lemma_advance(s);
}

/// The rule `pass_token` is orderly, consumes a token unless the input is
/// at its end, and fails on lexical defects only.
pub proof fn lemma_pass_token(s: Session)
    ensures
        orderly(s, pass_token(s), s.kind != TokenType::Eof),
        pass_token(s) matches Err(e) ==> e.category() == ErrorCategory::Lexical,
{
    lemma_emitting_continues(s, s.spelling);
    lemma_advance(grammar::write(s, s.spelling));
    lemma_orderly_after(s, grammar::write(s, s.spelling), pass_token(s));
}

/// The rule `skip_newlines` is orderly.
pub proof fn lemma_skip_newlines(s: Session)
    ensures
        orderly(s, skip_newlines(s), false),
    decreases remaining(s),
{
    lemma_emitting_continues(s, Seq::empty());
    if s.kind == TokenType::Newline {
        lemma_advance(s);
        if let Ok(s1) = advance(s) {
            lemma_skip_newlines(s1);
            lemma_orderly_after(s, s1, skip_newlines(s1));
        }
    }
}

/// The rule `newlines` is orderly and consumes a token.
pub proof fn lemma_newlines(s: Session)
    ensures
        orderly(s, newlines(s), true),
{
    lemma_expect(s, TokenType::Newline);
    if let Ok(s1) = expect(s, TokenType::Newline) {
        lemma_skip_newlines(s1);
        lemma_orderly_after(s, s1, skip_newlines(s1));
    }
}

/// The rule `primary` is orderly and consumes a token.
pub proof fn lemma_primary(s: Session)
    ensures
        orderly(s, primary(s), true),
{
    lemma_pass_token(s);
}

/// The rule `unary` is orderly and consumes a token.
pub proof fn lemma_unary(s: Session)
    ensures
        orderly(s, unary(s), true),
{
    lemma_primary(s);
    lemma_pass_token(s);
    if s.kind == TokenType::Plus || s.kind == TokenType::Minus {
        if let Ok(s1) = pass_token(s) {
            lemma_primary(s1);
            lemma_orderly_after(s, s1, primary(s1));
        }
    }
}

/// The rule `more_factors` is orderly.
pub proof fn lemma_more_factors(s: Session)
    ensures
        orderly(s, more_factors(s), false),
    decreases remaining(s),
{
    lemma_emitting_continues(s, Seq::empty());
    if s.kind == TokenType::Asterisk || s.kind == TokenType::Slash {
        lemma_pass_token(s);
        if let Ok(s1) = pass_token(s) {
            lemma_unary(s1);
            if let Ok(s2) = unary(s1) {
                lemma_continues_transitive(s, s1, s2);
                lemma_more_factors(s2);
                lemma_orderly_after(s, s2, more_factors(s2));
            }
        }
    }
}

/// The rule `term` is orderly and consumes a token.
pub proof fn lemma_term(s: Session)
    ensures
        orderly(s, term(s), true),
{
    lemma_unary(s);
    if let Ok(s1) = unary(s) {
        lemma_more_factors(s1);
        lemma_orderly_after(s, s1, more_factors(s1));
    }
}

/// The rule `more_terms` is orderly.
pub proof fn lemma_more_terms(s: Session)
    ensures
        orderly(s, more_terms(s), false),
    decreases remaining(s),
{
    lemma_emitting_continues(s, Seq::empty());
    if s.kind == TokenType::Plus || s.kind == TokenType::Minus {
        lemma_pass_token(s);
        if let Ok(s1) = pass_token(s) {
            lemma_term(s1);
            if let Ok(s2) = term(s1) {
                lemma_continues_transitive(s, s1, s2);
                lemma_more_terms(s2);
                lemma_orderly_after(s, s2, more_terms(s2));
            }
        }
    }
}

/// The rule `expression` is orderly and consumes a token.
pub proof fn lemma_expression(s: Session)
    ensures
        orderly(s, expression(s), true),
{
    lemma_term(s);
    if let Ok(s1) = term(s) {
        lemma_more_terms(s1);
        lemma_orderly_after(s, s1, more_terms(s1));
    }
}

/// The rule `more_comparisons` is orderly.
pub proof fn lemma_more_comparisons(s: Session)
    ensures
        orderly(s, more_comparisons(s), false),
    decreases remaining(s),
{
    lemma_emitting_continues(s, Seq::empty());
    if is_comparison(s.kind) {
        lemma_pass_token(s);
        if let Ok(s1) = pass_token(s) {
            lemma_expression(s1);
            if let Ok(s2) = expression(s1) {
                lemma_continues_transitive(s, s1, s2);
                lemma_more_comparisons(s2);
                lemma_orderly_after(s, s2, more_comparisons(s2));
            }
        }
    }
}

/// The rule `comparison` is orderly and consumes a token.
pub proof fn lemma_comparison(s: Session)
    ensures
        orderly(s, comparison(s), true),
{
    lemma_expression(s);
    if let Ok(s1) = expression(s) {
        if is_comparison(s1.kind) {
            lemma_pass_token(s1);
            if let Ok(s2) = pass_token(s1) {
                lemma_continues_transitive(s, s1, s2);
                lemma_expression(s2);
                if let Ok(s3) = expression(s2) {
                    lemma_continues_transitive(s, s2, s3);
                    lemma_more_comparisons(s3);
                    lemma_orderly_after(s, s3, more_comparisons(s3));
                }
            }
        }
    }
}

/// Introducing the current token's name makes it a known variable and
/// consumes nothing.
pub proof fn lemma_introduce(s: Session)
    ensures
        continues(s, introduce(s)),
        remaining(introduce(s)) == remaining(s),
        introduce(s).symbols.contains(s.spelling),
        introduce(s).spelling == s.spelling,
{
    let known = Session { symbols: with_name(s.symbols, s.spelling), ..s };
    lemma_with_name(s.symbols, s.spelling);
    lemma_emitting_continues(s, Seq::empty());
    lemma_emitting_continues(known, "float "@ + s.spelling + ";"@);
}

/// The rule `print_statement` is orderly.
pub proof fn lemma_print_statement(s: Session)
    ensures
        orderly(s, print_statement(s), false),
{
    if s.kind == TokenType::String {
        let s1 = write_line(s, "printf(\""@ + s.spelling + "\\n\");"@);
        lemma_emitting_continues(s, "printf(\""@ + s.spelling + "\\n\");"@);
        lemma_advance(s1);
        lemma_orderly_after(s, s1, advance(s1));
    } else {
        let s1 = grammar::write(s, "printf(\"%.2f\\n\", (float)("@);
        lemma_emitting_continues(s, "printf(\"%.2f\\n\", (float)("@);
        lemma_expression(s1);
        if let Ok(s2) = expression(s1) {
            lemma_emitting_continues(s2, "));"@);
            lemma_continues_transitive(s, s1, s2);
            lemma_continues_transitive(s, s2, write_line(s2, "));"@));
        }
    }
}

/// A label that is already declared is a defect; a label statement that
/// succeeds declares its label.
pub proof fn lemma_label_statement(s: Session)
    ensures
        orderly(s, label_statement(s), false),
        s.declared.contains(s.spelling) ==> label_statement(s) == Err::<Session, Defect>(
            Defect::DuplicateLabel { name: s.spelling },
        ),
        label_statement(s) matches Ok(t) ==> !s.declared.contains(s.spelling)
            && t.declared.contains(s.spelling),
{
    if !s.declared.contains(s.spelling) {
        let s1 = Session { declared: with_name(s.declared, s.spelling), ..s };
        lemma_with_name(s.declared, s.spelling);
        let s2 = write_line(s1, s.spelling + ":"@);
        lemma_emitting_continues(s, Seq::empty());
        lemma_emitting_continues(s1, s.spelling + ":"@);
        lemma_continues_transitive(s, s1, s2);
        lemma_expect(s2, TokenType::Ident);
        lemma_orderly_after(s, s2, expect(s2, TokenType::Ident));
        if let Ok(t) = expect(s2, TokenType::Ident) {
            assert(s2.declared.contains(s.spelling));
        }
    }
}

/// A jump is noted and never a semantic defect where it stands, whether
/// its label is declared yet or not.
pub proof fn lemma_goto_statement(s: Session)
    ensures
        orderly(s, goto_statement(s), false),
        goto_statement(s) matches Ok(t) ==> t.gotoed.contains(s.spelling),
        goto_statement(s) matches Err(e) ==> e.category() != ErrorCategory::Semantic,
{
    let s1 = Session { gotoed: with_name(s.gotoed, s.spelling), ..s };
    lemma_with_name(s.gotoed, s.spelling);
    let s2 = write_line(s1, "goto "@ + s.spelling + ";"@);
    lemma_emitting_continues(s, Seq::empty());
    lemma_emitting_continues(s1, "goto "@ + s.spelling + ";"@);
    lemma_continues_transitive(s, s1, s2);
    lemma_expect(s2, TokenType::Ident);
    lemma_orderly_after(s, s2, expect(s2, TokenType::Ident));
    if let Ok(t) = expect(s2, TokenType::Ident) {
        assert(s2.gotoed.contains(s.spelling));
    }
}

/// An assignment that succeeds leaves its variable known.
pub proof fn lemma_let_statement(s: Session)
    ensures
        orderly(s, let_statement(s), false),
        let_statement(s) matches Ok(t) ==> t.symbols.contains(s.spelling),
{
    let s0 = introduce(s);
    lemma_introduce(s);
    let s1 = grammar::write(s0, s.spelling + " = "@);
    lemma_emitting_continues(s0, s.spelling + " = "@);
    lemma_continues_transitive(s, s0, s1);
    lemma_expect(s1, TokenType::Ident);
    if let Ok(s2) = expect(s1, TokenType::Ident) {
        lemma_continues_transitive(s, s1, s2);
        lemma_expect(s2, TokenType::Eq);
        if let Ok(s3) = expect(s2, TokenType::Eq) {
            lemma_continues_transitive(s, s2, s3);
            lemma_expression(s3);
            if let Ok(s4) = expression(s3) {
                lemma_continues_transitive(s, s3, s4);
                lemma_emitting_continues(s4, ";"@);
                lemma_continues_transitive(s, s4, write_line(s4, ";"@));
            }
        }
    }
}

/// An input statement that succeeds leaves its variable known.
pub proof fn lemma_input_statement(s: Session)
    ensures
        orderly(s, input_statement(s), false),
        input_statement(s) matches Ok(t) ==> t.symbols.contains(s.spelling),
{
    let s0 = introduce(s);
    lemma_introduce(s);
    let s1 = write_line(s0, "if (0 == scanf(\"%f\", &"@ + s.spelling + ")) {"@);
    lemma_emitting_continues(s0, "if (0 == scanf(\"%f\", &"@ + s.spelling + ")) {"@);
    lemma_continues_transitive(s, s0, s1);
    let s2 = write_line(s1, s.spelling + " = 0;"@);
    lemma_emitting_continues(s1, s.spelling + " = 0;"@);
    lemma_continues_transitive(s, s1, s2);
    let s3 = write_line(s2, "scanf(\"%*s\");"@);
    lemma_emitting_continues(s2, "scanf(\"%*s\");"@);
    lemma_continues_transitive(s, s2, s3);
    let s4 = write_line(s3, "}"@);
    lemma_emitting_continues(s3, "}"@);
    lemma_continues_transitive(s, s3, s4);
    lemma_expect(s4, TokenType::Ident);
    lemma_orderly_after(s, s4, expect(s4, TokenType::Ident));
}

/// The rule `simple_statement` is orderly and consumes a token.
pub proof fn lemma_simple_statement(s: Session)
    ensures
        orderly(s, simple_statement(s), true),
{
    if s.kind == TokenType::Print || s.kind == TokenType::Label || s.kind == TokenType::Goto
        || s.kind == TokenType::Let || s.kind == TokenType::Input {
        lemma_advance(s);
        if let Ok(s1) = advance(s) {
            lemma_print_statement(s1);
            lemma_label_statement(s1);
            lemma_goto_statement(s1);
            lemma_let_statement(s1);
            lemma_input_statement(s1);
            lemma_orderly_after(s, s1, simple_statement(s));
        }
    }
}

/// The rule `block_head` is orderly and consumes a token.
pub proof fn lemma_block_head(s: Session)
    requires
        s.kind != TokenType::Eof,
    ensures
        orderly(s, block_head(s), true),
{
    lemma_advance(s);
    if let Ok(s1) = advance(s) {
        let s1w = grammar::write(s1, block_keyword(s.kind));
        lemma_emitting_continues(s1, block_keyword(s.kind));
        lemma_continues_transitive(s, s1, s1w);
        lemma_comparison(s1w);
        if let Ok(s2) = comparison(s1w) {
            lemma_continues_transitive(s, s1w, s2);
            lemma_expect(s2, block_opener(s.kind));
            if let Ok(s3) = expect(s2, block_opener(s.kind)) {
                lemma_continues_transitive(s, s2, s3);
                lemma_newlines(s3);
                if let Ok(s4) = newlines(s3) {
                    lemma_continues_transitive(s, s3, s4);
                    lemma_emitting_continues(s4, ") {"@);
                    lemma_continues_transitive(s, s4, write_line(s4, ") {"@));
                }
            }
        }
    }
}

/// The rule `block_end` is orderly.
pub proof fn lemma_block_end(s: Session, closer: TokenType)
    ensures
        orderly(s, block_end(s, closer), false),
{
    lemma_expect(s, closer);
    if let Ok(s1) = expect(s, closer) {
        lemma_emitting_continues(s1, "}"@);
        lemma_continues_transitive(s, s1, write_line(s1, "}"@));
    }
}

/// The rule `statement` is orderly and consumes a token.
pub proof fn lemma_statement(s: Session)
    ensures
        orderly(s, statement(s), true),
    decreases remaining(s), 0int,
{
    let body: Step = if s.kind == TokenType::If || s.kind == TokenType::While {
        lemma_block_head(s);
        match block_head(s) {
            Ok(s1) => {
                lemma_statements(s1, block_closer(s.kind));
                match statements(s1, block_closer(s.kind)) {
                    Ok(s2) => {
                        lemma_continues_transitive(s, s1, s2);
                        lemma_block_end(s2, block_closer(s.kind));
                        lemma_orderly_after(s, s2, block_end(s2, block_closer(s.kind)));
                        block_end(s2, block_closer(s.kind))
                    },
                    Err(e) => Err(e),
                }
            },
            Err(e) => Err(e),
        }
    } else {
        lemma_simple_statement(s);
        simple_statement(s)
    };
    assert(orderly(s, body, true));
    if let Ok(s3) = body {
        lemma_newlines(s3);
        lemma_orderly_after(s, s3, newlines(s3));
    }
}

/// The rule `statements` is orderly.
pub proof fn lemma_statements(s: Session, until: TokenType)
    ensures
        orderly(s, statements(s, until), false),
    decreases remaining(s), 1int,
{
    lemma_emitting_continues(s, Seq::empty());
    if s.kind != until {
        lemma_statement(s);
        if let Ok(s1) = statement(s) {
            lemma_statements(s1, until);
            lemma_orderly_after(s, s1, statements(s1, until));
        }
    }
}

/// The rule `program` is orderly.
pub proof fn lemma_program(s: Session)
    ensures
        orderly(s, program(s), false),
{
    let s1 = declare(s, "#include <stdio.h>"@);
    let s2 = declare(s1, "int main(int argc, char *argv[]) {"@);
    lemma_emitting_continues(s, "#include <stdio.h>"@);
    lemma_emitting_continues(s1, "int main(int argc, char *argv[]) {"@);
    lemma_continues_transitive(s, s1, s2);
    lemma_statements(s2, TokenType::Eof);
    if let Ok(s3) = statements(s2, TokenType::Eof) {
        lemma_continues_transitive(s, s2, s3);
        let s4 = write_line(s3, "return 0;"@);
        lemma_emitting_continues(s3, "return 0;"@);
        lemma_continues_transitive(s, s3, s4);
        lemma_emitting_continues(s4, "}"@);
        lemma_continues_transitive(s, s4, write_line(s4, "}"@));
    }
}

/// A variable that is read before a `LET` or an `INPUT` has introduced it
/// is a semantic defect. One that is read after is none: the variable stays
/// known in every session that continues the one in which it was
/// introduced, and there its reference fails on a lexical defect behind it
/// or not at all.
pub proof fn lemma_variable_reference(s: Session)
    requires
        s.kind == TokenType::Ident,
    ensures
        !s.symbols.contains(s.spelling) ==> primary(s) == Err::<Session, Defect>(
            Defect::UndeclaredVariable { name: s.spelling },
        ),
        s.symbols.contains(s.spelling) ==> (primary(s) matches Err(e) ==> e.category()
            == ErrorCategory::Lexical),
        (Defect::UndeclaredVariable { name: s.spelling }).category() == ErrorCategory::Semantic,
{
    lemma_pass_token(s);
}

/// A known variable, a declared label and a noted jump stay so in every
/// session that continues the one they were known in.
pub proof fn lemma_names_stay(s: Session, t: Session, name: Seq<char>)
    requires
        continues(s, t),
    ensures
        s.symbols.contains(name) ==> t.symbols.contains(name),
        s.declared.contains(name) ==> t.declared.contains(name),
        s.gotoed.contains(name) ==> t.gotoed.contains(name),
{
}

/// Once a `LET` or an `INPUT` has introduced a variable, no later
/// reference to it is an undeclared variable: in every session that
/// continues the one behind that statement, a reference to the name fails
/// on a lexical defect behind it or not at all.
pub proof fn lemma_introduced_stays_known(s: Session, after: Session, later: Session)
    requires
        let_statement(s) == Ok::<Session, Defect>(after) || input_statement(s) == Ok::<
            Session,
            Defect,
        >(after),
        continues(after, later),
        later.kind == TokenType::Ident,
        later.spelling == s.spelling,
    ensures
        later.symbols.contains(s.spelling),
        primary(later) matches Err(e) ==> e.category() == ErrorCategory::Lexical,
{
    lemma_let_statement(s);
    lemma_input_statement(s);
    lemma_names_stay(after, later, s.spelling);
    lemma_variable_reference(later);
}

/// Once a `LABEL` has declared a label, every later declaration of the
/// same label is a defect: in every session that continues the one behind
/// that statement, a label statement for the name reports a duplicate.
pub proof fn lemma_label_declared_twice(s: Session, after: Session, later: Session)
    requires
        label_statement(s) == Ok::<Session, Defect>(after),
        continues(after, later),
        later.spelling == s.spelling,
    ensures
        label_statement(later) == Err::<Session, Defect>(
            Defect::DuplicateLabel { name: s.spelling },
        ),
        (Defect::DuplicateLabel { name: s.spelling }).category() == ErrorCategory::Semantic,
{
    lemma_label_statement(s);
    lemma_names_stay(after, later, s.spelling);
    lemma_label_statement(later);
}

/// A whole parse reports a jump to an undeclared label exactly when the
/// program has been read to its end without a defect and some label that
/// was jumped to is declared nowhere in it. No defect of the program goes
/// unreported for it, and no label declared behind the jump is missed. The
/// label that the defect names is such a label.
pub proof fn lemma_undefined_label_found_last(s: Session)
    ensures
        (parse(s) matches Err(e) && e is UndefinedLabel) <==> (skip_newlines(s) matches Ok(s1)
            && program(s1) matches Ok(s2) && exists|name: Seq<char>|
            s2.gotoed.contains(name) && !s2.declared.contains(name)),
        parse(s) matches Err(Defect::UndefinedLabel { name }) ==> skip_newlines(s) matches Ok(s1)
            && program(s1) matches Ok(s2) && s2.gotoed.contains(name) && !s2.declared.contains(
            name,
        ),
        parse(s) matches Err(e) ==> (e is UndefinedLabel ==> e.category()
            == ErrorCategory::Semantic),
        parse(s) matches Ok(t) ==> continues(s, t) && within(t.gotoed, t.declared),
{
    lemma_skip_newlines(s);
    if let Ok(s1) = skip_newlines(s) {
        lemma_program(s1);
        lemma_orderly_after(s, s1, program(s1));
        if let Ok(s2) = program(s1) {
            lemma_first_missing(s2.gotoed, s2.declared, 0);
            if first_missing(s2.gotoed, s2.declared, 0) is None {
                assert forall|n: Seq<char>| #[trigger] s2.gotoed.contains(n) implies s2.declared.contains(n) by {
                    let i = choose|i: int| 0 <= i < s2.gotoed.len() && s2.gotoed[i] == n;
                    assert(s2.declared.contains(s2.gotoed[i]));
                }
            }
        }
    }
}

} // verus!
