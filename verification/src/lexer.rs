//! The lexer: a cursor over the source characters that hands out one
//! classified token per call.

use crate::error::{CompileError, Defect};
use crate::text::{push_char, str_eq};
use vstd::prelude::*;
use vstd::string::*;

verus! {

/// The kind of a token.
#[derive(Copy, Clone, Debug, PartialEq, Eq, Structural)]
pub enum TokenType {
    Asterisk,
    Endif,
    Endwhile,
    Eof,
    Eq,
    EqEq,
    Goto,
    Gt,
    Gte,
    Ident,
    If,
    Input,
    Label,
    Let,
    Lt,
    Lte,
    Minus,
    Newline,
    NotEq,
    Number,
    Plus,
    Print,
    Repeat,
    Slash,
    String,
    Then,
    While,
}

/// A class of characters of which the lexer consumes maximal runs.
#[derive(Copy, Clone, Debug, PartialEq, Eq, Structural)]
pub enum CharClass {
    /// Space, tab and carriage return.
    Blank,
    /// Everything but the line feed: the inside of a comment.
    Comment,
    /// The decimal digits.
    Digit,
    /// The ASCII letters and the decimal digits.
    Alnum,
    /// What may stand inside a string literal.
    Text,
}

/// The decimal digits.
pub open spec fn is_digit(c: char) -> bool {
    '0' <= c && c <= '9'
}

/// The ASCII letters.
pub open spec fn is_alpha(c: char) -> bool {
    ('a' <= c && c <= 'z') || ('A' <= c && c <= 'Z')
}

/// The characters that end the scan of a string literal: the closing quote
/// and the five characters a literal may not hold.
pub open spec fn ends_text(c: char) -> bool {
    c == '"' || c == '%' || c == '\r' || c == '\n' || c == '\\' || c == '\t'
}

/// Whether `c` belongs to `class`.
pub open spec fn in_class(c: char, class: CharClass) -> bool {
    match class {
        CharClass::Blank => c == ' ' || c == '\t' || c == '\r',
        CharClass::Comment => c != '\n',
        CharClass::Digit => is_digit(c),
        CharClass::Alnum => is_alpha(c) || is_digit(c),
        CharClass::Text => !ends_text(c),
    }
}

/// The character at `pos`, and NUL, the end-of-input sentinel, beyond the
/// text.
pub open spec fn char_at(src: Seq<char>, pos: int) -> char {
    if 0 <= pos < src.len() {
        src[pos]
    } else {
        '\0'
    }
}

/// The end of the longest run of characters of `class` that starts at `pos`.
pub open spec fn run_end(src: Seq<char>, pos: int, class: CharClass) -> int
    decreases src.len() - pos,
{
    if 0 <= pos < src.len() && in_class(src[pos], class) {
        run_end(src, pos + 1, class)
    } else {
        pos
    }
}

/// Where the next token starts: behind the blanks at `pos` and behind the
/// comment that may follow them.
pub open spec fn token_start(src: Seq<char>, pos: int) -> int {
    let p = run_end(src, pos, CharClass::Blank);
    if char_at(src, p) == '#' {
        run_end(src, p, CharClass::Comment)
    } else {
        p
    }
}

/// The kind of an identifier-shaped spelling: that of the keyword it spells
/// exactly, and `Ident` otherwise.
pub open spec fn keyword_kind(s: Seq<char>) -> TokenType {
    if s == "ENDIF"@ {
        TokenType::Endif
    } else if s == "ENDWHILE"@ {
        TokenType::Endwhile
    } else if s == "GOTO"@ {
        TokenType::Goto
    } else if s == "IF"@ {
        TokenType::If
    } else if s == "INPUT"@ {
        TokenType::Input
    } else if s == "LABEL"@ {
        TokenType::Label
    } else if s == "LET"@ {
        TokenType::Let
    } else if s == "REPEAT"@ {
        TokenType::Repeat
    } else if s == "THEN"@ {
        TokenType::Then
    } else if s == "WHILE"@ {
        TokenType::While
    } else if s == "PRINT"@ {
        TokenType::Print
    } else {
        TokenType::Ident
    }
}

/// A token as the model sees it: its kind, the range of the source that is
/// its spelling, and the position behind it.
pub struct Lexeme {
    pub kind: TokenType,
    pub start: int,
    pub end: int,
    pub next: int,
}

/// A lexeme that was scanned without a defect.
pub open spec fn lexeme(kind: TokenType, start: int, end: int, next: int) -> Result<
    Lexeme,
    Defect,
> {
    Ok(Lexeme { kind, start, end, next })
}

/// The token that starts at `p`, where no blank and no comment stands.
pub open spec fn scan_at(src: Seq<char>, p: int) -> Result<Lexeme, Defect> {
    let c = char_at(src, p);
    let d = char_at(src, p + 1);
    if c == '\n' {
        lexeme(TokenType::Newline, p, p + 1, p + 1)
    } else if c == '+' {
        lexeme(TokenType::Plus, p, p + 1, p + 1)
    } else if c == '-' {
        lexeme(TokenType::Minus, p, p + 1, p + 1)
    } else if c == '*' {
        lexeme(TokenType::Asterisk, p, p + 1, p + 1)
    } else if c == '/' {
        lexeme(TokenType::Slash, p, p + 1, p + 1)
    } else if c == '=' {
        if d == '=' {
            lexeme(TokenType::EqEq, p, p + 2, p + 2)
        } else {
            lexeme(TokenType::Eq, p, p + 1, p + 1)
        }
    } else if c == '<' {
        if d == '=' {
            lexeme(TokenType::Lte, p, p + 2, p + 2)
        } else {
            lexeme(TokenType::Lt, p, p + 1, p + 1)
        }
    } else if c == '>' {
        if d == '=' {
            lexeme(TokenType::Gte, p, p + 2, p + 2)
        } else {
            lexeme(TokenType::Gt, p, p + 1, p + 1)
        }
    } else if c == '!' {
        if d == '=' {
            lexeme(TokenType::NotEq, p, p + 2, p + 2)
        } else {
            Err(Defect::LoneBang)
        }
    } else if c == '"' {
        let q = run_end(src, p + 1, CharClass::Text);
        if char_at(src, q) == '"' {
            lexeme(TokenType::String, p + 1, q, q + 1)
        } else {
            Err(Defect::StringChar(char_at(src, q)))
        }
    } else if is_digit(c) {
        let q = run_end(src, p, CharClass::Digit);
        if char_at(src, q) == '.' {
            if is_digit(char_at(src, q + 1)) {
                let r = run_end(src, q + 1, CharClass::Digit);
                lexeme(TokenType::Number, p, r, r)
            } else {
                Err(Defect::MissingFraction)
            }
        } else {
            lexeme(TokenType::Number, p, q, q)
        }
    } else if is_alpha(c) {
        let q = run_end(src, p, CharClass::Alnum);
        lexeme(keyword_kind(src.subrange(p, q)), p, q, q)
    } else if c == '\0' {
        lexeme(TokenType::Eof, p, p, p)
    } else {
        Err(Defect::UnsupportedChar(c))
    }
}

/// The next token of `src` for a cursor at `pos`.
pub open spec fn scan(src: Seq<char>, pos: int) -> Result<Lexeme, Defect> {
    scan_at(src, token_start(src, pos))
}

/// A run ends inside the text, at or behind its start, and everything in it
/// is of the class while what follows it is not.
pub proof fn lemma_run_end(src: Seq<char>, pos: int, class: CharClass)
    requires
        0 <= pos <= src.len(),
    ensures
        pos <= run_end(src, pos, class) <= src.len(),
        forall|i: int| pos <= i < run_end(src, pos, class) ==> in_class(#[trigger] src[i], class),
        run_end(src, pos, class) < src.len() ==> !in_class(
            src[run_end(src, pos, class)],
            class,
        ),
    decreases src.len() - pos,
{
    if pos < src.len() && in_class(src[pos], class) {
        lemma_run_end(src, pos + 1, class);
    }
}

/// Where a scan from inside the text leads: the token starts at or behind
/// the cursor, its spelling lies in the text between its start and the
/// position behind it, every token but the end of input moves the cursor on,
/// and the end of input leaves it on a NUL or at the end of the text.
pub proof fn lemma_scan_bounds(src: Seq<char>, pos: int)
    requires
        0 <= pos <= src.len(),
    ensures
        pos <= token_start(src, pos) <= src.len(),
        scan(src, pos) matches Ok(lx) ==> {
            &&& token_start(src, pos) <= lx.start <= lx.end <= lx.next <= src.len()
            &&& lx.kind != TokenType::Eof ==> pos < lx.next
            &&& lx.kind == TokenType::Eof ==> lx.next == token_start(src, pos) && char_at(
                src,
                lx.next,
            ) == '\0'
        },
{
    lemma_run_end(src, pos, CharClass::Blank);
    let b = run_end(src, pos, CharClass::Blank);
    lemma_run_end(src, b, CharClass::Comment);
    let p = token_start(src, pos);
    lemma_run_end(src, p, CharClass::Digit);
    lemma_run_end(src, p, CharClass::Alnum);
    if p < src.len() {
        lemma_run_end(src, p + 1, CharClass::Text);
        let q = run_end(src, p, CharClass::Digit);
        if q + 1 < src.len() {
            lemma_run_end(src, q + 1, CharClass::Digit);
        }
    }
}

/// A classified lexical unit: its kind and its exact spelling.
#[derive(Debug, Clone)]
pub struct Token {
    pub kind: TokenType,
    pub spelling: String,
}

impl TokenType {
    /// The name of the kind, as a message shows it.
    pub open spec fn spec_name(self) -> Seq<char> {
        match self {
            TokenType::Asterisk => "Asterisk"@,
            TokenType::Endif => "Endif"@,
            TokenType::Endwhile => "Endwhile"@,
            TokenType::Eof => "Eof"@,
            TokenType::Eq => "Eq"@,
            TokenType::EqEq => "EqEq"@,
            TokenType::Goto => "Goto"@,
            TokenType::Gt => "Gt"@,
            TokenType::Gte => "Gte"@,
            TokenType::Ident => "Ident"@,
            TokenType::If => "If"@,
            TokenType::Input => "Input"@,
            TokenType::Label => "Label"@,
            TokenType::Let => "Let"@,
            TokenType::Lt => "Lt"@,
            TokenType::Lte => "Lte"@,
            TokenType::Minus => "Minus"@,
            TokenType::Newline => "Newline"@,
            TokenType::NotEq => "NotEq"@,
            TokenType::Number => "Number"@,
            TokenType::Plus => "Plus"@,
            TokenType::Print => "Print"@,
            TokenType::Repeat => "Repeat"@,
            TokenType::Slash => "Slash"@,
            TokenType::String => "String"@,
            TokenType::Then => "Then"@,
            TokenType::While => "While"@,
        }
    }

    /// The name of the kind.
    pub fn name(self) -> (name: &'static str)
        ensures
            name@ == self.spec_name(),
    {
        match self {
            TokenType::Asterisk => "Asterisk",
            TokenType::Endif => "Endif",
            TokenType::Endwhile => "Endwhile",
            TokenType::Eof => "Eof",
            TokenType::Eq => "Eq",
            TokenType::EqEq => "EqEq",
            TokenType::Goto => "Goto",
            TokenType::Gt => "Gt",
            TokenType::Gte => "Gte",
            TokenType::Ident => "Ident",
            TokenType::If => "If",
            TokenType::Input => "Input",
            TokenType::Label => "Label",
            TokenType::Let => "Let",
            TokenType::Lt => "Lt",
            TokenType::Lte => "Lte",
            TokenType::Minus => "Minus",
            TokenType::Newline => "Newline",
            TokenType::NotEq => "NotEq",
            TokenType::Number => "Number",
            TokenType::Plus => "Plus",
            TokenType::Print => "Print",
            TokenType::Repeat => "Repeat",
            TokenType::Slash => "Slash",
            TokenType::String => "String",
            TokenType::Then => "Then",
            TokenType::While => "While",
        }
    }

    /// Resolves an identifier-shaped spelling against the keyword table.
    pub fn get_token_type_for_ident(ident: &str) -> (kind: TokenType)
        ensures
            kind == keyword_kind(ident@),
    {
        if str_eq(ident, "ENDIF") {
            TokenType::Endif
        } else if str_eq(ident, "ENDWHILE") {
            TokenType::Endwhile
        } else if str_eq(ident, "GOTO") {
            TokenType::Goto
        } else if str_eq(ident, "IF") {
            TokenType::If
        } else if str_eq(ident, "INPUT") {
            TokenType::Input
        } else if str_eq(ident, "LABEL") {
            TokenType::Label
        } else if str_eq(ident, "LET") {
            TokenType::Let
        } else if str_eq(ident, "REPEAT") {
            TokenType::Repeat
        } else if str_eq(ident, "THEN") {
            TokenType::Then
        } else if str_eq(ident, "WHILE") {
            TokenType::While
        } else if str_eq(ident, "PRINT") {
            TokenType::Print
        } else {
            TokenType::Ident
        }
    }
}

impl Token {
    /// The kind a token gets from the kind it was classified as and its
    /// spelling: identifiers are resolved against the keyword table.
    pub open spec fn resolved_kind(kind: TokenType, spelling: Seq<char>) -> TokenType {
        if kind == TokenType::Ident {
            keyword_kind(spelling)
        } else {
            kind
        }
    }

    /// A token of the given spelling; an identifier that spells a keyword
    /// becomes that keyword.
    pub fn new(kind: TokenType, spelling: &str) -> (token: Token)
        ensures
            token.kind == Self::resolved_kind(kind, spelling@),
            token.spelling@ == spelling@,
    {
        let resolved = match kind {
            TokenType::Ident => TokenType::get_token_type_for_ident(spelling),
            _ => kind,
        };
        Token { kind: resolved, spelling: spelling.to_owned() }
    }
}

fn is_digit_char(c: char) -> (r: bool)
    ensures
        r == is_digit(c),
{
    '0' <= c && c <= '9'
}

fn is_alpha_char(c: char) -> (r: bool)
    ensures
        r == is_alpha(c),
{
    ('a' <= c && c <= 'z') || ('A' <= c && c <= 'Z')
}

fn class_holds(c: char, class: CharClass) -> (r: bool)
    ensures
        r == in_class(c, class),
{
    match class {
        CharClass::Blank => c == ' ' || c == '\t' || c == '\r',
        CharClass::Comment => c != '\n',
        CharClass::Digit => is_digit_char(c),
        CharClass::Alnum => is_alpha_char(c) || is_digit_char(c),
        CharClass::Text => !(c == '"' || c == '%' || c == '\r' || c == '\n' || c == '\\' || c
            == '\t'),
    }
}

/// The cursor over the source text.
pub struct Lexer {
    pub source: Vec<char>,
    pub curpos: usize,
    pub curchar: char,
}

impl Lexer {
    /// The cursor stands in the text or at its end, and `curchar` is the
    /// character there.
    pub open spec fn wf(&self) -> bool {
        &&& self.curpos <= self.source@.len()
        &&& self.curchar == char_at(self.source@, self.curpos as int)
    }

    /// A cursor at the start of `input`, to which one line feed is added.
    pub fn new(input: &str) -> (lexer: Lexer)
        ensures
            lexer.source@ == input@.push('\n'),
            lexer.curpos == 0,
            lexer.wf(),
    {
        let mut source: Vec<char> = Vec::new();
        for c in it: input.chars()
            invariant
                source@ == it.history(),
                it.seq() == input@,
        {
            source.push(c);
        }
        assert(source@ =~= input@);
        source.push('\n');
        let first = source[0];
        Lexer { source, curpos: 0, curchar: first }
    }

    fn at(&self, pos: usize) -> (c: char)
        ensures
            c == char_at(self.source@, pos as int),
    {
        if pos < self.source.len() {
            self.source[pos]
        } else {
            '\0'
        }
    }

    fn jump(&mut self, pos: usize)
        requires
            pos <= old(self).source@.len(),
        ensures
            final(self).source == old(self).source,
            final(self).curpos == pos,
            final(self).wf(),
    {
        self.curpos = pos;
        self.curchar = self.at(pos);
    }

    /// Moves the cursor one character on, unless it stands at the end.
    pub fn next_char(&mut self)
        ensures
            final(self).source == old(self).source,
            final(self).curpos == if old(self).curpos < old(self).source@.len() {
                old(self).curpos + 1
            } else {
                old(self).curpos as int
            },
            final(self).curchar == char_at(final(self).source@, final(self).curpos as int),
    {
        if self.curpos < self.source.len() {
            self.curpos = self.curpos + 1;
        }
        self.curchar = self.at(self.curpos);
    }

    /// The character behind the current one.
    pub fn peek(&self) -> (c: Option<char>)
        ensures
            c == Some(char_at(self.source@, self.curpos + 1)),
    {
        if self.curpos >= self.source.len() {
            Some('\0')
        } else {
            Some(self.at(self.curpos + 1))
        }
    }

    fn find_run_end(&self, start: usize, class: CharClass) -> (end: usize)
        requires
            start <= self.source@.len(),
        ensures
            end == run_end(self.source@, start as int, class),
            start <= end <= self.source@.len(),
    {
        let mut i: usize = start;
        while i < self.source.len() && class_holds(self.source[i], class)
            invariant
                start <= i <= self.source@.len(),
                run_end(self.source@, i as int, class) == run_end(
                    self.source@,
                    start as int,
                    class,
                ),
            decreases self.source@.len() - i,
        {
            i = i + 1;
        }
        i
    }

    /// Moves the cursor over spaces, tabs and carriage returns.
    pub fn skip_whitespace(&mut self)
        requires
            old(self).wf(),
        ensures
            final(self).source == old(self).source,
            final(self).curpos == run_end(
                old(self).source@,
                old(self).curpos as int,
                CharClass::Blank,
            ),
            final(self).wf(),
    {
        let end = self.find_run_end(self.curpos, CharClass::Blank);
        self.jump(end);
    }

    /// Moves the cursor over a comment, if one starts here, up to the line
    /// feed that ends it.
    pub fn skip_comment(&mut self)
        requires
            old(self).wf(),
        ensures
            final(self).source == old(self).source,
            final(self).curpos == if old(self).curchar == '#' {
                run_end(old(self).source@, old(self).curpos as int, CharClass::Comment)
            } else {
                old(self).curpos as int
            },
            final(self).wf(),
    {
        if self.curchar == '#' {
            let end = self.find_run_end(self.curpos, CharClass::Comment);
            self.jump(end);
        }
    }

    fn text(&self, start: usize, end: usize) -> (s: String)
        requires
            start <= end <= self.source@.len(),
        ensures
            s@ == self.source@.subrange(start as int, end as int),
    {
        let mut s = String::new();
        let mut i: usize = start;
        while i < end
            invariant
                start <= i <= end <= self.source@.len(),
                s@ == self.source@.subrange(start as int, i as int),
            decreases end - i,
        {
            push_char(&mut s, self.source[i]);
            i = i + 1;
            assert(s@ =~= self.source@.subrange(start as int, i as int));
        }
        s
    }

    fn token(&mut self, kind: TokenType, start: usize, end: usize, next: usize) -> (token: Token)
        requires
            start <= end <= next <= old(self).source@.len(),
        ensures
            final(self).source == old(self).source,
            final(self).curpos == next,
            final(self).wf(),
            token.kind == Token::resolved_kind(
                kind,
                old(self).source@.subrange(start as int, end as int),
            ),
            token.spelling@ == old(self).source@.subrange(start as int, end as int),
    {
        let spelling = self.text(start, end);
        self.jump(next);
        Token::new(kind, spelling.as_str())
    }

    /// The next token. The cursor moves behind it; at the end of the input
    /// it stays. On a malformed lexeme the cursor rests where that lexeme
    /// starts.
    pub fn get_token(&mut self) -> (res: Result<Token, CompileError>)
        requires
            old(self).wf(),
        ensures
            final(self).source == old(self).source,
            final(self).wf(),
            match scan(old(self).source@, old(self).curpos as int) {
                Ok(lx) => {
                    &&& res is Ok
                    &&& res->Ok_0.kind == lx.kind
                    &&& res->Ok_0.spelling@ == old(self).source@.subrange(lx.start, lx.end)
                    &&& final(self).curpos == lx.next
                },
                Err(d) => {
                    &&& res matches Err(e)
                    &&& e@ == d
                    &&& final(self).curpos == token_start(
                        old(self).source@,
                        old(self).curpos as int,
                    )
                },
            },
    {
        self.skip_whitespace();
        self.skip_comment();
        let p = self.curpos;
        let c = self.curchar;
        let followed_by_eq = match self.peek() {
            Some(d) => d == '=',
            None => false,
        };
        let len = self.source.len();
        if c == '\n' {
            Ok(self.token(TokenType::Newline, p, p + 1, p + 1))
        } else if c == '+' {
            Ok(self.token(TokenType::Plus, p, p + 1, p + 1))
        } else if c == '-' {
            Ok(self.token(TokenType::Minus, p, p + 1, p + 1))
        } else if c == '*' {
            Ok(self.token(TokenType::Asterisk, p, p + 1, p + 1))
        } else if c == '/' {
            Ok(self.token(TokenType::Slash, p, p + 1, p + 1))
        } else if c == '=' {
            if followed_by_eq {
                Ok(self.token(TokenType::EqEq, p, p + 2, p + 2))
            } else {
                Ok(self.token(TokenType::Eq, p, p + 1, p + 1))
            }
        } else if c == '<' {
            if followed_by_eq {
                Ok(self.token(TokenType::Lte, p, p + 2, p + 2))
            } else {
                Ok(self.token(TokenType::Lt, p, p + 1, p + 1))
            }
        } else if c == '>' {
            if followed_by_eq {
                Ok(self.token(TokenType::Gte, p, p + 2, p + 2))
            } else {
                Ok(self.token(TokenType::Gt, p, p + 1, p + 1))
            }
        } else if c == '!' {
            if followed_by_eq {
                Ok(self.token(TokenType::NotEq, p, p + 2, p + 2))
            } else {
                Err(CompileError::LoneBang)
            }
        } else if c == '"' {
            let q = self.find_run_end(p + 1, CharClass::Text);
            let stop = self.at(q);
            if stop == '"' {
                Ok(self.token(TokenType::String, p + 1, q, q + 1))
            } else {
                Err(CompileError::StringChar(stop))
            }
        } else if is_digit_char(c) {
            let q = self.find_run_end(p, CharClass::Digit);
            if self.at(q) == '.' {
                if q + 1 < len && is_digit_char(self.source[q + 1]) {
                    let r = self.find_run_end(q + 1, CharClass::Digit);
                    Ok(self.token(TokenType::Number, p, r, r))
                } else {
                    Err(CompileError::MissingFraction)
                }
            } else {
                Ok(self.token(TokenType::Number, p, q, q))
            }
        } else if is_alpha_char(c) {
            let q = self.find_run_end(p, CharClass::Alnum);
            Ok(self.token(TokenType::Ident, p, q, q))
        } else if c == '\0' {
            Ok(self.token(TokenType::Eof, p, p, p))
        } else {
            Err(CompileError::UnsupportedChar(c))
        }
    }
}

/// The spelling of a keyword, and `None` for the other kinds.
pub open spec fn keyword_spelling(kind: TokenType) -> Option<Seq<char>> {
    match kind {
        TokenType::Endif => Some("ENDIF"@),
        TokenType::Endwhile => Some("ENDWHILE"@),
        TokenType::Goto => Some("GOTO"@),
        TokenType::If => Some("IF"@),
        TokenType::Input => Some("INPUT"@),
        TokenType::Label => Some("LABEL"@),
        TokenType::Let => Some("LET"@),
        TokenType::Repeat => Some("REPEAT"@),
        TokenType::Then => Some("THEN"@),
        TokenType::While => Some("WHILE"@),
        TokenType::Print => Some("PRINT"@),
        _ => None,
    }
}

/// Keywords are resolved by exact match: a spelling is given a keyword's
/// kind exactly when it is that keyword, character for character, and every
/// other spelling is an identifier.
pub proof fn lemma_keyword_exact(s: Seq<char>, kind: TokenType)
    ensures
        keyword_spelling(kind) matches Some(word) ==> (keyword_kind(s) == kind <==> s == word),
        keyword_spelling(kind) is None ==> (keyword_kind(s) == kind <==> kind == TokenType::Ident
            && forall|k: TokenType| keyword_spelling(k) != Some(s)),
{
    reveal_strlit("ENDIF");
    reveal_strlit("ENDWHILE");
    reveal_strlit("GOTO");
    reveal_strlit("IF");
    reveal_strlit("INPUT");
    reveal_strlit("LABEL");
    reveal_strlit("LET");
    reveal_strlit("REPEAT");
    reveal_strlit("THEN");
    reveal_strlit("WHILE");
    reveal_strlit("PRINT");
    assert("IF"@.len() == 2 && "LET"@.len() == 3 && "REPEAT"@.len() == 6 && "ENDWHILE"@.len() == 8);
    assert("GOTO"@.len() == 4 && "THEN"@.len() == 4);
    assert("GOTO"@[0] == 'G' && "THEN"@[0] == 'T');
    assert("ENDIF"@.len() == 5 && "INPUT"@.len() == 5 && "LABEL"@.len() == 5 && "WHILE"@.len() == 5
        && "PRINT"@.len() == 5);
    assert("ENDIF"@[0] == 'E' && "INPUT"@[0] == 'I' && "LABEL"@[0] == 'L' && "WHILE"@[0] == 'W'
        && "PRINT"@[0] == 'P');
    if keyword_kind(s) != TokenType::Ident {
        assert(keyword_spelling(keyword_kind(s)) == Some(s));
    }
}

/// Whether a cursor at `pos` comes to the end of the input, or to a
/// malformed lexeme, after at most `tokens` tokens.
pub open spec fn ends_within(src: Seq<char>, pos: int, tokens: nat) -> bool
    decreases tokens,
{
    match scan(src, pos) {
        Ok(lx) => lx.kind == TokenType::Eof || (tokens > 0 && ends_within(
            src,
            lx.next,
            (tokens - 1) as nat,
        )),
        Err(_) => true,
    }
}

/// Scanning ends: from a cursor in the text, the end of the input or a
/// malformed lexeme is reached after no more tokens than characters are
/// left.
pub proof fn lemma_scanning_ends(src: Seq<char>, pos: int)
    requires
        0 <= pos <= src.len(),
    ensures
        ends_within(src, pos, (src.len() - pos) as nat),
    decreases src.len() - pos,
{
    lemma_scan_bounds(src, pos);
    match scan(src, pos) {
        Ok(lx) => {
            if lx.kind != TokenType::Eof {
                lemma_scanning_ends(src, lx.next);
                lemma_ends_within_more(
                    src,
                    lx.next,
                    (src.len() - lx.next) as nat,
                    (src.len() - pos - 1) as nat,
                );
            }
        },
        Err(_) => {},
    }
}

/// What ends within `few` tokens ends within more.
pub proof fn lemma_ends_within_more(src: Seq<char>, pos: int, few: nat, many: nat)
    requires
        ends_within(src, pos, few),
        few <= many,
    ensures
        ends_within(src, pos, many),
    decreases few,
{
    match scan(src, pos) {
        Ok(lx) => {
            if lx.kind != TokenType::Eof {
                lemma_ends_within_more(src, lx.next, (few - 1) as nat, (many - 1) as nat);
            }
        },
        Err(_) => {},
    }
}

/// The source is made of what the tokens spell and of what lies between
/// them. From the cursor to the start of the next token stand blanks, then
/// at most one comment: a `#` and no line feed. The token takes the text
/// from there to the position behind it: that text is its spelling, or, for
/// a string literal, its spelling between two quotes.
pub proof fn lemma_scan_covers(src: Seq<char>, pos: int)
    requires
        0 <= pos <= src.len(),
    ensures
        ({
            let blanks_end = run_end(src, pos, CharClass::Blank);
            let start = token_start(src, pos);
            &&& pos <= blanks_end <= start <= src.len()
            &&& forall|i: int| pos <= i < blanks_end ==> in_class(#[trigger] src[i], CharClass::Blank)
            &&& blanks_end < start ==> src[blanks_end] == '#'
            &&& forall|i: int| blanks_end <= i < start ==> #[trigger] src[i] != '\n'
            &&& scan(src, pos) matches Ok(lx) ==> if lx.kind == TokenType::String {
                &&& lx.start == start + 1
                &&& lx.next == lx.end + 1
                &&& src[start] == '"'
                &&& src[lx.end] == '"'
            } else {
                lx.start == start && lx.next == lx.end
            }
        }),
{
    lemma_scan_bounds(src, pos);
    lemma_run_end(src, pos, CharClass::Blank);
    let blanks_end = run_end(src, pos, CharClass::Blank);
    lemma_run_end(src, blanks_end, CharClass::Comment);
    let start = token_start(src, pos);
    if start < src.len() {
        lemma_run_end(src, start + 1, CharClass::Text);
    }
}

} // verus!
