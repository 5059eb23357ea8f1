//! The lexer: source text to tokens.

use crate::token::{Object, Token};
use crate::token_type::TokenType;
use vstd::prelude::*;
use vstd::string::{StrSliceExecFns, StringExecFns};

verus! {

/// What the lexer can object to.
#[derive(Clone, Copy, Debug, PartialEq, Eq, Structural)]
pub enum ScanErrorKind {
    /// A character with which no token begins.
    UnexpectedCharacter,
    /// A string literal without its closing quote.
    UnterminatedString,
}

/// A lexical error, at the position where the offending text begins.
#[derive(Clone, Copy, Debug, PartialEq, Eq, Structural)]
pub struct ScanError {
    pub kind: ScanErrorKind,
    pub line: usize,
    pub column: usize,
}

/// The one-based line that position `pos` of `src` lies on: one more than
/// the number of line feeds before it.
pub open spec fn line_at(src: Seq<char>, pos: int) -> nat
    decreases pos,
{
    if pos <= 0 {
        1
    } else if src[pos - 1] == '\n' {
        line_at(src, pos - 1) + 1
    } else {
        line_at(src, pos - 1)
    }
}

/// The one-based column of position `pos` of `src`: one more than the number
/// of characters between it and the nearest line feed before it.
pub open spec fn column_at(src: Seq<char>, pos: int) -> nat
    decreases pos,
{
    if pos <= 0 {
        1
    } else if src[pos - 1] == '\n' {
        1
    } else {
        column_at(src, pos - 1) + 1
    }
}

pub open spec fn is_digit(c: char) -> bool {
    '0' <= c <= '9'
}

pub open spec fn is_alpha_char(c: char) -> bool {
    ('a' <= c <= 'z') || ('A' <= c <= 'Z') || c == '_'
}

/// The classes of character that a lexeme can run over.
#[derive(Clone, Copy, Debug, PartialEq, Eq, Structural)]
pub enum CharClass {
    Digit,
    AlphaNumeric,
    /// Anything but a double quote: the inside of a string literal.
    StringBody,
    /// Anything but a line feed: the inside of a comment.
    CommentBody,
}

impl CharClass {
    pub open spec fn holds(self, c: char) -> bool {
        match self {
            CharClass::Digit => is_digit(c),
            CharClass::AlphaNumeric => is_alpha_char(c) || is_digit(c),
            CharClass::StringBody => c != '"',
            CharClass::CommentBody => c != '\n',
        }
    }

    pub fn admits(self, c: char) -> (r: bool)
        ensures
            r == self.holds(c),
    {
        match self {
            CharClass::Digit => '0' <= c && c <= '9',
            CharClass::AlphaNumeric => Scanner::is_alpha_numeric(c),
            CharClass::StringBody => c != '"',
            CharClass::CommentBody => c != '\n',
        }
    }
}

/// The number of characters from `pos` on that belong to `class`, up to the
/// first that does not or to the end of the text.
pub open spec fn run_len(src: Seq<char>, pos: int, class: CharClass) -> nat
    decreases src.len() - pos,
{
    if 0 <= pos < src.len() && class.holds(src[pos]) {
        1 + run_len(src, pos + 1, class)
    } else {
        0
    }
}

/// The kind of an identifier-shaped lexeme: a keyword's own kind, or
/// `Identifier`.
pub open spec fn word_kind(text: Seq<char>) -> TokenType {
    if text == "and"@ {
        TokenType::And
    } else if text == "class"@ {
        TokenType::Class
    } else if text == "else"@ {
        TokenType::Else
    } else if text == "false"@ {
        TokenType::False
    } else if text == "fun"@ {
        TokenType::Fun
    } else if text == "for"@ {
        TokenType::For
    } else if text == "if"@ {
        TokenType::If
    } else if text == "nil"@ {
        TokenType::Nil
    } else if text == "or"@ {
        TokenType::Or
    } else if text == "print"@ {
        TokenType::Print
    } else if text == "return"@ {
        TokenType::Return
    } else if text == "super"@ {
        TokenType::Super
    } else if text == "this"@ {
        TokenType::This
    } else if text == "true"@ {
        TokenType::True
    } else if text == "var"@ {
        TokenType::Var
    } else if text == "while"@ {
        TokenType::While
    } else {
        TokenType::Identifier
    }
}

/// What the text holds at one position.
#[derive(Clone, Copy, Debug, PartialEq, Eq, Structural)]
pub enum Piece {
    /// A token of this kind.
    Lexeme(TokenType),
    /// White space or a comment.
    Blank,
    /// An error of this kind.
    Fault(ScanErrorKind),
}

/// The kind of a token that consists of the one character `c`, for the
/// characters that are a token by themselves wherever they stand.
pub open spec fn punctuation(c: char) -> Option<TokenType> {
    if c == '(' {
        Some(TokenType::LeftParen)
    } else if c == ')' {
        Some(TokenType::RightParen)
    } else if c == '{' {
        Some(TokenType::LeftBrace)
    } else if c == '}' {
        Some(TokenType::RightBrace)
    } else if c == ',' {
        Some(TokenType::Comma)
    } else if c == '.' {
        Some(TokenType::Dot)
    } else if c == '-' {
        Some(TokenType::Minus)
    } else if c == '+' {
        Some(TokenType::Plus)
    } else if c == ';' {
        Some(TokenType::Semicolon)
    } else if c == '*' {
        Some(TokenType::Star)
    } else {
        None
    }
}

/// For the characters that begin an operator of one or two characters: the
/// kind of the operator alone, and its kind when `=` follows.
pub open spec fn comparison_operator(c: char) -> Option<(TokenType, TokenType)> {
    if c == '!' {
        Some((TokenType::Bang, TokenType::BangEqual))
    } else if c == '=' {
        Some((TokenType::Equal, TokenType::EqualEqual))
    } else if c == '>' {
        Some((TokenType::Greater, TokenType::GreaterEqual))
    } else if c == '<' {
        Some((TokenType::Less, TokenType::LessEqual))
    } else {
        None
    }
}

/// The piece that begins at `pos`, and the position just behind it.
pub open spec fn piece_at(src: Seq<char>, pos: int) -> (Piece, int)
    recommends
        0 <= pos < src.len(),
{
    let c = src[pos];
    if punctuation(c) is Some {
        (Piece::Lexeme(punctuation(c).unwrap()), pos + 1)
    } else if comparison_operator(c) is Some {
        if pos + 1 < src.len() && src[pos + 1] == '=' {
            (Piece::Lexeme(comparison_operator(c).unwrap().1), pos + 2)
        } else {
            (Piece::Lexeme(comparison_operator(c).unwrap().0), pos + 1)
        }
    } else if c == '/' {
        if pos + 1 < src.len() && src[pos + 1] == '/' {
            (Piece::Blank, pos + 2 + run_len(src, pos + 2, CharClass::CommentBody))
        } else {
            (Piece::Lexeme(TokenType::Slash), pos + 1)
        }
    } else if c == ' ' || c == '\r' || c == '\t' || c == '\n' {
        (Piece::Blank, pos + 1)
    } else if c == '"' {
        let quote = pos + 1 + run_len(src, pos + 1, CharClass::StringBody);
        if quote < src.len() {
            (Piece::Lexeme(TokenType::String), quote + 1)
        } else {
            (Piece::Fault(ScanErrorKind::UnterminatedString), quote)
        }
    } else if is_digit(c) {
        let whole = pos + 1 + run_len(src, pos + 1, CharClass::Digit);
        if whole + 1 < src.len() && src[whole] == '.' && is_digit(src[whole + 1]) {
            (
                Piece::Lexeme(TokenType::Number),
                whole + 2 + run_len(src, whole + 2, CharClass::Digit),
            )
        } else {
            (Piece::Lexeme(TokenType::Number), whole)
        }
    } else if is_alpha_char(c) {
        let end = pos + 1 + run_len(src, pos + 1, CharClass::AlphaNumeric);
        (Piece::Lexeme(word_kind(src.subrange(pos, end))), end)
    } else {
        (Piece::Fault(ScanErrorKind::UnexpectedCharacter), pos + 1)
    }
}

/// A token as the lexer finds it: its kind and the part of the text it
/// covers.
pub struct Lexeme {
    pub token_type: TokenType,
    pub start: int,
    pub end: int,
}

/// The tokens and the errors of a text, each in the order of the text.
pub struct Scan {
    pub lexemes: Seq<Lexeme>,
    pub errors: Seq<ScanError>,
}

/// The error of kind `kind` for text that begins at `pos`.
pub open spec fn fault_at(src: Seq<char>, kind: ScanErrorKind, pos: int) -> ScanError {
    ScanError { kind, line: line_at(src, pos) as usize, column: column_at(src, pos) as usize }
}

/// What the text holds from `pos` on. The tokens end with the end-of-input
/// sentinel. (The recursion stops at a piece that does not end behind its
/// beginning and within the text; by `lemma_piece_advances` there is none.)
pub open spec fn scan_from(src: Seq<char>, pos: int) -> Scan
    decreases src.len() - pos,
{
    if pos < 0 || pos >= src.len() {
        Scan {
            lexemes: seq![Lexeme { token_type: TokenType::Eof, start: src.len() as int, end: src.len() as int }],
            errors: Seq::empty(),
        }
    } else {
        let (piece, end) = piece_at(src, pos);
        if end <= pos || end > src.len() {
            Scan { lexemes: Seq::empty(), errors: Seq::empty() }
        } else {
            let rest = scan_from(src, end);
            match piece {
                Piece::Lexeme(token_type) => Scan {
                    lexemes: seq![Lexeme { token_type, start: pos, end }] + rest.lexemes,
                    errors: rest.errors,
                },
                Piece::Blank => rest,
                Piece::Fault(kind) => Scan {
                    lexemes: rest.lexemes,
                    errors: seq![fault_at(src, kind, pos)] + rest.errors,
                },
            }
        }
    }
}

/// The literal that a token of the kind `token_type` carries when its
/// lexeme is `text`: the text between the quotes for a string, nothing for
/// every other kind.
pub open spec fn carries(literal: Object, token_type: TokenType, text: Seq<char>) -> bool {
    if token_type == TokenType::String {
        literal matches Object::String(s) && s@ == text.subrange(1, text.len() - 1)
    } else {
        literal == Object::NULL
    }
}

/// `token` is the token for `lexeme` of the text `src`: it has the kind, the
/// covered text as its lexeme, the line on which it ends and the column at
/// which it begins.
pub open spec fn scanned_as(token: Token, lexeme: Lexeme, src: Seq<char>) -> bool {
    &&& token.token_type == lexeme.token_type
    &&& token.lexeme@ == src.subrange(lexeme.start, lexeme.end)
    &&& carries(token.literal, lexeme.token_type, token.lexeme@)
    &&& token.line == line_at(src, lexeme.end)
    &&& token.column == column_at(src, lexeme.start)
}

/// `tokens` are the tokens for `lexemes`, one for one.
pub open spec fn all_scanned_as(tokens: Seq<Token>, lexemes: Seq<Lexeme>, src: Seq<char>) -> bool {
    &&& tokens.len() == lexemes.len()
    &&& forall|i: int| 0 <= i < tokens.len() ==> scanned_as(#[trigger] tokens[i], lexemes[i], src)
}

/// The lexer. It remembers the line on which the last text it read ended.
#[derive(Debug)]
pub struct Scanner {
    line: usize,
}

impl Scanner {
    /// The line on which the text read last ended; 1 before any was read.
    pub closed spec fn line(&self) -> nat {
        self.line as nat
    }

    pub fn new() -> (r: Self)
        ensures
            r.line() == 1,
    {
        Scanner { line: 1 }
    }

    pub fn is_alpha(c: char) -> (r: bool)
        ensures
            r == is_alpha_char(c),
    {
        return (c >= 'a' && c <= 'z') || (c >= 'A' && c <= 'Z') || c == '_';
    }

    pub fn is_alpha_numeric(c: char) -> (r: bool)
        ensures
            r == (is_alpha_char(c) || is_digit(c)),
    {
        return Self::is_alpha(c) || ('0' <= c && c <= '9');
    }

    /// Reads `source` from its beginning to its end. Without an error the
    /// tokens come back, the end-of-input sentinel last; otherwise all the
    /// errors do, in the order of the text.
    ///
    /// A number token comes back without a literal: to turn its lexeme into
    /// a floating-point value is left to the caller.
    pub fn scan_tokens(&mut self, source: String) -> (r: Result<Vec<Token>, Vec<ScanError>>)
        requires
            source@.len() < usize::MAX,
        ensures
            final(self).line() == line_at(source@, source@.len() as int),
            match r {
                Ok(tokens) => tokens@.len() > 0 && tokens@.last().token_type == TokenType::Eof
                    && scan_from(source@, 0).errors.len() == 0 && all_scanned_as(
                    tokens@,
                    scan_from(source@, 0).lexemes,
                    source@,
                ),
                Err(errors) => errors@.len() > 0 && errors@ == scan_from(source@, 0).errors,
            },
    {
        let src = source.as_str();
        let n = src.unicode_len();
        let mut tokens: Vec<Token> = Vec::new();
        let mut errors: Vec<ScanError> = Vec::new();
        let ghost mut lexemes: Seq<Lexeme> = Seq::empty();
        let mut pos: usize = 0;
        let mut line: usize = 1;
        let mut column: usize = 1;
        proof {
            assert(scan_from(src@, 0).lexemes =~= lexemes + scan_from(src@, 0).lexemes);
            assert(scan_from(src@, 0).errors =~= errors@ + scan_from(src@, 0).errors);
        }
        while pos < n
            invariant
                src@ == source@,
                n == src@.len(),
                n < usize::MAX,
                pos <= n,
                line == line_at(src@, pos as int),
                column == column_at(src@, pos as int),
                line <= pos + 1,
                column <= pos + 1,
                all_scanned_as(tokens@, lexemes, src@),
                scan_from(src@, 0).lexemes == lexemes + scan_from(src@, pos as int).lexemes,
                scan_from(src@, 0).errors == errors@ + scan_from(src@, pos as int).errors,
            decreases n - pos,
        {
            let (piece, end) = next_piece(src, n, pos);
            let (end_line, end_column) = walk(src, pos, end, line, column);
            let ghost rest = scan_from(src@, end as int);
            match piece {
                Piece::Lexeme(token_type) => {
                    let lexeme = String::from_str(src.substring_char(pos, end));
                    let literal = match token_type {
                        TokenType::String => {
                            assert(src@.subrange(pos + 1, end - 1) == lexeme@.subrange(
                                1,
                                lexeme@.len() - 1,
                            ));
                            Object::String(String::from_str(src.substring_char(pos + 1, end - 1)))
                        },
                        _ => Object::NULL,
                    };
                    tokens.push(Token::new(token_type, lexeme, literal, end_line, column));
                    proof {
                        let found = Lexeme { token_type, start: pos as int, end: end as int };
                        assert(lexemes + (seq![found] + rest.lexemes) =~= lexemes.push(found)
                            + rest.lexemes);
                        lexemes = lexemes.push(found);
                    }
                },
                Piece::Blank => {},
                Piece::Fault(kind) => {
                    let ghost before = errors@;
                    errors.push(ScanError { kind, line, column });
                    proof {
                        let found = fault_at(src@, kind, pos as int);
                        assert(before + (seq![found] + rest.errors) =~= before.push(found)
                            + rest.errors);
                    }
                },
            }
            pos = end;
            line = end_line;
            column = end_column;
        }
        tokens.push(Token::new(TokenType::Eof, String::new(), Object::NULL, line, column));
        proof {
            let last = Lexeme { token_type: TokenType::Eof, start: n as int, end: n as int };
            assert(src@.subrange(n as int, n as int) =~= Seq::<char>::empty());
            lexemes = lexemes.push(last);
            assert(scan_from(src@, 0).lexemes =~= lexemes);
            assert(scan_from(src@, 0).errors =~= errors@);
        }
        self.line = line;
        if errors.len() > 0 {
            Err(errors)
        } else {
            Ok(tokens)
        }
    }
}

/// The position just behind the run of `class` that begins at `pos`.
fn run_stop(src: &str, n: usize, pos: usize, class: CharClass) -> (end: usize)
    requires
        n == src@.len(),
        pos <= n,
    ensures
        end == pos + run_len(src@, pos as int, class),
        end <= n,
{
    let mut i = pos;
    while i < n && class.admits(src.get_char(i))
        invariant
            n == src@.len(),
            pos <= i <= n,
            pos + run_len(src@, pos as int, class) == i + run_len(src@, i as int, class),
        decreases n - i,
    {
        i += 1;
    }
    i
}

/// The line and the column of `end`, from those of `pos`.
fn walk(src: &str, pos: usize, end: usize, line: usize, column: usize) -> (r: (usize, usize))
    requires
        pos <= end <= src@.len() < usize::MAX,
        line == line_at(src@, pos as int),
        column == column_at(src@, pos as int),
        line <= pos + 1,
        column <= pos + 1,
    ensures
        r.0 == line_at(src@, end as int),
        r.1 == column_at(src@, end as int),
        r.0 <= end + 1,
        r.1 <= end + 1,
{
    let mut i = pos;
    let mut line = line;
    let mut column = column;
    while i < end
        invariant
            pos <= i <= end <= src@.len() < usize::MAX,
            line == line_at(src@, i as int),
            column == column_at(src@, i as int),
            line <= i + 1,
            column <= i + 1,
        decreases end - i,
    {
        if src.get_char(i) == '\n' {
            line += 1;
            column = 1;
        } else {
            column += 1;
        }
        i += 1;
    }
    (line, column)
}

fn same_text(a: &str, b: &str) -> (r: bool)
    ensures
        r == (a@ == b@),
{
    String::from_str(a) == String::from_str(b)
}

/// The kind of an identifier-shaped lexeme.
fn keyword_or_identifier(text: &str) -> (r: TokenType)
    ensures
        r == word_kind(text@),
{
    if same_text(text, "and") {
        TokenType::And
    } else if same_text(text, "class") {
        TokenType::Class
    } else if same_text(text, "else") {
        TokenType::Else
    } else if same_text(text, "false") {
        TokenType::False
    } else if same_text(text, "fun") {
        TokenType::Fun
    } else if same_text(text, "for") {
        TokenType::For
    } else if same_text(text, "if") {
        TokenType::If
    } else if same_text(text, "nil") {
        TokenType::Nil
    } else if same_text(text, "or") {
        TokenType::Or
    } else if same_text(text, "print") {
        TokenType::Print
    } else if same_text(text, "return") {
        TokenType::Return
    } else if same_text(text, "super") {
        TokenType::Super
    } else if same_text(text, "this") {
        TokenType::This
    } else if same_text(text, "true") {
        TokenType::True
    } else if same_text(text, "var") {
        TokenType::Var
    } else if same_text(text, "while") {
        TokenType::While
    } else {
        TokenType::Identifier
    }
}

fn punctuation_kind(c: char) -> (r: Option<TokenType>)
    ensures
        r == punctuation(c),
{
    match c {
        '(' => Some(TokenType::LeftParen),
        ')' => Some(TokenType::RightParen),
        '{' => Some(TokenType::LeftBrace),
        '}' => Some(TokenType::RightBrace),
        ',' => Some(TokenType::Comma),
        '.' => Some(TokenType::Dot),
        '-' => Some(TokenType::Minus),
        '+' => Some(TokenType::Plus),
        ';' => Some(TokenType::Semicolon),
        '*' => Some(TokenType::Star),
        _ => None,
    }
}

fn comparison_kinds(c: char) -> (r: Option<(TokenType, TokenType)>)
    ensures
        r == comparison_operator(c),
{
    match c {
        '!' => Some((TokenType::Bang, TokenType::BangEqual)),
        '=' => Some((TokenType::Equal, TokenType::EqualEqual)),
        '>' => Some((TokenType::Greater, TokenType::GreaterEqual)),
        '<' => Some((TokenType::Less, TokenType::LessEqual)),
        _ => None,
    }
}

/// The piece that begins at `pos`, and the position just behind it.
fn next_piece(src: &str, n: usize, pos: usize) -> (r: (Piece, usize))
    requires
        n == src@.len(),
        pos < n < usize::MAX,
    ensures
        (r.0, r.1 as int) == piece_at(src@, pos as int),
        pos < r.1 <= n,
{
    let c = src.get_char(pos);
    if let Some(kind) = punctuation_kind(c) {
        return (Piece::Lexeme(kind), pos + 1);
    }
    if let Some((alone, with_equal)) = comparison_kinds(c) {
        if pos + 1 < n && src.get_char(pos + 1) == '=' {
            return (Piece::Lexeme(with_equal), pos + 2);
        }
        return (Piece::Lexeme(alone), pos + 1);
    }
    if c == '/' {
        if pos + 1 < n && src.get_char(pos + 1) == '/' {
            return (Piece::Blank, run_stop(src, n, pos + 2, CharClass::CommentBody));
        }
        return (Piece::Lexeme(TokenType::Slash), pos + 1);
    }
    if c == ' ' || c == '\r' || c == '\t' || c == '\n' {
        return (Piece::Blank, pos + 1);
    }
    if c == '"' {
        let quote = run_stop(src, n, pos + 1, CharClass::StringBody);
        if quote < n {
            return (Piece::Lexeme(TokenType::String), quote + 1);
        }
        return (Piece::Fault(ScanErrorKind::UnterminatedString), quote);
    }
    if CharClass::Digit.admits(c) {
        let whole = run_stop(src, n, pos + 1, CharClass::Digit);
        if whole + 1 < n && src.get_char(whole) == '.' && CharClass::Digit.admits(
            src.get_char(whole + 1),
        ) {
            return (Piece::Lexeme(TokenType::Number), run_stop(src, n, whole + 2, CharClass::Digit));
        }
        return (Piece::Lexeme(TokenType::Number), whole);
    }
    if Scanner::is_alpha(c) {
        let end = run_stop(src, n, pos + 1, CharClass::AlphaNumeric);
        return (Piece::Lexeme(keyword_or_identifier(src.substring_char(pos, end))), end);
    }
    (Piece::Fault(ScanErrorKind::UnexpectedCharacter), pos + 1)
}

/// Behind every position of the text begins a piece that ends behind it and
/// within the text.
pub proof fn lemma_piece_advances(src: Seq<char>, pos: int)
    requires
        0 <= pos < src.len(),
    ensures
        pos < piece_at(src, pos).1 <= src.len(),
{
    lemma_run_len_bound(src, pos + 1, CharClass::Digit);
    lemma_run_len_bound(src, pos + 1, CharClass::AlphaNumeric);
    lemma_run_len_bound(src, pos + 1, CharClass::StringBody);
    if pos + 1 < src.len() {
        lemma_run_len_bound(src, pos + 2, CharClass::CommentBody);
    }
    let whole = pos + 1 + run_len(src, pos + 1, CharClass::Digit);
    if whole + 1 < src.len() {
        lemma_run_len_bound(src, whole + 2, CharClass::Digit);
    }
}

/// A run that begins within the text ends within it.
pub proof fn lemma_run_len_bound(src: Seq<char>, pos: int, class: CharClass)
    requires
        0 <= pos <= src.len(),
    ensures
        pos + run_len(src, pos, class) <= src.len(),
    decreases src.len() - pos,
{
    if pos < src.len() && class.holds(src[pos]) {
        lemma_run_len_bound(src, pos + 1, class);
    }
}

} // verus!
