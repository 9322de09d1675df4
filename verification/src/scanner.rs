//! The scanner: from characters to tokens.
//!
//! Blanks and comments are passed over, lines are counted, and every
//! other run of characters becomes a token or is reported. The payload of
//! a string token is the text between its quotes. A number token comes
//! without payload: which number a numeral stands for is not computed
//! here.

use vstd::prelude::*;
use vstd::string::StringExecFns;
use crate::token::{
    lemma_tokens_view_push, tokens_view, LiteralModel, LiteralValue, Token, TokenModel, TokenType,
};

verus! {

/// What was wrong with the source, and on which line.
#[derive(Debug)]
pub struct ScanError {
    pub line: usize,
    pub message: String,
}

/// The mathematical value of a [`ScanError`].
pub struct ScanErrorModel {
    pub line: nat,
    pub message: Seq<char>,
}

impl View for ScanError {
    type V = ScanErrorModel;

    open spec fn view(&self) -> ScanErrorModel {
        ScanErrorModel { line: self.line as nat, message: self.message@ }
    }
}

/// The views of a sequence of errors, in order.
pub open spec fn scan_errors_view(errors: Seq<ScanError>) -> Seq<ScanErrorModel> {
    errors.map_values(|e: ScanError| e@)
}

/// Whether the character is a decimal digit.
pub open spec fn is_digit(c: char) -> bool {
    '0' <= c && c <= '9'
}

/// Whether a name may begin with the character.
pub open spec fn is_alpha(c: char) -> bool {
    ('a' <= c && c <= 'z') || ('A' <= c && c <= 'Z') || c == '_'
}

/// Whether a name may go on with the character.
pub open spec fn is_alphanumeric(c: char) -> bool {
    is_alpha(c) || is_digit(c)
}

/// The number of characters from `pos` on.
pub open spec fn left(cs: Seq<char>, pos: nat) -> nat {
    if pos < cs.len() {
        (cs.len() - pos) as nat
    } else {
        0
    }
}

/// The number of digits that stand at `pos`.
pub open spec fn digits(cs: Seq<char>, pos: nat) -> nat
    decreases left(cs, pos),
{
    if pos < cs.len() && is_digit(cs[pos as int]) {
        1 + digits(cs, pos + 1)
    } else {
        0
    }
}

/// The number of letters, digits and underscores that stand at `pos`.
pub open spec fn letters(cs: Seq<char>, pos: nat) -> nat
    decreases left(cs, pos),
{
    if pos < cs.len() && is_alphanumeric(cs[pos as int]) {
        1 + letters(cs, pos + 1)
    } else {
        0
    }
}

/// The number of characters from `pos` to the end of the line.
pub open spec fn to_line_end(cs: Seq<char>, pos: nat) -> nat
    decreases left(cs, pos),
{
    if pos < cs.len() && cs[pos as int] != '\n' {
        1 + to_line_end(cs, pos + 1)
    } else {
        0
    }
}

/// The number of characters from `pos` to the next quote, or to the end
/// of the source where there is none.
pub open spec fn to_quote(cs: Seq<char>, pos: nat) -> nat
    decreases left(cs, pos),
{
    if pos < cs.len() && cs[pos as int] != '"' {
        1 + to_quote(cs, pos + 1)
    } else {
        0
    }
}

/// The number of line ends among the `count` characters from `pos`.
pub open spec fn newlines(cs: Seq<char>, pos: nat, count: nat) -> nat
    decreases count,
{
    if count == 0 || pos >= cs.len() {
        0
    } else {
        newlines(cs, pos + 1, (count - 1) as nat) + if cs[pos as int] == '\n' {
            1nat
        } else {
            0nat
        }
    }
}

/// The length of the numeral that begins at `pos`: digits, and a point
/// with more digits if digits follow the point.
pub open spec fn numeral_length(cs: Seq<char>, pos: nat) -> nat {
    let whole = digits(cs, pos);
    if pos + whole + 1 < cs.len() && cs[(pos + whole) as int] == '.' && is_digit(cs[(pos + whole + 1) as int]) {
        whole + 1 + digits(cs, pos + whole + 1)
    } else {
        whole
    }
}

/// The kind of the keyword that `word` is, if it is one.
pub open spec fn keyword(word: Seq<char>) -> Option<TokenType> {
    if word == "and"@ {
        Some(TokenType::And)
    } else if word == "class"@ {
        Some(TokenType::Class)
    } else if word == "else"@ {
        Some(TokenType::Else)
    } else if word == "false"@ {
        Some(TokenType::False)
    } else if word == "for"@ {
        Some(TokenType::For)
    } else if word == "fun"@ {
        Some(TokenType::Fun)
    } else if word == "if"@ {
        Some(TokenType::If)
    } else if word == "nil"@ {
        Some(TokenType::Nil)
    } else if word == "or"@ {
        Some(TokenType::Or)
    } else if word == "print"@ {
        Some(TokenType::Print)
    } else if word == "return"@ {
        Some(TokenType::Return)
    } else if word == "super"@ {
        Some(TokenType::Super)
    } else if word == "this"@ {
        Some(TokenType::This)
    } else if word == "true"@ {
        Some(TokenType::True)
    } else if word == "var"@ {
        Some(TokenType::Var)
    } else if word == "while"@ {
        Some(TokenType::While)
    } else {
        None
    }
}

/// What stands at one place of the source.
pub enum Found {
    /// Nothing that counts: a blank, a line end or a comment.
    Nothing,
    /// A token of this kind; for a string, with its text.
    Token(TokenType, Option<LiteralModel>),
    /// Something wrong.
    Error(Seq<char>),
}

/// One piece of the source: how many characters it takes, how many line
/// ends are among them, and what it is.
pub struct Piece {
    pub length: nat,
    pub lines: nat,
    pub found: Found,
}

/// A token of one character, or of two where `=` follows.
pub open spec fn operator(cs: Seq<char>, pos: nat, alone: TokenType, with_equal: TokenType) -> Piece {
    if pos + 1 < cs.len() && cs[(pos + 1) as int] == '=' {
        Piece { length: 2, lines: 0, found: Found::Token(with_equal, None) }
    } else {
        Piece { length: 1, lines: 0, found: Found::Token(alone, None) }
    }
}

/// A token of one character.
pub open spec fn single(kind: TokenType) -> Piece {
    Piece { length: 1, lines: 0, found: Found::Token(kind, None) }
}

/// The piece of the source that begins at `pos`.
pub open spec fn piece(cs: Seq<char>, pos: nat) -> Piece {
    let c = cs[pos as int];
    if c == '(' {
        single(TokenType::LeftParen)
    } else if c == ')' {
        single(TokenType::RightParen)
    } else if c == '{' {
        single(TokenType::LeftBrace)
    } else if c == '}' {
        single(TokenType::RightBrace)
    } else if c == ',' {
        single(TokenType::Comma)
    } else if c == '.' {
        single(TokenType::Dot)
    } else if c == '-' {
        single(TokenType::Minus)
    } else if c == '+' {
        single(TokenType::Plus)
    } else if c == ';' {
        single(TokenType::Semicolon)
    } else if c == '*' {
        single(TokenType::Star)
    } else if c == '!' {
        operator(cs, pos, TokenType::Bang, TokenType::BangEqual)
    } else if c == '=' {
        operator(cs, pos, TokenType::Equal, TokenType::EqualEqual)
    } else if c == '<' {
        operator(cs, pos, TokenType::Less, TokenType::LessEqual)
    } else if c == '>' {
        operator(cs, pos, TokenType::Greater, TokenType::GreaterEqual)
    } else if c == '/' {
        if pos + 1 < cs.len() && cs[(pos + 1) as int] == '/' {
            Piece { length: 2 + to_line_end(cs, pos + 2), lines: 0, found: Found::Nothing }
        } else {
            single(TokenType::Slash)
        }
    } else if c == ' ' || c == '\r' || c == '\t' {
        Piece { length: 1, lines: 0, found: Found::Nothing }
    } else if c == '\n' {
        Piece { length: 1, lines: 1, found: Found::Nothing }
    } else if c == '"' {
        let inside = to_quote(cs, pos + 1);
        if pos + 1 + inside < cs.len() {
            Piece {
                length: inside + 2,
                lines: newlines(cs, pos + 1, inside),
                found: Found::Token(
                    TokenType::String,
                    Some(LiteralModel::String(cs.subrange((pos + 1) as int, (pos + 1 + inside) as int))),
                ),
            }
        } else {
            Piece {
                length: inside + 1,
                lines: newlines(cs, pos + 1, inside),
                found: Found::Error("Unterminated string."@),
            }
        }
    } else if is_digit(c) {
        Piece { length: numeral_length(cs, pos), lines: 0, found: Found::Token(TokenType::Number, None) }
    } else if is_alpha(c) {
        let length = letters(cs, pos);
        Piece {
            length,
            lines: 0,
            found: Found::Token(
                match keyword(cs.subrange(pos as int, (pos + length) as int)) {
                    Some(kind) => kind,
                    None => TokenType::Identifier,
                },
                None,
            ),
        }
    } else {
        Piece { length: 1, lines: 0, found: Found::Error("Unexpected character."@) }
    }
}

/// What scanning yields: the tokens and what was wrong with the source.
pub struct Scanned {
    pub tokens: Seq<TokenModel>,
    pub errors: Seq<ScanErrorModel>,
}

impl Scanned {
    /// With one more piece, which began at `pos` on the line `line`. A
    /// token and an error carry the line on which the piece ends.
    pub open spec fn with(self, cs: Seq<char>, pos: nat, line: nat, piece: Piece) -> Scanned {
        match piece.found {
            Found::Nothing => self,
            Found::Token(token_type, literal) => Scanned {
                tokens: self.tokens.push(
                    TokenModel {
                        token_type,
                        lexeme: cs.subrange(pos as int, (pos + piece.length) as int),
                        literal,
                        line: line + piece.lines,
                    },
                ),
                errors: self.errors,
            },
            Found::Error(message) => Scanned {
                tokens: self.tokens,
                errors: self.errors.push(ScanErrorModel { line: line + piece.lines, message }),
            },
        }
    }
}

/// The token that ends the input.
pub open spec fn end_of_input(line: nat) -> TokenModel {
    TokenModel { token_type: TokenType::Eof, lexeme: Seq::empty(), literal: None, line }
}

/// The source from `pos` on, which is on the line `line`, scanned after
/// what was `seen` before. An end-of-input token comes last.
pub open spec fn scan_from(cs: Seq<char>, pos: nat, line: nat, seen: Scanned) -> Scanned
    decreases left(cs, pos),
{
    if pos >= cs.len() {
        Scanned { tokens: seen.tokens.push(end_of_input(line)), errors: seen.errors }
    } else {
        let next = piece(cs, pos);
        if next.length == 0 {
            seen
        } else {
            scan_from(cs, pos + next.length, line + next.lines, seen.with(cs, pos, line, next))
        }
    }
}

/// The source scanned from its first character, which is on line 1.
pub open spec fn scan(cs: Seq<char>) -> Scanned {
    scan_from(cs, 0, 1, Scanned { tokens: Seq::empty(), errors: Seq::empty() })
}

/// Whether no token but the last ends the input.
pub open spec fn ends_once(tokens: Seq<TokenModel>) -> bool {
    &&& tokens.len() > 0
    &&& tokens.last().token_type == TokenType::Eof
    &&& forall|i: int| 0 <= i < tokens.len() - 1 ==> (#[trigger] tokens[i]).token_type != TokenType::Eof
}

/// Scanning puts one end-of-input token behind the tokens of the source
/// and none among them.
pub proof fn lemma_scan_ends_once(cs: Seq<char>)
    ensures
        ends_once(scan(cs).tokens),
{
    lemma_scan_from_ends_once(cs, 0, 1, Scanned { tokens: Seq::empty(), errors: Seq::empty() });
}

/// Scanning on from tokens without an end-of-input token puts one such
/// token behind all tokens and none among them.
pub proof fn lemma_scan_from_ends_once(cs: Seq<char>, pos: nat, line: nat, seen: Scanned)
    requires
        forall|i: int| 0 <= i < seen.tokens.len() ==> (#[trigger] seen.tokens[i]).token_type != TokenType::Eof,
    ensures
        ends_once(scan_from(cs, pos, line, seen).tokens),
    decreases left(cs, pos),
{
    if pos < cs.len() {
        let next = piece(cs, pos);
        lemma_piece_is_inside(cs, pos);
        lemma_scan_from_ends_once(cs, pos + next.length, line + next.lines, seen.with(cs, pos, line, next));
    }
}

/// A piece takes at least one character and does not pass the end of the
/// source, and has no more line ends than characters.
pub proof fn lemma_piece_is_inside(cs: Seq<char>, pos: nat)
    requires
        pos < cs.len(),
    ensures
        1 <= piece(cs, pos).length,
        pos + piece(cs, pos).length <= cs.len(),
        piece(cs, pos).lines <= piece(cs, pos).length,
{
    lemma_runs_are_inside(cs, pos);
    lemma_runs_are_inside(cs, pos + 1);
    lemma_runs_are_inside(cs, pos + 2);
    let whole = digits(cs, pos);
    lemma_runs_are_inside(cs, pos + whole + 1);
    lemma_newlines_are_few(cs, pos + 1, to_quote(cs, pos + 1));
}

/// A run of characters ends inside the source.
pub proof fn lemma_runs_are_inside(cs: Seq<char>, pos: nat)
    ensures
        pos + digits(cs, pos) <= cs.len() || digits(cs, pos) == 0,
        pos + letters(cs, pos) <= cs.len() || letters(cs, pos) == 0,
        pos + to_line_end(cs, pos) <= cs.len() || to_line_end(cs, pos) == 0,
        pos + to_quote(cs, pos) <= cs.len() || to_quote(cs, pos) == 0,
        pos < cs.len() && is_digit(cs[pos as int]) ==> digits(cs, pos) >= 1,
        pos < cs.len() && is_alpha(cs[pos as int]) ==> letters(cs, pos) >= 1,
    decreases left(cs, pos),
{
    if pos < cs.len() {
        lemma_runs_are_inside(cs, pos + 1);
    }
}

/// Among some characters there are no more line ends than characters.
pub proof fn lemma_newlines_are_few(cs: Seq<char>, pos: nat, count: nat)
    ensures
        newlines(cs, pos, count) <= count,
    decreases count,
{
    if count > 0 && pos < cs.len() {
        lemma_newlines_are_few(cs, pos + 1, (count - 1) as nat);
    }
}

/// Line ends add up over adjoining stretches of the source.
pub proof fn lemma_newlines_add(cs: Seq<char>, pos: nat, first: nat, second: nat)
    requires
        pos + first + second <= cs.len(),
    ensures
        newlines(cs, pos, first + second) == newlines(cs, pos, first) + newlines(cs, pos + first, second),
    decreases first,
{
    if first > 0 {
        lemma_newlines_add(cs, pos + 1, (first - 1) as nat, second);
    }
}

/// std's `String::push`: it appends the character to the end of the
/// text and changes nothing else of it.
#[verifier::external_body]
fn push_char(text: &mut String, c: char)
    ensures
        final(text)@ == old(text)@.push(c),
{
    text.push(c);
}

/// The characters from `from` up to `to` as a text.
fn text(source: &Vec<char>, from: usize, to: usize) -> (r: String)
    requires
        from <= to <= source@.len(),
    ensures
        r@ == source@.subrange(from as int, to as int),
{
    let mut r = String::new();
    let mut i = from;
    while i < to
        invariant
            from <= i <= to <= source@.len(),
            r@ == source@.subrange(from as int, i as int),
        decreases to - i,
    {
        push_char(&mut r, source[i]);
        assert(source@.subrange(from as int, i + 1) =~= source@.subrange(from as int, i as int).push(
            source@[i as int],
        ));
        i += 1;
    }
    r
}

/// Whether the character is a decimal digit.
fn digit(c: char) -> (r: bool)
    ensures
        r == is_digit(c),
{
    '0' <= c && c <= '9'
}

/// Whether a name may go on with the character.
fn alphanumeric(c: char) -> (r: bool)
    ensures
        r == is_alphanumeric(c),
        r == (is_alpha(c) || is_digit(c)),
{
    ('a' <= c && c <= 'z') || ('A' <= c && c <= 'Z') || c == '_' || ('0' <= c && c <= '9')
}

/// Whether a name may begin with the character.
fn alpha(c: char) -> (r: bool)
    ensures
        r == is_alpha(c),
{
    ('a' <= c && c <= 'z') || ('A' <= c && c <= 'Z') || c == '_'
}

/// Counts the digits that stand at `pos`.
fn count_digits(source: &Vec<char>, pos: usize) -> (r: usize)
    requires
        pos <= source@.len(),
    ensures
        r == digits(source@, pos as nat),
        pos + r <= source@.len(),
{
    let mut i = pos;
    while i < source.len() && digit(source[i])
        invariant
            pos <= i <= source@.len(),
            digits(source@, pos as nat) == (i - pos) + digits(source@, i as nat),
        decreases source@.len() - i,
    {
        i += 1;
    }
    i - pos
}

/// Counts the letters, digits and underscores that stand at `pos`.
fn count_letters(source: &Vec<char>, pos: usize) -> (r: usize)
    requires
        pos <= source@.len(),
    ensures
        r == letters(source@, pos as nat),
        pos + r <= source@.len(),
{
    let mut i = pos;
    while i < source.len() && alphanumeric(source[i])
        invariant
            pos <= i <= source@.len(),
            letters(source@, pos as nat) == (i - pos) + letters(source@, i as nat),
        decreases source@.len() - i,
    {
        i += 1;
    }
    i - pos
}

/// Counts the characters from `pos` to the end of the line.
fn count_to_line_end(source: &Vec<char>, pos: usize) -> (r: usize)
    requires
        pos <= source@.len(),
    ensures
        r == to_line_end(source@, pos as nat),
        pos + r <= source@.len(),
{
    let mut i = pos;
    while i < source.len() && source[i] != '\n'
        invariant
            pos <= i <= source@.len(),
            to_line_end(source@, pos as nat) == (i - pos) + to_line_end(source@, i as nat),
        decreases source@.len() - i,
    {
        i += 1;
    }
    i - pos
}

/// Counts the characters from `pos` to the next quote, and the line ends
/// among them.
fn count_to_quote(source: &Vec<char>, pos: usize) -> (r: (usize, usize))
    requires
        pos <= source@.len(),
    ensures
        r.0 == to_quote(source@, pos as nat),
        r.1 == newlines(source@, pos as nat, r.0 as nat),
        pos + r.0 <= source@.len(),
        r.1 <= r.0,
{
    let mut i = pos;
    let mut lines: usize = 0;
    proof {
        lemma_newlines_are_few(source@, pos as nat, 0);
    }
    while i < source.len() && source[i] != '"'
        invariant
            pos <= i <= source@.len(),
            to_quote(source@, pos as nat) == (i - pos) + to_quote(source@, i as nat),
            lines == newlines(source@, pos as nat, (i - pos) as nat),
            lines <= i - pos,
        decreases source@.len() - i,
    {
        proof {
            lemma_newlines_add(source@, pos as nat, (i - pos) as nat, 1);
            assert(newlines(source@, i as nat, 1) == if source@[i as int] == '\n' {
                1nat
            } else {
                0nat
            }) by {
                reveal_with_fuel(newlines, 2);
            }
        }
        if source[i] == '\n' {
            lines += 1;
        }
        i += 1;
    }
    (i - pos, lines)
}

/// Measures the numeral that begins at `pos`.
fn measure_numeral(source: &Vec<char>, pos: usize) -> (r: usize)
    requires
        pos <= source@.len(),
    ensures
        r == numeral_length(source@, pos as nat),
        pos + r <= source@.len(),
{
    let end = source.len();
    let whole = count_digits(source, pos);
    let point = pos + whole;
    if point < end && end - point > 1 && source[point] == '.' && digit(source[point + 1]) {
        whole + 1 + count_digits(source, point + 1)
    } else {
        whole
    }
}

/// The kind of the keyword that `word` is, if it is one.
fn keyword_kind(word: &String) -> (r: Option<TokenType>)
    ensures
        r == keyword(word@),
{
    if *word == String::from_str("and") {
        Some(TokenType::And)
    } else if *word == String::from_str("class") {
        Some(TokenType::Class)
    } else if *word == String::from_str("else") {
        Some(TokenType::Else)
    } else if *word == String::from_str("false") {
        Some(TokenType::False)
    } else if *word == String::from_str("for") {
        Some(TokenType::For)
    } else if *word == String::from_str("fun") {
        Some(TokenType::Fun)
    } else if *word == String::from_str("if") {
        Some(TokenType::If)
    } else if *word == String::from_str("nil") {
        Some(TokenType::Nil)
    } else if *word == String::from_str("or") {
        Some(TokenType::Or)
    } else if *word == String::from_str("print") {
        Some(TokenType::Print)
    } else if *word == String::from_str("return") {
        Some(TokenType::Return)
    } else if *word == String::from_str("super") {
        Some(TokenType::Super)
    } else if *word == String::from_str("this") {
        Some(TokenType::This)
    } else if *word == String::from_str("true") {
        Some(TokenType::True)
    } else if *word == String::from_str("var") {
        Some(TokenType::Var)
    } else if *word == String::from_str("while") {
        Some(TokenType::While)
    } else {
        None
    }
}

/// What stands at one place of the source, as the scanner finds it.
pub enum Finding {
    Nothing,
    Token(TokenType, Option<LiteralValue>),
    Error(String),
}

impl View for Finding {
    type V = Found;

    open spec fn view(&self) -> Found {
        match self {
            Finding::Nothing => Found::Nothing,
            Finding::Token(token_type, literal) => Found::Token(*token_type, crate::token::literal_view(*literal)),
            Finding::Error(message) => Found::Error(message@),
        }
    }
}

/// Reads a token of one character, or of two where `=` follows.
fn read_operator(source: &Vec<char>, pos: usize, alone: TokenType, with_equal: TokenType) -> (r: (
    usize,
    usize,
    Finding,
))
    requires
        pos < source@.len(),
    ensures
        (Piece { length: r.0 as nat, lines: r.1 as nat, found: r.2@ }) == operator(
            source@,
            pos as nat,
            alone,
            with_equal,
        ),
{
    if source.len() - pos > 1 && source[pos + 1] == '=' {
        (2, 0, Finding::Token(with_equal, None))
    } else {
        (1, 0, Finding::Token(alone, None))
    }
}

/// Reads the piece of the source that begins at `pos`: its length, the
/// line ends in it, and what it is.
fn read_piece(source: &Vec<char>, pos: usize) -> (r: (usize, usize, Finding))
    requires
        pos < source@.len(),
    ensures
        (Piece { length: r.0 as nat, lines: r.1 as nat, found: r.2@ }) == piece(source@, pos as nat),
        1 <= r.0,
        pos + r.0 <= source@.len(),
        r.1 <= r.0,
{
    proof {
        lemma_piece_is_inside(source@, pos as nat);
    }
    let end = source.len();
    let c = source[pos];
    if c == '(' {
        (1, 0, Finding::Token(TokenType::LeftParen, None))
    } else if c == ')' {
        (1, 0, Finding::Token(TokenType::RightParen, None))
    } else if c == '{' {
        (1, 0, Finding::Token(TokenType::LeftBrace, None))
    } else if c == '}' {
        (1, 0, Finding::Token(TokenType::RightBrace, None))
    } else if c == ',' {
        (1, 0, Finding::Token(TokenType::Comma, None))
    } else if c == '.' {
        (1, 0, Finding::Token(TokenType::Dot, None))
    } else if c == '-' {
        (1, 0, Finding::Token(TokenType::Minus, None))
    } else if c == '+' {
        (1, 0, Finding::Token(TokenType::Plus, None))
    } else if c == ';' {
        (1, 0, Finding::Token(TokenType::Semicolon, None))
    } else if c == '*' {
        (1, 0, Finding::Token(TokenType::Star, None))
    } else if c == '!' {
        read_operator(source, pos, TokenType::Bang, TokenType::BangEqual)
    } else if c == '=' {
        read_operator(source, pos, TokenType::Equal, TokenType::EqualEqual)
    } else if c == '<' {
        read_operator(source, pos, TokenType::Less, TokenType::LessEqual)
    } else if c == '>' {
        read_operator(source, pos, TokenType::Greater, TokenType::GreaterEqual)
    } else if c == '/' {
        if end - pos > 1 && source[pos + 1] == '/' {
            (2 + count_to_line_end(source, pos + 2), 0, Finding::Nothing)
        } else {
            (1, 0, Finding::Token(TokenType::Slash, None))
        }
    } else if c == ' ' || c == '\r' || c == '\t' {
        (1, 0, Finding::Nothing)
    } else if c == '\n' {
        (1, 1, Finding::Nothing)
    } else if c == '"' {
        let (inside, lines) = count_to_quote(source, pos + 1);
        if pos + 1 + inside < end {
            let content = text(source, pos + 1, pos + 1 + inside);
            (inside + 2, lines, Finding::Token(TokenType::String, Some(LiteralValue::String(content))))
        } else {
            (inside + 1, lines, Finding::Error(String::from_str("Unterminated string.")))
        }
    } else if digit(c) {
        (measure_numeral(source, pos), 0, Finding::Token(TokenType::Number, None))
    } else if alpha(c) {
        let length = count_letters(source, pos);
        let word = text(source, pos, pos + length);
        let token_type = match keyword_kind(&word) {
            Some(kind) => kind,
            None => TokenType::Identifier,
        };
        (length, 0, Finding::Token(token_type, None))
    } else {
        (1, 0, Finding::Error(String::from_str("Unexpected character.")))
    }
}

/// A scanner over the characters of a source.
pub struct Scanner {
    source: Vec<char>,
}

impl View for Scanner {
    type V = Seq<char>;

    closed spec fn view(&self) -> Seq<char> {
        self.source@
    }
}

impl Scanner {
    /// A scanner over `source`.
    pub fn new(source: Vec<char>) -> (r: Self)
        ensures
            r@ == source@,
    {
        Self { source }
    }

    /// Scans the whole source.
    ///
    /// Hands back the tokens, with an end-of-input token behind them, or,
    /// where something was wrong with the source, every error in the
    /// order in which it was found.
    pub fn scan_tokens(&self) -> (r: Result<Vec<Token>, Vec<ScanError>>)
        requires
            self@.len() < usize::MAX,
        ensures
            match r {
                Ok(tokens) => {
                    &&& scan(self@).errors.len() == 0
                    &&& tokens_view(tokens@) == scan(self@).tokens
                    &&& tokens@.len() > 0
                    &&& tokens@.last().token_type == TokenType::Eof
                },
                Err(errors) => {
                    &&& errors@.len() > 0
                    &&& scan_errors_view(errors@) == scan(self@).errors
                },
            },
    {
        let mut tokens: Vec<Token> = Vec::new();
        let mut errors: Vec<ScanError> = Vec::new();
        let mut pos: usize = 0;
        let mut line: usize = 1;
        assert(tokens_view(tokens@) =~= Seq::<TokenModel>::empty());
        assert(scan_errors_view(errors@) =~= Seq::<ScanErrorModel>::empty());
        while pos < self.source.len()
            invariant
                pos <= self.source@.len() < usize::MAX,
                1 <= line <= pos + 1,
                scan(self@) == scan_from(
                    self@,
                    pos as nat,
                    line as nat,
                    Scanned { tokens: tokens_view(tokens@), errors: scan_errors_view(errors@) },
                ),
            decreases self.source@.len() - pos,
        {
            let (length, lines, kind) = read_piece(&self.source, pos);
            match kind {
                Finding::Nothing => {},
                Finding::Token(token_type, literal) => {
                    let token = Token::new(
                        token_type,
                        text(&self.source, pos, pos + length),
                        literal,
                        line + lines,
                    );
                    proof {
                        lemma_tokens_view_push(tokens@, token);
                    }
                    tokens.push(token);
                },
                Finding::Error(message) => {
                    let error = ScanError { line: line + lines, message };
                    assert(scan_errors_view(errors@.push(error)) =~= scan_errors_view(errors@).push(error@));
                    errors.push(error);
                },
            }
            pos += length;
            line += lines;
        }
        let end = Token::new(TokenType::Eof, String::new(), None, line);
        proof {
            lemma_tokens_view_push(tokens@, end);
        }
        tokens.push(end);
        if errors.len() == 0 {
            Ok(tokens)
        } else {
            Err(errors)
        }
    }
}

} // verus!
