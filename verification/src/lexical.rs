use crate::scanner::ScannerError;
use crate::token::{SpecToken, SpecTokenType};
use vstd::prelude::*;

verus! {

/// A decimal digit.
pub open spec fn is_digit(c: char) -> bool {
    '0' <= c && c <= '9'
}

/// An ASCII letter or the underscore: what a word starts with.
pub open spec fn is_alpha(c: char) -> bool {
    ('a' <= c && c <= 'z') || ('A' <= c && c <= 'Z') || c == '_'
}

/// An ASCII letter, a digit or the underscore: what a word goes on with.
pub open spec fn is_alphanumeric(c: char) -> bool {
    is_alpha(c) || is_digit(c)
}

/// The classes of characters that the scanner reads in runs.
#[derive(Debug, Clone, Copy, PartialEq, Eq, Structural)]
pub enum CharClass {
    /// Decimal digits.
    Digit,
    /// Letters, digits and the underscore.
    Word,
    /// Everything but the double quote.
    StringBody,
    /// Everything but the line feed.
    CommentBody,
}

/// Whether `c` is of `class`.
pub open spec fn in_class(class: CharClass, c: char) -> bool {
    match class {
        CharClass::Digit => is_digit(c),
        CharClass::Word => is_alphanumeric(c),
        CharClass::StringBody => c != '"',
        CharClass::CommentBody => c != '\n',
    }
}

/// The end of the longest run of characters of `class` that starts at `pos`:
/// the first position from `pos` on that holds no such character.
pub open spec fn run_end(src: Seq<char>, pos: int, class: CharClass) -> int
    decreases src.len() - pos,
{
    if 0 <= pos < src.len() && in_class(class, src[pos]) {
        run_end(src, pos + 1, class)
    } else {
        pos
    }
}

/// The number of line feeds in `src[from..to]`.
pub open spec fn newlines(src: Seq<char>, from: int, to: int) -> nat
    decreases to - from,
{
    if from >= to {
        0
    } else {
        newlines(src, from, to - 1) + if src[to - 1] == '\n' {
            1nat
        } else {
            0nat
        }
    }
}

/// The line counter after `n` more line feeds. It stops at the largest line
/// number that the machine can hold.
pub open spec fn advance_line(line: usize, n: nat) -> usize {
    if line + n <= usize::MAX {
        (line + n) as usize
    } else {
        usize::MAX
    }
}

/// A decimal numeral: one or more digits, then optionally a dot and one or
/// more digits.
pub open spec fn is_numeral(text: Seq<char>) -> bool {
    let whole = run_end(text, 0, CharClass::Digit);
    &&& whole > 0
    &&& (whole == text.len() || (text[whole] == '.' && whole + 1 < text.len() && run_end(
        text,
        whole + 1,
        CharClass::Digit,
    ) == text.len()))
}

/// The keyword that `text` spells, or `Identifier`.
pub open spec fn word_kind(text: Seq<char>) -> SpecTokenType {
    if text == "and"@ {
        SpecTokenType::And
    } else if text == "class"@ {
        SpecTokenType::Class
    } else if text == "else"@ {
        SpecTokenType::Else
    } else if text == "false"@ {
        SpecTokenType::False
    } else if text == "fun"@ {
        SpecTokenType::Fun
    } else if text == "for"@ {
        SpecTokenType::For
    } else if text == "if"@ {
        SpecTokenType::If
    } else if text == "nil"@ {
        SpecTokenType::Nil
    } else if text == "or"@ {
        SpecTokenType::Or
    } else if text == "print"@ {
        SpecTokenType::Print
    } else if text == "return"@ {
        SpecTokenType::Return
    } else if text == "super"@ {
        SpecTokenType::Super
    } else if text == "this"@ {
        SpecTokenType::This
    } else if text == "true"@ {
        SpecTokenType::True
    } else if text == "var"@ {
        SpecTokenType::Var
    } else if text == "while"@ {
        SpecTokenType::While
    } else {
        SpecTokenType::Identifier
    }
}

/// What reading one lexeme does: where the next one starts, the line counter
/// there, and the token or the diagnostic that the lexeme gave, if any.
pub struct Step {
    pub next: int,
    pub line: usize,
    pub token: Option<SpecToken>,
    pub error: Option<ScannerError>,
}

/// A token of `width` characters at `pos`.
pub open spec fn symbol(src: Seq<char>, pos: int, line: usize, kind: SpecTokenType, width: int) -> Step {
    Step {
        next: pos + width,
        line,
        token: Some(SpecToken { kind, lexeme: src.subrange(pos, pos + width), line }),
        error: None,
    }
}

/// Whether the character after the one at `pos` is `c`.
pub open spec fn followed_by(src: Seq<char>, pos: int, c: char) -> bool {
    pos + 1 < src.len() && src[pos + 1] == c
}

/// An operator that is two characters long when `=` follows and one otherwise.
pub open spec fn operator(
    src: Seq<char>,
    pos: int,
    line: usize,
    long: SpecTokenType,
    short: SpecTokenType,
) -> Step {
    if followed_by(src, pos, '=') {
        symbol(src, pos, line, long, 2)
    } else {
        symbol(src, pos, line, short, 1)
    }
}

/// A string literal whose opening quote is at `pos`. The line feeds inside it
/// advance the line counter; a literal that the input ends in gives a
/// diagnostic on the line where it began, and reading goes on at the end.
pub open spec fn string_step(src: Seq<char>, pos: int, line: usize) -> Step {
    let close = run_end(src, pos + 1, CharClass::StringBody);
    let end_line = advance_line(line, newlines(src, pos + 1, close));
    if close >= src.len() {
        Step { next: close, line: end_line, token: None, error: Some(ScannerError::UnterminatedString(line)) }
    } else {
        Step {
            next: close + 1,
            line: end_line,
            token: Some(
                SpecToken {
                    kind: SpecTokenType::String(src.subrange(pos + 1, close)),
                    lexeme: src.subrange(pos, close + 1),
                    line: end_line,
                },
            ),
            error: None,
        }
    }
}

/// Where the number literal that starts at `pos` ends. A dot belongs to it
/// only if a digit follows the dot.
pub open spec fn number_end(src: Seq<char>, pos: int) -> int {
    let whole = run_end(src, pos, CharClass::Digit);
    if whole + 1 < src.len() && src[whole] == '.' && is_digit(src[whole + 1]) {
        run_end(src, whole + 1, CharClass::Digit)
    } else {
        whole
    }
}

/// A number literal that starts at `pos`.
pub open spec fn number_step(src: Seq<char>, pos: int, line: usize) -> Step {
    let end = number_end(src, pos);
    Step {
        next: end,
        line,
        token: Some(
            SpecToken {
                kind: SpecTokenType::Number(src.subrange(pos, end)),
                lexeme: src.subrange(pos, end),
                line,
            },
        ),
        error: None,
    }
}

/// A keyword or an identifier that starts at `pos`.
pub open spec fn word_step(src: Seq<char>, pos: int, line: usize) -> Step {
    let end = run_end(src, pos, CharClass::Word);
    Step {
        next: end,
        line,
        token: Some(
            SpecToken { kind: word_kind(src.subrange(pos, end)), lexeme: src.subrange(pos, end), line },
        ),
        error: None,
    }
}

/// Nothing is produced and `width` characters are passed over.
pub open spec fn skipped(pos: int, line: usize, width: int) -> Step {
    Step { next: pos + width, line, token: None, error: None }
}

/// Reads the lexeme that starts at `pos`, by the longest match.
pub open spec fn step(src: Seq<char>, pos: int, line: usize) -> Step
    recommends
        0 <= pos < src.len(),
{
    let c = src[pos];
    if c == '(' {
        symbol(src, pos, line, SpecTokenType::LeftParen, 1)
    } else if c == ')' {
        symbol(src, pos, line, SpecTokenType::RightParen, 1)
    } else if c == '{' {
        symbol(src, pos, line, SpecTokenType::LeftBrace, 1)
    } else if c == '}' {
        symbol(src, pos, line, SpecTokenType::RightBrace, 1)
    } else if c == ',' {
        symbol(src, pos, line, SpecTokenType::Comma, 1)
    } else if c == '.' {
        symbol(src, pos, line, SpecTokenType::Dot, 1)
    } else if c == '-' {
        symbol(src, pos, line, SpecTokenType::Minus, 1)
    } else if c == '+' {
        symbol(src, pos, line, SpecTokenType::Plus, 1)
    } else if c == ';' {
        symbol(src, pos, line, SpecTokenType::Semicolon, 1)
    } else if c == '*' {
        symbol(src, pos, line, SpecTokenType::Star, 1)
    } else if c == '!' {
        operator(src, pos, line, SpecTokenType::BangEqual, SpecTokenType::Bang)
    } else if c == '=' {
        operator(src, pos, line, SpecTokenType::EqualEqual, SpecTokenType::Equal)
    } else if c == '>' {
        operator(src, pos, line, SpecTokenType::GreaterEqual, SpecTokenType::Greater)
    } else if c == '<' {
        operator(src, pos, line, SpecTokenType::LessEqual, SpecTokenType::Less)
    } else if c == '/' {
        if followed_by(src, pos, '/') {
            Step { next: run_end(src, pos + 2, CharClass::CommentBody), line, token: None, error: None }
        } else {
            symbol(src, pos, line, SpecTokenType::Slash, 1)
        }
    } else if c == ' ' || c == '\r' || c == '\t' {
        skipped(pos, line, 1)
    } else if c == '\n' {
        Step { next: pos + 1, line: advance_line(line, 1), token: None, error: None }
    } else if c == '"' {
        string_step(src, pos, line)
    } else if is_digit(c) {
        number_step(src, pos, line)
    } else if is_alpha(c) {
        word_step(src, pos, line)
    } else {
        Step { next: pos + 1, line, token: None, error: Some(ScannerError::UnexpectedCharacter(line)) }
    }
}

/// The tokens and the diagnostics of a text, each in the order of the text.
pub struct Scan {
    pub tokens: Seq<SpecToken>,
    pub errors: Seq<ScannerError>,
}

/// The sentinel that closes a token stream on `line`.
pub open spec fn end_of_input(line: usize) -> SpecToken {
    SpecToken { kind: SpecTokenType::EndOfInput, lexeme: Seq::empty(), line }
}

/// The item, if there is one, as a sequence.
pub open spec fn optional<T>(item: Option<T>) -> Seq<T> {
    match item {
        Some(t) => seq![t],
        None => Seq::empty(),
    }
}

/// What the text from `pos` on gives, with the line counter at `line`: the
/// lexemes one after another, then the sentinel.
pub open spec fn scan_from(src: Seq<char>, pos: int, line: usize) -> Scan
    decreases src.len() - pos,
{
    if 0 <= pos < src.len() {
        let s = step(src, pos, line);
        proof {
            lemma_step_advances(src, pos, line);
        }
        let rest = scan_from(src, s.next, s.line);
        Scan { tokens: optional(s.token) + rest.tokens, errors: optional(s.error) + rest.errors }
    } else {
        Scan { tokens: seq![end_of_input(line)], errors: Seq::empty() }
    }
}

/// What a whole text gives. Lines are counted from 1.
pub open spec fn scan(src: Seq<char>) -> Scan {
    scan_from(src, 0, 1)
}

/// A run ends at or after its start and inside the text, on the first
/// character that is not of the class.
pub proof fn lemma_run_end(src: Seq<char>, pos: int, class: CharClass)
    requires
        0 <= pos <= src.len(),
    ensures
        pos <= run_end(src, pos, class) <= src.len(),
        run_end(src, pos, class) < src.len() ==> !in_class(class, src[run_end(src, pos, class)]),
        forall|i: int| pos <= i < run_end(src, pos, class) ==> in_class(class, #[trigger] src[i]),
    decreases src.len() - pos,
{
    if pos < src.len() && in_class(class, src[pos]) {
        lemma_run_end(src, pos + 1, class);
    }
}

/// Every lexeme is at least one character long and ends inside the text.
pub proof fn lemma_step_advances(src: Seq<char>, pos: int, line: usize)
    requires
        0 <= pos < src.len(),
    ensures
        pos < step(src, pos, line).next <= src.len(),
{
    lemma_run_end(src, pos + 1, CharClass::StringBody);
    lemma_run_end(src, pos, CharClass::Digit);
    lemma_run_end(src, pos, CharClass::Word);
    let whole = run_end(src, pos, CharClass::Digit);
    if whole + 1 < src.len() {
        lemma_run_end(src, whole + 1, CharClass::Digit);
    }
    if pos + 2 <= src.len() {
        lemma_run_end(src, pos + 2, CharClass::CommentBody);
    }
}

/// No lexeme gives the sentinel.
pub proof fn lemma_step_gives_no_sentinel(src: Seq<char>, pos: int, line: usize)
    requires
        0 <= pos < src.len(),
    ensures
        step(src, pos, line).token matches Some(t) ==> !(t.kind is EndOfInput),
{
}

/// A token stream ends with the sentinel, which occurs nowhere else in it.
pub proof fn lemma_scan_ends_with_sentinel(src: Seq<char>, pos: int, line: usize)
    ensures
        scan_from(src, pos, line).tokens.len() >= 1,
        scan_from(src, pos, line).tokens.last().kind is EndOfInput,
        scan_from(src, pos, line).tokens.last().lexeme.len() == 0,
        forall|i: int|
            0 <= i < scan_from(src, pos, line).tokens.len() - 1 ==> !(#[trigger] scan_from(
                src,
                pos,
                line,
            ).tokens[i].kind is EndOfInput),
    decreases src.len() - pos,
{
    if 0 <= pos < src.len() {
        let s = step(src, pos, line);
        lemma_step_advances(src, pos, line);
        lemma_step_gives_no_sentinel(src, pos, line);
        lemma_scan_ends_with_sentinel(src, s.next, s.line);
    }
}

/// The line feeds of two stretches of text that follow each other.
pub proof fn lemma_newlines_split(src: Seq<char>, a: int, b: int, c: int)
    requires
        a <= b <= c,
    ensures
        newlines(src, a, c) == newlines(src, a, b) + newlines(src, b, c),
    decreases c - b,
{
    if b < c {
        lemma_newlines_split(src, a, b, c - 1);
    }
}

/// A stretch of text without a line feed.
pub proof fn lemma_no_newlines(src: Seq<char>, a: int, b: int)
    requires
        forall|i: int| a <= i < b ==> src[i] != '\n',
    ensures
        newlines(src, a, b) == 0,
    decreases b - a,
{
    if a < b {
        lemma_no_newlines(src, a, b - 1);
    }
}

/// Reading a lexeme advances the line counter by the line feeds of the
/// lexeme, and a token is on the line of its last character.
pub proof fn lemma_step_counts_lines(src: Seq<char>, pos: int, line: usize)
    requires
        0 <= pos < src.len(),
    ensures
        step(src, pos, line).line == advance_line(line, newlines(src, pos, step(src, pos, line).next)),
        step(src, pos, line).token matches Some(t) ==> t.line == step(src, pos, line).line,
{
    let s = step(src, pos, line);
    let c = src[pos];
    lemma_step_advances(src, pos, line);
    if c == '"' {
        let close = run_end(src, pos + 1, CharClass::StringBody);
        lemma_run_end(src, pos + 1, CharClass::StringBody);
        lemma_no_newlines(src, pos, pos + 1);
        lemma_newlines_split(src, pos, pos + 1, close);
        if close < src.len() {
            lemma_no_newlines(src, close, close + 1);
            lemma_newlines_split(src, pos, close, close + 1);
        }
    } else if c == '\n' {
        lemma_no_newlines(src, pos, pos);
        assert(newlines(src, pos, pos + 1) == 1);
    } else if c == '/' && followed_by(src, pos, '/') {
        lemma_run_end(src, pos + 2, CharClass::CommentBody);
        lemma_no_newlines(src, pos, s.next);
    } else if is_digit(c) {
        let whole = run_end(src, pos, CharClass::Digit);
        lemma_run_end(src, pos, CharClass::Digit);
        if whole + 1 < src.len() {
            lemma_run_end(src, whole + 1, CharClass::Digit);
        }
        lemma_no_newlines(src, pos, s.next);
    } else if is_alpha(c) {
        lemma_run_end(src, pos, CharClass::Word);
        lemma_no_newlines(src, pos, s.next);
    } else {
        lemma_no_newlines(src, pos, s.next);
    }
}

/// The sentinel is on the last line of the text: the first line, advanced
/// by every line feed of the text.
pub proof fn lemma_scan_counts_lines(src: Seq<char>, pos: int, line: usize)
    requires
        0 <= pos <= src.len(),
    ensures
        scan_from(src, pos, line).tokens.last().line == advance_line(
            line,
            newlines(src, pos, src.len() as int),
        ),
    decreases src.len() - pos,
{
    if pos < src.len() {
        let s = step(src, pos, line);
        lemma_step_advances(src, pos, line);
        lemma_step_counts_lines(src, pos, line);
        lemma_scan_ends_with_sentinel(src, s.next, s.line);
        lemma_scan_counts_lines(src, s.next, s.line);
        lemma_newlines_split(src, pos, s.next, src.len() as int);
    }
}

/// A run inside `src[from..to]` ends where the run in `src` ends, or at
/// `to` if that comes first.
pub proof fn lemma_run_end_in_part(src: Seq<char>, from: int, to: int, pos: int, class: CharClass)
    requires
        0 <= from <= from + pos <= to <= src.len(),
    ensures
        run_end(src.subrange(from, to), pos, class) + from == if run_end(src, from + pos, class) < to {
            run_end(src, from + pos, class)
        } else {
            to
        },
    decreases to - from - pos,
{
    let part = src.subrange(from, to);
    if from + pos < to && in_class(class, src[from + pos]) {
        assert(part[pos] == src[from + pos]);
        lemma_run_end_in_part(src, from, to, pos + 1, class);
    } else if from + pos < to {
        assert(part[pos] == src[from + pos]);
    } else {
        lemma_run_end(src, from + pos, class);
    }
}

/// The text of a number literal is a numeral.
pub proof fn lemma_number_is_numeral(src: Seq<char>, pos: int)
    requires
        0 <= pos < src.len(),
        is_digit(src[pos]),
    ensures
        is_numeral(src.subrange(pos, number_end(src, pos))),
{
    let whole = run_end(src, pos, CharClass::Digit);
    let end = number_end(src, pos);
    let text = src.subrange(pos, end);
    lemma_run_end(src, pos, CharClass::Digit);
    assert(whole == run_end(src, pos + 1, CharClass::Digit));
    lemma_run_end(src, pos + 1, CharClass::Digit);
    if whole + 1 < src.len() && src[whole] == '.' && is_digit(src[whole + 1]) {
        lemma_run_end(src, whole + 1, CharClass::Digit);
        assert(end == run_end(src, whole + 2, CharClass::Digit));
        lemma_run_end(src, whole + 2, CharClass::Digit);
        lemma_run_end_in_part(src, pos, end, 0, CharClass::Digit);
        lemma_run_end_in_part(src, pos, end, whole + 1 - pos, CharClass::Digit);
        assert(text[whole - pos] == src[whole]);
    } else {
        lemma_run_end_in_part(src, pos, end, 0, CharClass::Digit);
    }
}

/// A token holds the text it was read from. A string literal carries that
/// text without its quotes, and a number literal carries all of it.
pub proof fn lemma_step_reads_its_lexeme(src: Seq<char>, pos: int, line: usize)
    requires
        0 <= pos < src.len(),
    ensures
        step(src, pos, line).token matches Some(t) ==> {
            &&& t.lexeme == src.subrange(pos, step(src, pos, line).next)
            &&& t.lexeme.len() > 0
            &&& t.line == step(src, pos, line).line
            &&& t.kind matches SpecTokenType::String(s) ==> t.lexeme == seq!['"'] + s + seq!['"']
            &&& t.kind matches SpecTokenType::Number(n) ==> t.lexeme == n
        },
{
    lemma_step_advances(src, pos, line);
    if src[pos] == '"' {
        let close = run_end(src, pos + 1, CharClass::StringBody);
        lemma_run_end(src, pos + 1, CharClass::StringBody);
        if close < src.len() {
            assert(src.subrange(pos, close + 1) =~= seq!['"'] + src.subrange(pos + 1, close) + seq!['"']);
        }
    }
}

/// In a token stream every token but the sentinel has a lexeme, a string
/// literal carries its lexeme without the quotes, and a number literal
/// carries its lexeme.
pub proof fn lemma_scan_lexemes(src: Seq<char>, pos: int, line: usize)
    ensures
        forall|i: int|
            0 <= i < scan_from(src, pos, line).tokens.len() ==> {
                let t = #[trigger] scan_from(src, pos, line).tokens[i];
                &&& t.lexeme.len() > 0 || t.kind is EndOfInput
                &&& t.kind matches SpecTokenType::String(s) ==> t.lexeme == seq!['"'] + s + seq!['"']
                &&& t.kind matches SpecTokenType::Number(n) ==> t.lexeme == n
            },
    decreases src.len() - pos,
{
    if 0 <= pos < src.len() {
        let s = step(src, pos, line);
        lemma_step_advances(src, pos, line);
        lemma_step_reads_its_lexeme(src, pos, line);
        lemma_scan_lexemes(src, s.next, s.line);
    }
}

/// Every number literal of a token stream carries a numeral.
pub proof fn lemma_scan_gives_numerals(src: Seq<char>, pos: int, line: usize)
    ensures
        forall|i: int|
            0 <= i < scan_from(src, pos, line).tokens.len() ==> (#[trigger] scan_from(
                src,
                pos,
                line,
            ).tokens[i].kind matches SpecTokenType::Number(n) ==> is_numeral(n)),
    decreases src.len() - pos,
{
    if 0 <= pos < src.len() {
        let s = step(src, pos, line);
        lemma_step_advances(src, pos, line);
        if is_digit(src[pos]) {
            lemma_number_is_numeral(src, pos);
        }
        lemma_scan_gives_numerals(src, s.next, s.line);
    }
}

} // verus!
