use crate::lexical::{
    advance_line, end_of_input, in_class, is_alpha, is_digit, is_numeral,
    lemma_scan_counts_lines, lemma_scan_ends_with_sentinel, lemma_scan_gives_numerals,
    lemma_step_advances, newlines, number_step, optional, run_end, scan, scan_from, step,
    string_step, word_kind, word_step, CharClass, Step,
};
use crate::token::{token_views, SpecToken, SpecTokenType, Token, TokenType};
use vstd::prelude::*;
use vstd::std_specs::iter::IteratorSpec;

verus! {

/// A lexical diagnostic, with the line it belongs to.
#[derive(Debug, Clone, Copy, PartialEq, Eq, Structural)]
pub enum ScannerError {
    /// The input ended inside a string literal that began on this line.
    UnterminatedString(usize),
    /// A character on this line starts no token.
    UnexpectedCharacter(usize),
}

impl ScannerError {
    /// The line the diagnostic is anchored to.
    pub open spec fn spec_line(self) -> usize {
        match self {
            ScannerError::UnterminatedString(line) => line,
            ScannerError::UnexpectedCharacter(line) => line,
        }
    }

    /// The line the diagnostic is anchored to.
    pub fn line(&self) -> (r: usize)
        ensures
            r == self.spec_line(),
    {
        match self {
            ScannerError::UnterminatedString(line) => *line,
            ScannerError::UnexpectedCharacter(line) => *line,
        }
    }

    /// What went wrong, in words.
    pub open spec fn spec_message(self) -> Seq<char> {
        match self {
            ScannerError::UnterminatedString(_) => "Unterminated string."@,
            ScannerError::UnexpectedCharacter(_) => "Unexpected character."@,
        }
    }

    /// What went wrong, in words.
    pub fn message(&self) -> (r: &'static str)
        ensures
            r@ == self.spec_message(),
    {
        match self {
            ScannerError::UnterminatedString(_) => "Unterminated string.",
            ScannerError::UnexpectedCharacter(_) => "Unexpected character.",
        }
    }
}

/// A scanner over one source text.
pub struct Scanner {
    source: String,
    /// Whether the source is all ASCII, in which a lexeme is cut out in one step.
    ascii: bool,
    chars: Vec<char>,
    tokens: Vec<Token>,
    errors: Vec<ScannerError>,
    start: usize,
    current: usize,
    line: usize,
}

/// The characters of `s`, in order.
fn characters(s: &str) -> (v: Vec<char>)
    ensures
        v@ == s@,
{
    let mut v: Vec<char> = Vec::new();
    let mut rest = s.chars();
    loop
        invariant
            rest.obeys_prophetic_iter_laws(),
            rest.decrease() is Some,
            v@ + rest.remaining() == s@,
        ensures
            v@ == s@,
        decreases rest.decrease()->0,
    {
        let ghost before = v@;
        let ghost left = rest.remaining();
        match rest.next() {
            Some(c) => {
                v.push(c);
                assert(v@ + rest.remaining() =~= before + left);
            },
            None => {
                assert(v@ + left =~= v@);
                break ;
            },
        }
    }
    v
}

/// The end of the longest run of characters of `class` that starts at `pos`.
fn run_end_of(chars: &Vec<char>, pos: usize, class: CharClass) -> (end: usize)
    requires
        pos <= chars.len(),
    ensures
        end == run_end(chars@, pos as int, class),
        pos <= end <= chars.len(),
{
    let mut end = pos;
    while end < chars.len() && class_holds(class, chars[end])
        invariant
            pos <= end <= chars.len(),
            run_end(chars@, end as int, class) == run_end(chars@, pos as int, class),
        decreases chars.len() - end,
    {
        end += 1;
    }
    end
}

/// Whether `text` is a decimal numeral: one or more digits, then optionally
/// a dot and one or more digits.
pub fn is_numeral_text(text: &str) -> (r: bool)
    ensures
        r == is_numeral(text@),
{
    let chars = characters(text);
    let whole = run_end_of(&chars, 0, CharClass::Digit);
    if whole == 0 {
        false
    } else if whole == chars.len() {
        true
    } else if chars[whole] == '.' && whole + 1 < chars.len() {
        run_end_of(&chars, whole + 1, CharClass::Digit) == chars.len()
    } else {
        false
    }
}

/// The line counter after one more line feed.
fn next_line(line: usize) -> (r: usize)
    ensures
        r == advance_line(line, 1),
{
    if line < usize::MAX {
        line + 1
    } else {
        line
    }
}

fn is_digit_char(c: char) -> (r: bool)
    ensures
        r == is_digit(c),
{
    c >= '0' && c <= '9'
}

fn is_alpha_char(c: char) -> (r: bool)
    ensures
        r == is_alpha(c),
{
    (c >= 'a' && c <= 'z') || (c >= 'A' && c <= 'Z') || c == '_'
}

fn class_holds(class: CharClass, c: char) -> (r: bool)
    ensures
        r == in_class(class, c),
{
    match class {
        CharClass::Digit => is_digit_char(c),
        CharClass::Word => is_alpha_char(c) || is_digit_char(c),
        CharClass::StringBody => c != '"',
        CharClass::CommentBody => c != '\n',
    }
}

/// Whether `chars[from..to]` spells `word`.
fn spells(chars: &Vec<char>, from: usize, to: usize, word: &str) -> (r: bool)
    requires
        from <= to <= chars.len(),
    ensures
        r == (chars@.subrange(from as int, to as int) == word@),
{
    let n = word.unicode_len();
    if to - from != n {
        return false;
    }
    let mut i: usize = 0;
    while i < n
        invariant
            n == word@.len(),
            from + n == to,
            to <= chars.len(),
            i <= n,
            forall|j: int| 0 <= j < i ==> chars@[from + j] == word@[j],
        decreases n - i,
    {
        if chars[from + i] != word.get_char(i) {
            assert(chars@.subrange(from as int, to as int)[i as int] != word@[i as int]);
            return false;
        }
        i += 1;
    }
    assert(chars@.subrange(from as int, to as int) =~= word@);
    true
}

/// The kind of the word `chars[from..to]`.
fn classify_word(chars: &Vec<char>, from: usize, to: usize) -> (r: TokenType)
    requires
        from <= to <= chars.len(),
    ensures
        r@ == word_kind(chars@.subrange(from as int, to as int)),
{
    if spells(chars, from, to, "and") {
        TokenType::And
    } else if spells(chars, from, to, "class") {
        TokenType::Class
    } else if spells(chars, from, to, "else") {
        TokenType::Else
    } else if spells(chars, from, to, "false") {
        TokenType::False
    } else if spells(chars, from, to, "fun") {
        TokenType::Fun
    } else if spells(chars, from, to, "for") {
        TokenType::For
    } else if spells(chars, from, to, "if") {
        TokenType::If
    } else if spells(chars, from, to, "nil") {
        TokenType::Nil
    } else if spells(chars, from, to, "or") {
        TokenType::Or
    } else if spells(chars, from, to, "print") {
        TokenType::Print
    } else if spells(chars, from, to, "return") {
        TokenType::Return
    } else if spells(chars, from, to, "super") {
        TokenType::Super
    } else if spells(chars, from, to, "this") {
        TokenType::This
    } else if spells(chars, from, to, "true") {
        TokenType::True
    } else if spells(chars, from, to, "var") {
        TokenType::Var
    } else if spells(chars, from, to, "while") {
        TokenType::While
    } else {
        TokenType::Identifier
    }
}

impl Scanner {
    /// The text that the scanner reads.
    pub closed spec fn text(&self) -> Seq<char> {
        self.source@
    }

    /// The scanner has read nothing yet.
    pub closed spec fn is_fresh(&self) -> bool {
        &&& self.wf()
        &&& self.start == 0
        &&& self.current == 0
        &&& self.line == 1
        &&& self.tokens@.len() == 0
        &&& self.errors@.len() == 0
    }

    spec fn wf(&self) -> bool {
        &&& self.chars@ == self.source@
        &&& self.ascii ==> vstd::string::string_is_ascii(&self.source)
        &&& self.start <= self.current <= self.chars@.len() <= usize::MAX
    }

    /// Everything but the position and the line counter is as in `before`.
    spec fn moved_from(&self, before: &Scanner) -> bool {
        &&& self.source == before.source
        &&& self.ascii == before.ascii
        &&& self.chars == before.chars
        &&& self.tokens == before.tokens
        &&& self.errors == before.errors
        &&& self.start == before.start
    }

    /// What the scanner has produced so far is what it had in `before` and
    /// what the lexeme read since gave.
    spec fn stepped_from(&self, before: &Scanner, s: Step) -> bool {
        &&& self.source == before.source
        &&& self.ascii == before.ascii
        &&& self.chars == before.chars
        &&& self.start == before.start
        &&& self.current == s.next
        &&& self.line == s.line
        &&& token_views(self.tokens@) == token_views(before.tokens@) + optional(s.token)
        &&& self.errors@ == before.errors@ + optional(s.error)
    }

    /// A scanner at the start of `source`.
    pub fn new(source: String) -> (s: Scanner)
        ensures
            s.text() == source@,
            s.is_fresh(),
    {
        let chars = characters(source.as_str());
        let ascii = source.is_ascii();
        assert(chars@.len() == chars.len());
        Scanner { source, ascii, chars, tokens: Vec::new(), errors: Vec::new(), start: 0, current: 0, line: 1 }
    }

    fn is_at_end(&self) -> (r: bool)
        ensures
            r == (self.current >= self.chars@.len()),
    {
        self.current >= self.chars.len()
    }

    spec fn peek_spec(&self) -> Option<char> {
        if self.current < self.chars@.len() {
            Some(self.chars@[self.current as int])
        } else {
            None
        }
    }

    fn peek(&self) -> (r: Option<char>)
        ensures
            r == self.peek_spec(),
            r is Some <==> self.current < self.chars@.len(),
    {
        if self.current < self.chars.len() {
            Some(self.chars[self.current])
        } else {
            None
        }
    }

    fn peek_next(&self) -> (r: Option<char>)
        ensures
            r is Some <==> self.current + 1 < self.chars@.len(),
            r matches Some(c) ==> c == self.chars@[self.current + 1],
    {
        if self.current < self.chars.len() && self.current + 1 < self.chars.len() {
            Some(self.chars[self.current + 1])
        } else {
            None
        }
    }

    fn advance(&mut self) -> (r: Option<char>)
        requires
            old(self).wf(),
        ensures
            final(self).wf(),
            final(self).moved_from(old(self)),
            final(self).line == old(self).line,
            r == old(self).peek_spec(),
            r is Some ==> final(self).current == old(self).current + 1,
            r is None ==> final(self).current == old(self).current,
    {
        let c = self.peek();
        if c.is_some() {
            self.current += 1;
        }
        c
    }

    fn match_next_char(&mut self, expected: char) -> (r: bool)
        requires
            old(self).wf(),
        ensures
            final(self).wf(),
            final(self).moved_from(old(self)),
            final(self).line == old(self).line,
            r == (old(self).peek_spec() == Some(expected)),
            r ==> final(self).current == old(self).current + 1,
            !r ==> final(self).current == old(self).current,
    {
        match self.peek() {
            Some(c) => {
                if c == expected {
                    self.current += 1;
                    true
                } else {
                    false
                }
            },
            None => false,
        }
    }

    /// Reads on to the end of the run of `class` at the current position.
    fn skip_run(&mut self, class: CharClass)
        requires
            old(self).wf(),
        ensures
            final(self).wf(),
            final(self).moved_from(old(self)),
            final(self).line == old(self).line,
            final(self).current == run_end(old(self).chars@, old(self).current as int, class),
    {
        loop
            invariant
                self.wf(),
                self.moved_from(old(self)),
                self.line == old(self).line,
                old(self).current <= self.current,
                run_end(self.chars@, self.current as int, class) == run_end(
                    old(self).chars@,
                    old(self).current as int,
                    class,
                ),
            ensures
                self.current == run_end(old(self).chars@, old(self).current as int, class),
            decreases self.chars@.len() - self.current,
        {
            match self.peek() {
                Some(c) => {
                    if class_holds(class, c) {
                        self.current += 1;
                    } else {
                        break ;
                    }
                },
                None => {
                    break ;
                },
            }
        }
    }

    /// The text from `from` up to `to`.
    fn text_between(&self, from: usize, to: usize) -> (r: String)
        requires
            self.wf(),
            from <= to <= self.chars@.len(),
        ensures
            r@ == self.chars@.subrange(from as int, to as int),
    {
        if self.ascii {
            self.source.as_str().substring_ascii(from, to).to_owned()
        } else {
            self.source.as_str().substring_char(from, to).to_owned()
        }
    }

    fn add_token(&mut self, token_type: TokenType)
        requires
            old(self).wf(),
        ensures
            final(self).wf(),
            final(self).source == old(self).source,
            final(self).ascii == old(self).ascii,
            final(self).chars == old(self).chars,
            final(self).errors == old(self).errors,
            final(self).start == old(self).start,
            final(self).current == old(self).current,
            final(self).line == old(self).line,
            token_views(final(self).tokens@) == token_views(old(self).tokens@) + seq![
                SpecToken {
                    kind: token_type@,
                    lexeme: old(self).chars@.subrange(old(self).start as int, old(self).current as int),
                    line: old(self).line,
                },
            ],
    {
        let lexeme = self.text_between(self.start, self.current);
        let token = Token::new(token_type, lexeme, self.line);
        self.tokens.push(token);
        assert(token_views(self.tokens@) =~= token_views(old(self).tokens@) + seq![token@]);
    }

    /// Reads a string literal whose opening quote has just been read.
    fn string(&mut self)
        requires
            old(self).wf(),
            old(self).current == old(self).start + 1,
            old(self).chars@[old(self).start as int] == '"',
        ensures
            final(self).wf(),
            final(self).stepped_from(
                old(self),
                string_step(old(self).chars@, old(self).start as int, old(self).line),
            ),
    {
        let opening_line = self.line;
        loop
            invariant
                self.wf(),
                self.moved_from(old(self)),
                old(self).current <= self.current,
                run_end(self.chars@, self.current as int, CharClass::StringBody) == run_end(
                    old(self).chars@,
                    old(self).current as int,
                    CharClass::StringBody,
                ),
                self.line == advance_line(
                    old(self).line,
                    newlines(self.chars@, old(self).current as int, self.current as int),
                ),
                opening_line == old(self).line,
                old(self).current == old(self).start + 1,
            decreases self.chars@.len() - self.current,
        {
            match self.advance() {
                Some(c) => {
                    if c == '"' {
                        let contents = self.text_between(self.start + 1, self.current - 1);
                        self.add_token(TokenType::String(contents));
                        return ;
                    } else if c == '\n' {
                        self.line = next_line(self.line);
                    }
                },
                None => {
                    self.errors.push(ScannerError::UnterminatedString(opening_line));
                    assert(self.errors@ =~= old(self).errors@ + seq![
                        ScannerError::UnterminatedString(opening_line),
                    ]);
                    assert(token_views(self.tokens@) =~= token_views(old(self).tokens@)
                        + Seq::<SpecToken>::empty());
                    return ;
                },
            }
        }
    }

    /// Reads a number literal whose first digit has just been read.
    fn number(&mut self)
        requires
            old(self).wf(),
            old(self).current == old(self).start + 1,
            is_digit(old(self).chars@[old(self).start as int]),
        ensures
            final(self).wf(),
            final(self).stepped_from(
                old(self),
                number_step(old(self).chars@, old(self).start as int, old(self).line),
            ),
    {
        assert(run_end(self.chars@, self.start as int, CharClass::Digit) == run_end(
            self.chars@,
            self.start + 1,
            CharClass::Digit,
        ));
        self.skip_run(CharClass::Digit);
        let dot = match self.peek() {
            Some(c) => c == '.',
            None => false,
        };
        let digit_after = match self.peek_next() {
            Some(c) => is_digit_char(c),
            None => false,
        };
        if dot && digit_after {
            self.current += 1;
            self.skip_run(CharClass::Digit);
        }
        let numeral = self.text_between(self.start, self.current);
        self.add_token(TokenType::Number(numeral));
    }

    /// Reads a word whose first character has just been read.
    fn identifier(&mut self)
        requires
            old(self).wf(),
            old(self).current == old(self).start + 1,
            is_alpha(old(self).chars@[old(self).start as int]),
        ensures
            final(self).wf(),
            final(self).stepped_from(
                old(self),
                word_step(old(self).chars@, old(self).start as int, old(self).line),
            ),
    {
        assert(run_end(self.chars@, self.start as int, CharClass::Word) == run_end(
            self.chars@,
            self.start + 1,
            CharClass::Word,
        ));
        self.skip_run(CharClass::Word);
        let token_type = classify_word(&self.chars, self.start, self.current);
        self.add_token(token_type);
    }

    /// Records a diagnostic for the character that was just read.
    fn unexpected_character(&mut self)
        requires
            old(self).wf(),
        ensures
            final(self).wf(),
            final(self).source == old(self).source,
            final(self).ascii == old(self).ascii,
            final(self).chars == old(self).chars,
            final(self).tokens == old(self).tokens,
            final(self).start == old(self).start,
            final(self).current == old(self).current,
            final(self).line == old(self).line,
            final(self).errors@ == old(self).errors@ + seq![
                ScannerError::UnexpectedCharacter(old(self).line),
            ],
    {
        self.errors.push(ScannerError::UnexpectedCharacter(self.line));
        assert(self.errors@ =~= old(self).errors@ + seq![
            ScannerError::UnexpectedCharacter(old(self).line),
        ]);
    }

    /// Reads one lexeme.
    fn scan_token(&mut self)
        requires
            old(self).wf(),
            old(self).start == old(self).current,
            old(self).current < old(self).chars@.len(),
        ensures
            final(self).wf(),
            final(self).stepped_from(
                old(self),
                step(old(self).chars@, old(self).start as int, old(self).line),
            ),
    {
        let c = match self.advance() {
            Some(c) => c,
            None => {
                return ;
            },
        };
        if c == '(' {
            self.add_token(TokenType::LeftParen);
        } else if c == ')' {
            self.add_token(TokenType::RightParen);
        } else if c == '{' {
            self.add_token(TokenType::LeftBrace);
        } else if c == '}' {
            self.add_token(TokenType::RightBrace);
        } else if c == ',' {
            self.add_token(TokenType::Comma);
        } else if c == '.' {
            self.add_token(TokenType::Dot);
        } else if c == '-' {
            self.add_token(TokenType::Minus);
        } else if c == '+' {
            self.add_token(TokenType::Plus);
        } else if c == ';' {
            self.add_token(TokenType::Semicolon);
        } else if c == '*' {
            self.add_token(TokenType::Star);
        } else if c == '!' {
            if self.match_next_char('=') {
                self.add_token(TokenType::BangEqual);
            } else {
                self.add_token(TokenType::Bang);
            }
        } else if c == '=' {
            if self.match_next_char('=') {
                self.add_token(TokenType::EqualEqual);
            } else {
                self.add_token(TokenType::Equal);
            }
        } else if c == '>' {
            if self.match_next_char('=') {
                self.add_token(TokenType::GreaterEqual);
            } else {
                self.add_token(TokenType::Greater);
            }
        } else if c == '<' {
            if self.match_next_char('=') {
                self.add_token(TokenType::LessEqual);
            } else {
                self.add_token(TokenType::Less);
            }
        } else if c == '/' {
            if self.match_next_char('/') {
                self.skip_run(CharClass::CommentBody);
            } else {
                self.add_token(TokenType::Slash);
            }
        } else if c == ' ' || c == '\r' || c == '\t' {
        } else if c == '\n' {
            self.line = next_line(self.line);
        } else if c == '"' {
            self.string();
        } else if is_digit_char(c) {
            self.number();
        } else if is_alpha_char(c) {
            self.identifier();
        } else {
            self.unexpected_character();
        }
        proof {
            assert(token_views(old(self).tokens@) + Seq::<SpecToken>::empty() =~= token_views(
                old(self).tokens@,
            ));
            assert(old(self).errors@ + Seq::<ScannerError>::empty() =~= old(self).errors@);
        }
    }

    /// Reads the whole text: its tokens, closed by the sentinel, and the
    /// diagnostics, both in the order of the text. Reading never stops early:
    /// a character that starts no token and a string left open each give a
    /// diagnostic, and the text after them is read as usual.
    pub fn scan_tokens(self) -> (r: (Vec<Token>, Vec<ScannerError>))
        requires
            self.is_fresh(),
        ensures
            token_views(r.0@) == scan(self.text()).tokens,
            r.1@ == scan(self.text()).errors,
            r.0@.len() >= 1,
            r.0@.last()@.kind is EndOfInput,
            r.0@.last()@.line == advance_line(1, newlines(self.text(), 0, self.text().len() as int)),
            forall|i: int| 0 <= i < r.0@.len() - 1 ==> !(#[trigger] r.0@[i]@.kind is EndOfInput),
            forall|i: int|
                0 <= i < r.0@.len() ==> (#[trigger] r.0@[i]@.kind matches SpecTokenType::Number(n)
                    ==> is_numeral(n)),
    {
        let mut scanner = self;
        let ghost src = scanner.chars@;
        assert(token_views(scanner.tokens@) =~= Seq::<SpecToken>::empty());
        assert(scanner.errors@ =~= Seq::<ScannerError>::empty());
        while !scanner.is_at_end()
            invariant
                scanner.wf(),
                scanner.chars@ == src,
                src == self.text(),
                scan(src).tokens == token_views(scanner.tokens@) + scan_from(
                    src,
                    scanner.current as int,
                    scanner.line,
                ).tokens,
                scan(src).errors == scanner.errors@ + scan_from(
                    src,
                    scanner.current as int,
                    scanner.line,
                ).errors,
            decreases src.len() - scanner.current,
        {
            scanner.start = scanner.current;
            let ghost before = scanner;
            let ghost s = step(src, scanner.current as int, scanner.line);
            proof {
                lemma_step_advances(src, scanner.current as int, scanner.line);
            }
            scanner.scan_token();
            proof {
                let rest = scan_from(src, s.next, s.line);
                assert(scan_from(src, before.current as int, before.line).tokens == optional(s.token)
                    + rest.tokens);
                assert((token_views(before.tokens@) + optional(s.token)) + rest.tokens =~= token_views(
                    before.tokens@,
                ) + (optional(s.token) + rest.tokens));
                assert((before.errors@ + optional(s.error)) + rest.errors =~= before.errors@ + (optional(
                    s.error,
                ) + rest.errors));
            }
        }
        let end = Token::new(TokenType::EndOfInput, String::new(), scanner.line);
        let ghost scanned = token_views(scanner.tokens@);
        scanner.tokens.push(end);
        proof {
            assert(token_views(scanner.tokens@) =~= scanned + seq![end_of_input(scanner.line)]);
            assert(scanner.errors@ + Seq::<ScannerError>::empty() =~= scanner.errors@);
            lemma_scan_ends_with_sentinel(src, 0, 1);
            lemma_scan_gives_numerals(src, 0, 1);
            lemma_scan_counts_lines(src, 0, 1);
            assert(token_views(scanner.tokens@).len() == scanner.tokens@.len());
            assert forall|i: int| 0 <= i < scanner.tokens@.len() implies #[trigger] scanner.tokens@[i]@
                == scan(src).tokens[i] by {
                assert(token_views(scanner.tokens@)[i] == scanner.tokens@[i]@);
            }
        }
        (scanner.tokens, scanner.errors)
    }
}

} // verus!
