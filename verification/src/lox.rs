use crate::grammar;
use crate::interpreter::{runtime_error_views, Interpreter, Numerics, RuntimeError};
use crate::parser::{error_views, Parser, ParserError};
use crate::lexical::scan;
use crate::scanner::{Scanner, ScannerError};
use crate::semantics;
use crate::semantics::is_prefix;
use crate::text::{decimal, decimal_text};
use crate::token::{Token, TokenType};
use vstd::prelude::*;

verus! {

/// The text of a diagnostic on `line`: `[line N] Error<position>: <message>`.
pub open spec fn report_text(line: usize, position: Seq<char>, message: Seq<char>) -> Seq<char> {
    "[line "@ + decimal_text(line as nat) + "] Error"@ + position + ": "@ + message
}

/// The text of a diagnostic on `line`.
pub fn report(line: usize, position: &str, message: &str) -> (r: String)
    ensures
        r@ == report_text(line, position@, message@),
{
    let mut r = "[line ".to_owned();
    r.append(decimal(line).as_str());
    r.append("] Error");
    r.append(position);
    r.append(": ");
    r.append(message);
    r
}

/// The text of a diagnostic that names no token.
pub fn error(line: usize, message: &str) -> (r: String)
    ensures
        r@ == report_text(line, Seq::empty(), message@),
{
    let r = report(line, "", message);
    proof {
        reveal_strlit("");
        assert(""@ =~= Seq::<char>::empty());
    }
    r
}

/// Where a diagnostic at `token` stands: at the end of the input, or at the lexeme.
pub open spec fn position_text(token: crate::token::SpecToken) -> Seq<char> {
    if token.kind is EndOfInput {
        " at end"@
    } else {
        " at '"@ + token.lexeme + "'"@
    }
}

/// The text of a diagnostic at `token`.
pub fn syntax_error(token: &Token, message: &str) -> (r: String)
    ensures
        r@ == report_text(token@.line, position_text(token@), message@),
{
    let position = match token.token_type {
        TokenType::EndOfInput => " at end".to_owned(),
        _ => {
            let mut p = " at '".to_owned();
            p.append(token.lexeme.as_str());
            p.append("'");
            p
        },
    };
    report(token.line, position.as_str(), message)
}

/// The text of a runtime diagnostic.
pub fn runtime_error(runtime_err: &RuntimeError) -> (r: String)
    ensures
        r@ == runtime_err@.err_msg(),
{
    runtime_err.to_err_msg()
}

/// The diagnostics of one run, by the stage that gave them, each in order.
pub struct Report {
    pub lexical: Vec<ScannerError>,
    pub syntax: Vec<ParserError>,
    pub runtime: Vec<RuntimeError>,
}

impl Report {
    /// The run has failed: it gave a diagnostic.
    pub open spec fn spec_failed(&self) -> bool {
        self.lexical@.len() > 0 || self.syntax@.len() > 0 || self.runtime@.len() > 0
    }

    /// Whether the run has failed: whether it gave a diagnostic.
    pub fn failed(&self) -> (r: bool)
        ensures
            r == self.spec_failed(),
    {
        self.lexical.len() > 0 || self.syntax.len() > 0 || self.runtime.len() > 0
    }

    /// The texts of the diagnostics: the lexical ones, then those of the
    /// syntax, then those of the run.
    pub fn lines(&self) -> (r: Vec<String>)
        ensures
            r@.len() == self.lexical@.len() + self.syntax@.len() + self.runtime@.len(),
            forall|i: int|
                0 <= i < self.lexical@.len() ==> (#[trigger] r@[i])@ == report_text(
                    self.lexical@[i].spec_line(),
                    Seq::empty(),
                    self.lexical@[i].spec_message(),
                ),
            forall|i: int|
                0 <= i < self.syntax@.len() ==> (#[trigger] r@[self.lexical@.len() + i])@ == report_text(
                    self.syntax@[i]@.token().line,
                    position_text(self.syntax@[i]@.token()),
                    self.syntax@[i]@.message(),
                ),
            forall|i: int|
                0 <= i < self.runtime@.len() ==> (#[trigger] r@[self.lexical@.len() + self.syntax@.len()
                    + i])@ == self.runtime@[i]@.err_msg(),
    {
        let mut r: Vec<String> = Vec::new();
        let mut i: usize = 0;
        while i < self.lexical.len()
            invariant
                i <= self.lexical@.len(),
                r@.len() == i,
                forall|j: int|
                    0 <= j < i ==> (#[trigger] r@[j])@ == report_text(
                        self.lexical@[j].spec_line(),
                        Seq::empty(),
                        self.lexical@[j].spec_message(),
                    ),
            decreases self.lexical@.len() - i,
        {
            let e = &self.lexical[i];
            r.push(error(e.line(), e.message()));
            i += 1;
        }
        let mut k: usize = 0;
        while k < self.syntax.len()
            invariant
                k <= self.syntax@.len(),
                r@.len() == self.lexical@.len() + k,
                forall|j: int|
                    0 <= j < self.lexical@.len() ==> (#[trigger] r@[j])@ == report_text(
                        self.lexical@[j].spec_line(),
                        Seq::empty(),
                        self.lexical@[j].spec_message(),
                    ),
                forall|j: int|
                    0 <= j < k ==> (#[trigger] r@[self.lexical@.len() + j])@ == report_text(
                        self.syntax@[j]@.token().line,
                        position_text(self.syntax@[j]@.token()),
                        self.syntax@[j]@.message(),
                    ),
            decreases self.syntax@.len() - k,
        {
            let e = &self.syntax[k];
            r.push(syntax_error(e.token(), e.message()));
            k += 1;
        }
        let mut m: usize = 0;
        while m < self.runtime.len()
            invariant
                m <= self.runtime@.len(),
                r@.len() == self.lexical@.len() + self.syntax@.len() + m,
                forall|j: int|
                    0 <= j < self.lexical@.len() ==> (#[trigger] r@[j])@ == report_text(
                        self.lexical@[j].spec_line(),
                        Seq::empty(),
                        self.lexical@[j].spec_message(),
                    ),
                forall|j: int|
                    0 <= j < self.syntax@.len() ==> (#[trigger] r@[self.lexical@.len() + j])@
                        == report_text(
                        self.syntax@[j]@.token().line,
                        position_text(self.syntax@[j]@.token()),
                        self.syntax@[j]@.message(),
                    ),
                forall|j: int|
                    0 <= j < m ==> (#[trigger] r@[self.lexical@.len() + self.syntax@.len() + j])@
                        == self.runtime@[j]@.err_msg(),
            decreases self.runtime@.len() - m,
        {
            r.push(runtime_error(&self.runtime[m]));
            m += 1;
        }
        r
    }
}

/// One session of the language: an interpreter, whose global variables
/// last from one source text to the next, and whether a text has failed.
pub struct Lox<H: Numerics> {
    had_error: bool,
    had_runtime_error: bool,
    interpreter: Interpreter<H>,
}

impl<H: Numerics> Lox<H> {
    /// The interpreter of the session.
    pub closed spec fn interpreter(&self) -> Interpreter<H> {
        self.interpreter
    }

    /// A text has given a lexical or a syntax diagnostic.
    pub closed spec fn spec_had_error(&self) -> bool {
        self.had_error
    }

    /// A text has given a runtime diagnostic.
    pub closed spec fn spec_had_runtime_error(&self) -> bool {
        self.had_runtime_error
    }

    /// The interpreter of the session holds the global scope.
    pub open spec fn wf(&self) -> bool {
        self.interpreter().wf()
    }

    /// A session in which nothing has run yet.
    pub fn new(host: H) -> (r: Self)
        ensures
            r.wf(),
            !r.spec_had_error(),
            !r.spec_had_runtime_error(),
            r.interpreter().printed().len() == 0,
            r.interpreter().scopes() == seq![Map::<Seq<char>, crate::value::SpecValue>::empty()],
    {
        Lox { had_error: false, had_runtime_error: false, interpreter: Interpreter::new(host) }
    }

    /// Whether a text has given a lexical or a syntax diagnostic.
    pub fn had_error(&self) -> (r: bool)
        ensures
            r == self.spec_had_error(),
    {
        self.had_error
    }

    /// Whether a text has given a runtime diagnostic.
    pub fn had_runtime_error(&self) -> (r: bool)
        ensures
            r == self.spec_had_runtime_error(),
    {
        self.had_runtime_error
    }

    /// Forgets the failures of the texts so far.
    pub fn clear_errors(&mut self)
        ensures
            final(self).interpreter() == old(self).interpreter(),
            !final(self).spec_had_error(),
            !final(self).spec_had_runtime_error(),
    {
        self.had_error = false;
        self.had_runtime_error = false;
    }

    /// The lines written so far.
    pub fn output(&self) -> (r: &Vec<String>)
        ensures
            crate::interpreter::line_views(r@) == self.interpreter().printed(),
    {
        self.interpreter.output()
    }

    /// Hands over the lines written so far, and goes on with none.
    pub fn take_output(&mut self) -> (r: Vec<String>)
        ensures
            crate::interpreter::line_views(r@) == old(self).interpreter().printed(),
            final(self).interpreter().printed().len() == 0,
            final(self).interpreter().scopes() == old(self).interpreter().scopes(),
            final(self).interpreter().replies() == old(self).interpreter().replies(),
            final(self).spec_had_error() == old(self).spec_had_error(),
            final(self).spec_had_runtime_error() == old(self).spec_had_runtime_error(),
    {
        self.interpreter.take_output()
    }

    /// Scans, parses and runs one source text, and gives the diagnostics of
    /// the three stages. The statements that were read are run whether or not
    /// others gave a syntax diagnostic, and what they write is kept.
    pub fn run(&mut self, source: String) -> (report: Report)
        requires
            old(self).wf(),
        ensures
            final(self).wf(),
            report.lexical@ == scan(source@).errors,
            error_views(report.syntax@) == grammar::program(scan(source@).tokens).errors,
            is_prefix(old(self).interpreter().replies(), final(self).interpreter().replies()),
            final(self).interpreter().state(runtime_error_views(report.runtime@)) == semantics::run(
                grammar::program(scan(source@).tokens).statements,
                old(self).interpreter().state(Seq::empty()),
                final(self).interpreter().replies(),
            ),
            final(self).spec_had_error() == (old(self).spec_had_error() || report.lexical@.len() > 0
                || report.syntax@.len() > 0),
            final(self).spec_had_runtime_error() == (old(self).spec_had_runtime_error()
                || report.runtime@.len() > 0),
    {
        let scanner = Scanner::new(source);
        let (tokens, lexical) = scanner.scan_tokens();
        let parser = Parser::new(tokens);
        let (program, syntax) = parser.parse();
        let runtime = match self.interpreter.interpret(program) {
            Ok(()) => Vec::new(),
            Err(errors) => errors,
        };
        if lexical.len() > 0 || syntax.len() > 0 {
            self.had_error = true;
        }
        if runtime.len() > 0 {
            self.had_runtime_error = true;
        }
        proof {
            assert(runtime_error_views(Seq::<RuntimeError>::empty()) =~= Seq::empty());
        }
        Report { lexical, syntax, runtime }
    }
}

} // verus!
