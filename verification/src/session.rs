//! One run of a source text through the three stages: scanning, parsing,
//! and, where both found no error, evaluation.
use vstd::prelude::*;
use vstd::string::*;
use crate::ast::{Stmt, stmt_views};
use crate::errors::{ErrorLog, ErrorLoggable};
use crate::grammar::{lemma_significant_has_end, program, significant};
use crate::interpreter::{
    Arithmetic,
    Calculation,
    Comparison,
    Run,
    answers,
    follows,
    interpret,
    may_run,
    run,
    total,
};
use crate::parser::Parser;
use crate::scanner::{Scanner, scan_of};
use crate::text::texts;

verus! {

/// What one run gives: the scanner and the parser with their logs, the
/// statements, the lines that the program prints, and the runtime error that
/// stopped it, if one did.
pub struct Session {
    pub scanner: Scanner,
    pub parser: Parser,
    pub statements: Vec<Stmt>,
    pub output: Vec<String>,
    pub runtime: ErrorLog,
}

impl Session {
    /// Whether scanning and parsing both went without an error.
    pub open spec fn is_clean(&self) -> bool {
        self.scanner.scanned().errors.len() == 0 && self.parser.errors().len() == 0
    }

    /// What the run gave: the lines to print and the runtime error, if any.
    pub open spec fn ran(&self) -> Run {
        Run { output: texts(self.output@), errors: self.runtime@ }
    }

    /// Whether scanning and parsing both went without an error.
    pub fn clean(&self) -> (b: bool)
        ensures
            b == self.is_clean(),
    {
        self.scanner.error_log().len() == 0 && self.parser.error_log().len() == 0
    }

    /// Scans `source`, parses its tokens, and runs the statements if neither
    /// stage found an error. Every stage runs to its end and reports all the
    /// errors it finds; a program with a syntax error is not run.
    pub fn run<A: Fn(Calculation) -> String, C: Fn(Comparison) -> bool>(
        source: String,
        calculate: &A,
        compare: &C,
    ) -> (session: Session)
        requires
            total(calculate, compare),
        ensures
            session.scanner.scanned() == scan_of(source@),
            session.parser.tokens() == significant(scan_of(source@).tokens),
            session.parser.errors() == program(session.parser.tokens(), 0).errors,
            stmt_views(session.statements@) == program(session.parser.tokens(), 0).statements,
            !session.is_clean() ==> session.output@.len() == 0 && session.runtime@.len() == 0,
            session.is_clean() ==> may_run(
                stmt_views(session.statements@),
                answers(calculate, compare),
                session.ran(),
            ),
            session.is_clean() ==> forall|n: Arithmetic|
                follows(calculate, compare, n) ==> session.ran() == #[trigger] run(
                    stmt_views(session.statements@),
                    n,
                ),
    {
        let scanner = Scanner::from_source(source);
        let tokens = scanner.tokens();
        let mut parser = Parser::new(tokens);
        proof {
            lemma_significant_has_end(scanner.scanned().tokens);
        }
        let statements = parser.parse();
        assert(parser.errors() =~= program(parser.tokens(), 0).errors);
        if scanner.error_log().len() == 0 && parser.error_log().len() == 0 {
            let (output, runtime) = interpret(&statements, calculate, compare);
            Session { scanner, parser, statements, output, runtime }
        } else {
            Session { scanner, parser, statements, output: Vec::new(), runtime: ErrorLog::new() }
        }
    }
}

} // verus!
