//! A plain log of syntax errors, each with the line and column it was found
//! at.
use vstd::prelude::*;
use vstd::string::*;
use crate::text::{decimal, decimal_string};

verus! {

/// What a syntax error is about and where it was found.
pub struct ErrorDescription {
    pub target: String,
    pub line: usize,
    pub column: usize,
    pub description: String,
}

/// A description with its texts as sequences of characters.
pub struct ErrorDescriptionView {
    pub target: Seq<char>,
    pub line: usize,
    pub column: usize,
    pub description: Seq<char>,
}

impl View for ErrorDescription {
    type V = ErrorDescriptionView;

    open spec fn view(&self) -> ErrorDescriptionView {
        ErrorDescriptionView {
            target: self.target@,
            line: self.line,
            column: self.column,
            description: self.description@,
        }
    }
}

impl ErrorDescriptionView {
    /// The rendered description: `[line: L, col: C] Error (target):
    /// description`.
    pub open spec fn rendered(self) -> Seq<char> {
        "[line: "@ + decimal(self.line as nat) + ", col: "@ + decimal(self.column as nat)
            + "] Error ("@ + self.target + "): "@ + self.description
    }
}

impl ErrorDescription {
    /// Renders the description for display.
    pub fn to_string(&self) -> (r: String)
        ensures
            r@ == self@.rendered(),
    {
        let mut r = String::from_str("[line: ");
        r.append(decimal_string(self.line).as_str());
        r.append(", col: ");
        r.append(decimal_string(self.column).as_str());
        r.append("] Error (");
        r.append(self.target.as_str());
        r.append("): ");
        r.append(self.description.as_str());
        r
    }
}

/// An error of the log.
pub enum Error {
    Syntax(ErrorDescription),
}

/// An error with its description as a view.
pub enum ErrorView {
    Syntax(ErrorDescriptionView),
}

impl View for Error {
    type V = ErrorView;

    open spec fn view(&self) -> ErrorView {
        match self {
            Error::Syntax(description) => ErrorView::Syntax(description@),
        }
    }
}

impl ErrorView {
    /// The rendered error: its description.
    pub open spec fn rendered(self) -> Seq<char> {
        match self {
            ErrorView::Syntax(description) => description.rendered(),
        }
    }
}

impl Error {
    /// Renders the error for display.
    pub fn to_string(&self) -> (r: String)
        ensures
            r@ == self@.rendered(),
    {
        match self {
            Error::Syntax(description) => description.to_string(),
        }
    }
}

/// The errors, in the order in which they were logged.
pub struct ErrorLog {
    pub errors: Vec<Error>,
}

impl View for ErrorLog {
    type V = Seq<ErrorView>;

    open spec fn view(&self) -> Seq<ErrorView> {
        Seq::new(self.errors@.len(), |i: int| self.errors@[i]@)
    }
}

impl ErrorLog {
    /// An empty log.
    pub fn new() -> (log: Self)
        ensures
            log@ == Seq::<ErrorView>::empty(),
    {
        let log = ErrorLog { errors: Vec::new() };
        assert(log@ =~= Seq::<ErrorView>::empty());
        log
    }

    /// Adds a syntax error about `target`, found at `line` and `column`.
    pub fn log(&mut self, line: usize, column: usize, target: &str, description: &str) -> (r:
        &Self)
        ensures
            r@ == final(self)@,
            final(self)@ == old(self)@.push(
                ErrorView::Syntax(
                    ErrorDescriptionView {
                        target: target@,
                        line,
                        column,
                        description: description@,
                    },
                ),
            ),
    {
        let error = Error::Syntax(
            ErrorDescription {
                target: String::from_str(target),
                line,
                column,
                description: String::from_str(description),
            },
        );
        self.errors.push(error);
        assert(self@ =~= old(self)@.push(error@));
        self
    }

    /// The number of errors in the log.
    pub fn len(&self) -> (n: usize)
        ensures
            n == self@.len(),
    {
        self.errors.len()
    }
}

} // verus!
