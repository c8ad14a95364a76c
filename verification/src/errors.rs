//! Diagnostics: one typed error value for all three stages, and the ordered
//! log that a stage collects them in.
use vstd::prelude::*;
use vstd::string::*;
use crate::source_file::SourceSpan;
use crate::text::{decimal, decimal_string};

verus! {

/// What an error is about: the offending text if any, where it stood if
/// known, and the message.
#[derive(Debug, Clone, PartialEq)]
pub struct ErrorDescription {
    pub subject: Option<String>,
    pub location: Option<SourceSpan>,
    pub description: String,
}

/// A description with its texts as sequences of characters.
pub struct ErrorDescriptionView {
    pub subject: Option<Seq<char>>,
    pub location: Option<SourceSpan>,
    pub description: Seq<char>,
}

impl View for ErrorDescription {
    type V = ErrorDescriptionView;

    open spec fn view(&self) -> ErrorDescriptionView {
        ErrorDescriptionView {
            subject: match self.subject {
                Some(s) => Some(s@),
                None => None,
            },
            location: self.location,
            description: self.description@,
        }
    }
}

/// The stage that raised an error.
#[derive(Debug, Clone, Copy, PartialEq, Eq, Structural)]
pub enum ErrorKind {
    Scanning,
    Parsing,
    Runtime,
}

/// An error: the stage that raised it and what it is about.
#[derive(Debug, Clone, PartialEq)]
pub struct Error {
    pub kind: ErrorKind,
    pub description: ErrorDescription,
}

/// An error with its description as a view.
pub struct ErrorView {
    pub kind: ErrorKind,
    pub description: ErrorDescriptionView,
}

impl View for Error {
    type V = ErrorView;

    open spec fn view(&self) -> ErrorView {
        ErrorView { kind: self.kind, description: self.description@ }
    }
}

impl ErrorView {
    /// An error of `kind` with a message only.
    pub open spec fn plain(kind: ErrorKind, message: Seq<char>) -> ErrorView {
        ErrorView {
            kind,
            description: ErrorDescriptionView {
                subject: None,
                location: None,
                description: message,
            },
        }
    }

    /// An error of `kind` with a message and the span it refers to.
    pub open spec fn located(kind: ErrorKind, location: SourceSpan, message: Seq<char>)
        -> ErrorView {
        ErrorView {
            kind,
            description: ErrorDescriptionView {
                subject: None,
                location: Some(location),
                description: message,
            },
        }
    }

    /// The word that names the kind in a rendered error: the kind's own
    /// name.
    pub open spec fn kind_text(self) -> Seq<char> {
        match self.kind {
            ErrorKind::Scanning => "Scanning"@,
            ErrorKind::Parsing => "Parsing"@,
            ErrorKind::Runtime => "Runtime"@,
        }
    }

    /// The location clause: the line and column at which the error's span
    /// starts, in square brackets, and a blank behind them. It is empty when
    /// the error has no location.
    pub open spec fn location_text(self) -> Seq<char> {
        match self.description.location {
            Some(span) => "[line: "@ + decimal(span.start.line as nat) + ", col: "@ + decimal(
                span.start.column as nat,
            ) + "] "@,
            None => Seq::empty(),
        }
    }

    /// The subject clause, empty when the error has no subject.
    pub open spec fn subject_text(self) -> Seq<char> {
        match self.description.subject {
            Some(subject) => ": "@ + subject,
            None => Seq::empty(),
        }
    }

    /// The rendered error: `[line: L, col: C] Kind Error (message): subject`.
    /// An error without a location starts with its kind, and one without a
    /// subject ends with the closing parenthesis.
    pub open spec fn rendered(self) -> Seq<char> {
        self.location_text() + self.kind_text() + " Error ("@ + self.description.description
            + ")"@ + self.subject_text()
    }
}

impl Error {
    /// An error of `kind` with a message only.
    pub fn plain(kind: ErrorKind, message: String) -> (e: Error)
        ensures
            e@ == ErrorView::plain(kind, message@),
    {
        Error {
            kind,
            description: ErrorDescription { subject: None, location: None, description: message },
        }
    }

    /// An error of `kind` with a message and the span it refers to.
    pub fn located(kind: ErrorKind, location: SourceSpan, message: String) -> (e: Error)
        ensures
            e@ == ErrorView::located(kind, location, message@),
    {
        Error {
            kind,
            description: ErrorDescription {
                subject: None,
                location: Some(location),
                description: message,
            },
        }
    }

    /// Renders the error for display.
    pub fn to_string(&self) -> (r: String)
        ensures
            r@ == self@.rendered(),
    {
        let mut r = String::new();
        match self.description.location {
            Some(span) => {
                r.append("[line: ");
                r.append(decimal_string(span.start.line).as_str());
                r.append(", col: ");
                r.append(decimal_string(span.start.column).as_str());
                r.append("] ");
            },
            None => {},
        }
        assert(r@ =~= self@.location_text());
        match self.kind {
            ErrorKind::Scanning => r.append("Scanning"),
            ErrorKind::Parsing => r.append("Parsing"),
            ErrorKind::Runtime => r.append("Runtime"),
        }
        r.append(" Error (");
        r.append(self.description.description.as_str());
        r.append(")");
        let ghost head = r@;
        match &self.description.subject {
            Some(subject) => {
                r.append(": ");
                r.append(subject.as_str());
            },
            None => {},
        }
        assert(r@ =~= head + self@.subject_text());
        r
    }
}

/// The errors of one stage, in the order in which they were found.
pub struct ErrorLog {
    pub errors: Vec<Error>,
}

/// The views of a sequence of errors.
pub open spec fn error_views(errors: Seq<Error>) -> Seq<ErrorView> {
    Seq::new(errors.len(), |i: int| errors[i]@)
}

impl View for ErrorLog {
    type V = Seq<ErrorView>;

    open spec fn view(&self) -> Seq<ErrorView> {
        error_views(self.errors@)
    }
}

impl ErrorLog {
    /// An empty log.
    pub fn new() -> (log: Self)
        ensures
            log@ == Seq::<ErrorView>::empty(),
    {
        let log = ErrorLog { errors: Vec::new() };
        assert(log@ =~= Seq::<ErrorView>::empty());
        log
    }

    /// Adds `error` at the end of the log.
    pub fn push(&mut self, error: Error)
        ensures
            final(self)@ == old(self)@.push(error@),
    {
        self.errors.push(error);
        assert(self@ =~= old(self)@.push(error@));
    }

    /// The number of errors in the log.
    pub fn len(&self) -> (n: usize)
        ensures
            n == self@.len(),
    {
        self.errors.len()
    }

    /// The rendered errors, one line each, in order.
    pub fn lines(&self) -> (lines: Vec<String>)
        ensures
            lines@.len() == self@.len(),
            forall|i: int| 0 <= i < lines@.len() ==> (#[trigger] lines@[i])@ == self@[i].rendered(),
    {
        let mut lines: Vec<String> = Vec::new();
        let mut i: usize = 0;
        while i < self.errors.len()
            invariant
                i <= self.errors.len(),
                lines@.len() == i,
                forall|j: int| 0 <= j < i ==> (#[trigger] lines@[j])@ == self@[j].rendered(),
            decreases self.errors.len() - i,
        {
            lines.push(self.errors[i].to_string());
            i = i + 1;
        }
        lines
    }
}

/// A stage that collects errors while it works.
pub trait ErrorLoggable {
    fn error_log(&self) -> &ErrorLog;
}

} // verus!
