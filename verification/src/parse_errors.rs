use crate::diagnostics::{Builder, Diag, Label, Severity};
use crate::location::{Located, Location};
use crate::tok::{Tok, TokenKind};
use vstd::prelude::*;

verus! {

/// Parsing error when the end of a file is reached earlier than expected.
#[derive(Debug, PartialEq, Eq, Structural, Copy, Clone)]
pub struct UnexpectedEnd(pub Location);

/// Parsing error when a token is encountered that was unexpected.
#[derive(Debug, Clone)]
pub struct UnexpectedToken<K: TokenKind>(pub Tok<K>);

/// Parsing error when anything except one particular token kind was
/// encountered.
#[derive(Debug, Clone)]
pub struct ExpectedToken<K: TokenKind>(pub K, pub Location);

impl Located for UnexpectedEnd {
    open spec fn spec_location(&self) -> Location {
        self.0
    }

    fn location(&self) -> (l: Location) {
        self.0
    }
}

impl Diag for UnexpectedEnd {
    open spec fn spec_severity(&self) -> Severity {
        Severity::Error
    }

    open spec fn spec_location(&self) -> Location {
        self.0
    }

    open spec fn spec_message(&self) -> Seq<char> {
        "reached the end of the file in the middle of parsing a statement"@
    }

    open spec fn spec_title(&self) -> Seq<char> {
        "unexpected end of file"@
    }

    fn severity(&self) -> (s: Severity) {
        Severity::Error
    }

    fn build(&self, builder: Builder) -> (r: Builder) {
        let r = builder.title("unexpected end of file".to_owned()).label(
            Label::primary(
                self.0,
                "reached the end of the file in the middle of parsing a statement".to_owned(),
            ),
        );
        proof {
            assert(r.labels@.subrange(0, builder.labels@.len() as int) =~= builder.labels@);
        }
        r
    }
}

impl<K: TokenKind> Located for UnexpectedToken<K> {
    open spec fn spec_location(&self) -> Location {
        self.0.location
    }

    fn location(&self) -> (l: Location) {
        self.0.location
    }
}

impl<K: TokenKind> Diag for UnexpectedToken<K> {
    open spec fn spec_severity(&self) -> Severity {
        Severity::Error
    }

    open spec fn spec_location(&self) -> Location {
        self.0.location
    }

    open spec fn spec_message(&self) -> Seq<char> {
        "this token is not valid in this position"@
    }

    open spec fn spec_title(&self) -> Seq<char> {
        "unexpected token"@
    }

    fn severity(&self) -> (s: Severity) {
        Severity::Error
    }

    fn build(&self, builder: Builder) -> (r: Builder) {
        let r = builder.title("unexpected token".to_owned()).label(
            Label::primary(self.0.location, "this token is not valid in this position".to_owned()),
        );
        proof {
            assert(r.labels@.subrange(0, builder.labels@.len() as int) =~= builder.labels@);
        }
        r
    }
}

impl<K: TokenKind> Located for ExpectedToken<K> {
    open spec fn spec_location(&self) -> Location {
        self.1
    }

    fn location(&self) -> (l: Location) {
        self.1
    }
}

impl<K: TokenKind> Diag for ExpectedToken<K> {
    open spec fn spec_severity(&self) -> Severity {
        Severity::Error
    }

    open spec fn spec_location(&self) -> Location {
        self.1
    }

    open spec fn spec_message(&self) -> Seq<char> {
        "expected a different token here"@
    }

    open spec fn spec_title(&self) -> Seq<char> {
        "expected another token"@
    }

    fn severity(&self) -> (s: Severity) {
        Severity::Error
    }

    fn build(&self, builder: Builder) -> (r: Builder) {
        let r = builder.title("expected another token".to_owned()).label(
            Label::primary(self.1, "expected a different token here".to_owned()),
        );
        proof {
            assert(r.labels@.subrange(0, builder.labels@.len() as int) =~= builder.labels@);
        }
        r
    }
}

} // verus!
