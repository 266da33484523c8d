use crate::diagnostics::{Builder, Diag, Label, Severity};
use crate::location::{Located, Location};
use vstd::prelude::*;

verus! {

/// Lexing error for a string literal that is never closed.
#[derive(Debug, PartialEq, Eq, Structural, Copy, Clone)]
pub struct UnterminatedString(pub Location);

/// Lexing error for a hexadecimal literal whose prefix is followed by no
/// hex digit at all (for instance `0x` at the end of the input).
#[derive(Debug, PartialEq, Eq, Structural, Copy, Clone)]
pub struct InvalidHex(pub Location);

/// Lexing error for a character that no rule handled.
#[derive(Debug, PartialEq, Eq, Structural, Copy, Clone)]
pub struct UnexpectedChar(pub Location);

impl Located for UnterminatedString {
    open spec fn spec_location(&self) -> Location {
        self.0
    }

    fn location(&self) -> (l: Location) {
        self.0
    }
}

impl Diag for UnterminatedString {
    open spec fn spec_severity(&self) -> Severity {
        Severity::Error
    }

    open spec fn spec_location(&self) -> Location {
        self.0
    }

    open spec fn spec_message(&self) -> Seq<char> {
        "this string was never terminated"@
    }

    open spec fn spec_title(&self) -> Seq<char> {
        "unterminated string"@
    }

    fn severity(&self) -> (s: Severity) {
        Severity::Error
    }

    fn build(&self, builder: Builder) -> (r: Builder) {
        let r = builder.title("unterminated string".to_owned()).label(
            Label::primary(self.0, "this string was never terminated".to_owned()),
        );
        proof {
            assert(r.labels@.subrange(0, builder.labels@.len() as int) =~= builder.labels@);
        }
        r
    }
}

impl Located for InvalidHex {
    open spec fn spec_location(&self) -> Location {
        self.0
    }

    fn location(&self) -> (l: Location) {
        self.0
    }
}

impl Diag for InvalidHex {
    open spec fn spec_severity(&self) -> Severity {
        Severity::Error
    }

    open spec fn spec_location(&self) -> Location {
        self.0
    }

    open spec fn spec_message(&self) -> Seq<char> {
        "this is not a valid hexadecimal value"@
    }

    open spec fn spec_title(&self) -> Seq<char> {
        "invalid hexadecimal"@
    }

    fn severity(&self) -> (s: Severity) {
        Severity::Error
    }

    fn build(&self, builder: Builder) -> (r: Builder) {
        let r = builder.title("invalid hexadecimal".to_owned()).label(
            Label::primary(self.0, "this is not a valid hexadecimal value".to_owned()),
        );
        proof {
            assert(r.labels@.subrange(0, builder.labels@.len() as int) =~= builder.labels@);
        }
        r
    }
}

impl Located for UnexpectedChar {
    open spec fn spec_location(&self) -> Location {
        self.0
    }

    fn location(&self) -> (l: Location) {
        self.0
    }
}

impl Diag for UnexpectedChar {
    open spec fn spec_severity(&self) -> Severity {
        Severity::Error
    }

    open spec fn spec_location(&self) -> Location {
        self.0
    }

    open spec fn spec_message(&self) -> Seq<char> {
        "did not expect this character in this position"@
    }

    open spec fn spec_title(&self) -> Seq<char> {
        "unexpected character"@
    }

    fn severity(&self) -> (s: Severity) {
        Severity::Error
    }

    fn build(&self, builder: Builder) -> (r: Builder) {
        let r = builder.title("unexpected character".to_owned()).label(
            Label::primary(self.0, "did not expect this character in this position".to_owned()),
        );
        proof {
            assert(r.labels@.subrange(0, builder.labels@.len() as int) =~= builder.labels@);
        }
        r
    }
}

} // verus!
