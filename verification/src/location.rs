use crate::diagnostics::{Label, LabelRole};
use vstd::prelude::*;

verus! {

/// Identifies one source unit inside a file registry.  The registry itself is
/// an external collaborator: a `FileId` is an opaque key that only becomes a
/// file name and a text when a diagnostic is rendered.
pub type FileId = usize;

/// A half-open range of byte offsets within one source unit.
///
/// A span does not guarantee `start <= end`: empty and inverted spans are
/// representable, and `until` composes spans without checking their order.
/// Consumers that need an ordered range must establish it themselves.
#[derive(Debug, PartialEq, Eq, Structural, Copy, Clone, Hash)]
pub struct Span(pub usize, pub usize);

impl Span {
    /// Creates a new span from `start` to `end`.
    pub fn new(start: usize, end: usize) -> (s: Self)
        ensures
            s.0 == start,
            s.1 == end,
    {
        Span(start, end)
    }

    /// Returns the start of the span.
    pub fn start(&self) -> (r: usize)
        ensures
            r == self.0,
    {
        self.0
    }

    /// Returns the end of the span.
    pub fn end(&self) -> (r: usize)
        ensures
            r == self.1,
    {
        self.1
    }

    /// Creates a new span between this one's start and the provided one's end.
    pub fn until(&self, other: Self) -> (s: Self)
        ensures
            s.0 == self.0,
            s.1 == other.1,
    {
        Span(self.0, other.1)
    }
}

impl Default for Span {
    /// The empty span at offset zero.
    fn default() -> (s: Self)
        ensures
            s.0 == 0,
            s.1 == 0,
    {
        Span(0, 0)
    }
}

/// A span qualified by the source unit it belongs to.
#[derive(Debug, PartialEq, Eq, Structural, Copy, Clone, Hash)]
pub struct Location {
    pub file_id: FileId,
    pub span: Span,
}

impl Location {
    /// Creates a new location with the given [`FileId`] and [`Span`].
    pub fn new(file_id: FileId, span: Span) -> (l: Self)
        ensures
            l.file_id == file_id,
            l.span == span,
    {
        Location { file_id, span }
    }

    /// Returns the [`Span`] within this location.
    pub fn span(&self) -> (s: Span)
        ensures
            s == self.span,
    {
        self.span
    }

    /// Returns the [`FileId`] for this location.
    pub fn file_id(&self) -> (f: FileId)
        ensures
            f == self.file_id,
    {
        self.file_id
    }
}

impl Default for Location {
    /// The empty location: the empty span in source unit zero.
    fn default() -> (l: Self)
        ensures
            l.file_id == 0,
            l.span == Span(0, 0),
    {
        Location { file_id: 0, span: Span(0, 0) }
    }
}

/// Utilities for types that carry a [`Location`].
pub trait Located: Sized {
    /// The location this item is from.
    spec fn spec_location(&self) -> Location;

    /// Returns the location this item is from.
    fn location(&self) -> (l: Location)
        ensures
            l == self.spec_location(),
    ;

    /// Returns the span this item originates from.
    fn span(&self) -> (s: Span)
        ensures
            s == self.spec_location().span,
    {
        self.location().span()
    }

    /// Returns the file id this item originates from.
    fn file_id(&self) -> (f: FileId)
        ensures
            f == self.spec_location().file_id,
    {
        self.location().file_id()
    }

    /// Creates a primary label for diagnostics with this item's location.
    fn primary(&self, message: String) -> (l: Label)
        ensures
            l.role == LabelRole::Primary,
            l.location == self.spec_location(),
            l.message == message,
    {
        Label::primary(self.location(), message)
    }

    /// Creates a secondary label for diagnostics with this item's location.
    fn secondary(&self, message: String) -> (l: Label)
        ensures
            l.role == LabelRole::Secondary,
            l.location == self.spec_location(),
            l.message == message,
    {
        Label::secondary(self.location(), message)
    }
}

impl Located for Location {
    open spec fn spec_location(&self) -> Location {
        *self
    }

    fn location(&self) -> (l: Location) {
        *self
    }
}

} // verus!
