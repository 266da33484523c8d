use crate::location::Location;
use vstd::prelude::*;

verus! {

/// How urgent a diagnostic is.  No ordering is computed, but the triage
/// priority is implicitly `Bug` over `Error` over `Warning`.
#[derive(Debug, PartialEq, Eq, Structural, Copy, Clone)]
pub enum Severity {
    /// A defect in the parser itself, not in the user's input.
    Bug,
    /// An error caused by the user's input.
    Error,
    /// A problem with the user's input worth reporting, though not a hard
    /// error.
    Warning,
}

/// The role a label plays within a diagnostic.
#[derive(Debug, PartialEq, Eq, Structural, Copy, Clone)]
pub enum LabelRole {
    /// Marks the location that triggered the diagnostic.
    Primary,
    /// Adds surrounding context.
    Secondary,
}

/// A message anchored to a location, with a primary or secondary role.
#[derive(Debug, Clone)]
pub struct Label {
    /// The role of this label within its diagnostic.
    pub role: LabelRole,
    /// The location the label points at.
    pub location: Location,
    /// The message shown at that location.
    pub message: String,
}

impl Label {
    /// Creates a primary label: the one that marks a diagnostic's
    /// triggering location.
    pub fn primary(location: Location, message: String) -> (l: Label)
        ensures
            l.role == LabelRole::Primary,
            l.location == location,
            l.message == message,
    {
        Label { role: LabelRole::Primary, location, message }
    }

    /// Creates a secondary label, for surrounding context.
    pub fn secondary(location: Location, message: String) -> (l: Label)
        ensures
            l.role == LabelRole::Secondary,
            l.location == location,
            l.message == message,
    {
        Label { role: LabelRole::Secondary, location, message }
    }
}

/// A renderer-independent accumulator for one diagnostic: a severity, a
/// title, an ordered sequence of labels and an ordered sequence of notes.
/// The fluent methods are purely additive — nothing is ever removed — and
/// the final state is read by an external renderer.
#[derive(Debug, Clone)]
pub struct Builder {
    /// How urgent the diagnostic is.
    pub severity: Severity,
    /// The primary title associated with the diagnostic.
    pub title: String,
    /// The located messages of the diagnostic, in the order they were
    /// added.
    pub labels: Vec<Label>,
    /// Additional free-standing remarks, in the order they were added.
    pub notes: Vec<String>,
}

impl Builder {
    /// Creates a new builder with the provided severity and nothing else.
    pub fn new(severity: Severity) -> (b: Builder)
        ensures
            b.severity == severity,
            b.title@ == Seq::<char>::empty(),
            b.labels@ == Seq::<Label>::empty(),
            b.notes@ == Seq::<String>::empty(),
    {
        Builder { severity, title: String::new(), labels: Vec::new(), notes: Vec::new() }
    }

    /// Places the primary title associated with this diagnostic.
    pub fn title(self, name: String) -> (b: Builder)
        ensures
            b.severity == self.severity,
            b.title == name,
            b.labels == self.labels,
            b.notes == self.notes,
    {
        Builder { title: name, ..self }
    }

    /// Adds a label to this diagnostic, to carry information about a
    /// specific location.
    pub fn label(self, label: Label) -> (b: Builder)
        ensures
            b.severity == self.severity,
            b.title == self.title,
            b.labels@ == self.labels@.push(label),
            b.notes == self.notes,
    {
        let mut labels = self.labels;
        labels.push(label);
        Builder { labels, ..self }
    }

    /// Adds a note to this diagnostic, to hand the user additional
    /// information.
    pub fn note(self, message: String) -> (b: Builder)
        ensures
            b.severity == self.severity,
            b.title == self.title,
            b.labels == self.labels,
            b.notes@ == self.notes@.push(message),
    {
        let mut notes = self.notes;
        notes.push(message);
        Builder { notes, ..self }
    }
}

/// The capability every diagnostic value supplies: a severity, and a
/// routine that assembles its presentation into a [`Builder`].  The
/// contract pins `build` down: it sets the title, appends exactly one
/// primary label at the diagnostic's own location carrying its message,
/// and leaves everything already in the builder as it was.  Diagnostic
/// values are plain data, built once and immutable afterwards, so they may
/// be handed to an aggregator on another thread.
pub trait Diag: Sized {
    /// The severity that `severity` reports.
    spec fn spec_severity(&self) -> Severity;

    /// The location of the one primary label `build` appends.
    spec fn spec_location(&self) -> Location;

    /// The message of the one primary label `build` appends.
    spec fn spec_message(&self) -> Seq<char>;

    /// The title `build` gives the diagnostic.
    spec fn spec_title(&self) -> Seq<char>;

    /// Returns the severity of this diagnostic.
    fn severity(&self) -> (s: Severity)
        ensures
            s == self.spec_severity(),
    ;

    /// Assembles the information presented to the user: the title, plus one
    /// primary label at this diagnostic's location, appended to whatever
    /// the builder already holds.
    fn build(&self, builder: Builder) -> (r: Builder)
        ensures
            r.severity == builder.severity,
            r.notes@ == builder.notes@,
            r.title@ == self.spec_title(),
            r.labels@.len() == builder.labels@.len() + 1,
            r.labels@.subrange(0, builder.labels@.len() as int) == builder.labels@,
            r.labels@.last().role == LabelRole::Primary,
            r.labels@.last().location == self.spec_location(),
            r.labels@.last().message@ == self.spec_message(),
    ;
}

} // verus!
