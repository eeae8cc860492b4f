//! Errors in DML files, and the diagnostics that a client gets of them.
use crate::collections::Keyed;
use crate::path::{FilePath, PathView};
use crate::span::{Column, Position, Row, ZeroRange};
use crate::text::opt_text;
use vstd::multiset::Multiset;
use vstd::prelude::*;
use vstd::string::*;

verus! {

/// A range of a file.
pub struct ZeroSpan {
    pub range: ZeroRange,
    pub file: FilePath,
}

/// What a span says.
pub struct SpanView {
    pub range: ZeroRange,
    pub file: PathView,
}

impl View for ZeroSpan {
    type V = SpanView;

    open spec fn view(&self) -> SpanView {
        SpanView { range: self.range, file: self.file@ }
    }
}

impl ZeroSpan {
    /// A copy of the span.
    pub fn copy(&self) -> (copy: Self)
        ensures
            copy@ == self@,
    {
        ZeroSpan { range: self.range, file: self.file.duplicate() }
    }

    /// Where the span starts.
    pub fn start_position(&self) -> (position: FilePosition)
        ensures
            position.position.row == self.range.row_start,
            position.position.col == self.range.col_start,
            position.file@ == self.file@,
    {
        FilePosition { position: self.range.start(), file: self.file.duplicate() }
    }
}

/// A place in a file.
pub struct FilePosition {
    pub position: Position,
    pub file: FilePath,
}

/// How severe a diagnostic is.
#[derive(Clone, Copy, PartialEq, Eq, Structural, Debug, Hash)]
pub enum DiagnosticSeverity {
    Error,
    Warning,
    Information,
    Hint,
}

/// An error in a file.
pub struct DMLError {
    pub span: ZeroSpan,
    pub description: String,
    pub severity: Option<DiagnosticSeverity>,
    pub related: Vec<(ZeroSpan, String)>,
}

/// What an error says.
pub struct ErrorView {
    pub span: SpanView,
    pub description: Seq<char>,
    pub severity: Option<DiagnosticSeverity>,
    pub related: Seq<(SpanView, Seq<char>)>,
}

/// What the places that relate to an error say.
pub open spec fn related_views(related: Seq<(ZeroSpan, String)>) -> Seq<(SpanView, Seq<char>)> {
    related.map_values(|r: (ZeroSpan, String)| (r.0@, r.1@))
}

impl View for DMLError {
    type V = ErrorView;

    open spec fn view(&self) -> ErrorView {
        ErrorView {
            span: self.span@,
            description: self.description@,
            severity: self.severity,
            related: related_views(self.related@),
        }
    }
}

/// What a list of errors says.
pub open spec fn error_views(errors: Seq<DMLError>) -> Seq<ErrorView> {
    errors.map_values(|e: DMLError| e@)
}

impl DMLError {
    /// A copy of the error.
    pub fn copy(&self) -> (copy: Self)
        ensures
            copy@ == self@,
    {
        let mut related: Vec<(ZeroSpan, String)> = Vec::new();
        let mut i: usize = 0;
        while i < self.related.len()
            invariant
                i <= self.related@.len(),
                related@.len() == i,
                forall|j: int|
                    0 <= j < i ==> (#[trigger] related@[j]).0@ == self.related@[j].0@
                        && related@[j].1@ == self.related@[j].1@,
            decreases self.related@.len() - i,
        {
            related.push((self.related[i].0.copy(), self.related[i].1.clone()));
            i += 1;
        }
        assert(related_views(related@) =~= related_views(self.related@));
        DMLError {
            span: self.span.copy(),
            description: self.description.clone(),
            severity: self.severity,
            related,
        }
    }

    /// The error, as one that the named source reports.
    pub fn with_source(self, source: &'static str) -> (sourced: SourcedDMLError)
        ensures
            sourced@ == (SourcedView { error: self@, source: source@ }),
    {
        SourcedDMLError { error: self, source }
    }
}

/// An error together with the part of the server that reports it.
pub struct SourcedDMLError {
    pub error: DMLError,
    pub source: &'static str,
}

/// What an error with its source says.
pub struct SourcedView {
    pub error: ErrorView,
    pub source: Seq<char>,
}

impl View for SourcedDMLError {
    type V = SourcedView;

    open spec fn view(&self) -> SourcedView {
        SourcedView { error: self.error@, source: self.source@ }
    }
}

/// What a list of errors with their sources says.
pub open spec fn sourced_views(errors: Seq<SourcedDMLError>) -> Seq<SourcedView> {
    errors.map_values(|e: SourcedDMLError| e@)
}

/// A place in a document, as the protocol has it.
#[derive(Clone, Copy, PartialEq, Eq, Structural, Debug, Hash)]
pub struct DocumentPosition {
    pub line: u32,
    pub character: u32,
}

/// A range of a document, as the protocol has it.
#[derive(Clone, Copy, PartialEq, Eq, Structural, Debug, Hash)]
pub struct DocumentRange {
    pub start: DocumentPosition,
    pub end: DocumentPosition,
}

/// A range of a document that lies in a file.
pub struct Location {
    pub file: FilePath,
    pub range: DocumentRange,
}

/// Something that relates to a diagnostic.
pub struct DiagnosticRelatedInformation {
    pub location: Location,
    pub message: String,
}

/// A diagnostic for a client.
pub struct Diagnostic {
    pub range: DocumentRange,
    pub severity: Option<DiagnosticSeverity>,
    pub code: Option<String>,
    pub source: Option<String>,
    pub message: String,
    pub related_information: Option<Vec<DiagnosticRelatedInformation>>,
    pub tags: Option<Vec<u32>>,
}

/// What a piece of related information says.
pub struct RelatedView {
    pub file: PathView,
    pub range: DocumentRange,
    pub message: Seq<char>,
}

/// What a diagnostic says.
pub struct DiagnosticView {
    pub range: DocumentRange,
    pub severity: Option<DiagnosticSeverity>,
    pub code: Option<Seq<char>>,
    pub source: Option<Seq<char>>,
    pub message: Seq<char>,
    pub related_information: Option<Seq<RelatedView>>,
    pub tags: Option<Seq<u32>>,
}

impl View for Diagnostic {
    type V = DiagnosticView;

    open spec fn view(&self) -> DiagnosticView {
        DiagnosticView {
            range: self.range,
            severity: self.severity,
            code: opt_text(self.code),
            source: opt_text(self.source),
            message: self.message@,
            related_information: match self.related_information {
                Some(information) => Some(related_information(information@)),
                None => None,
            },
            tags: match self.tags {
                Some(tags) => Some(tags@),
                None => None,
            },
        }
    }
}

/// What a list of diagnostics says.
pub open spec fn diagnostic_views(diagnostics: Seq<Diagnostic>) -> Seq<DiagnosticView> {
    diagnostics.map_values(|d: Diagnostic| d@)
}

/// The range, as the protocol has it.
pub open spec fn document_range(range: ZeroRange) -> DocumentRange {
    DocumentRange {
        start: DocumentPosition { line: range.row_start.0, character: range.col_start.0 },
        end: DocumentPosition { line: range.row_end.0, character: range.col_end.0 },
    }
}

/// Turns a range into one of the protocol.
pub fn dls_to_range(range: ZeroRange) -> (converted: DocumentRange)
    ensures
        converted == document_range(range),
{
    DocumentRange {
        start: DocumentPosition { line: range.row_start.0, character: range.col_start.0 },
        end: DocumentPosition { line: range.row_end.0, character: range.col_end.0 },
    }
}

/// The position, counted as the library does.
pub open spec fn position_in_rows(position: DocumentPosition) -> Position {
    Position { row: Row(position.line), col: Column(position.character) }
}

/// Turns a position of the protocol into one of the library.
pub fn position_to_dls(position: DocumentPosition) -> (converted: Position)
    ensures
        converted == position_in_rows(position),
{
    Position { row: Row(position.line), col: Column(position.character) }
}

/// Turns a range of the protocol into one of the library.
pub fn range_to_dls(range: DocumentRange) -> (converted: ZeroRange)
    ensures
        document_range(converted) == range,
{
    ZeroRange {
        row_start: Row(range.start.line),
        row_end: Row(range.end.line),
        col_start: Column(range.start.character),
        col_end: Column(range.end.character),
    }
}

/// Turns a span into a location of the protocol.
pub fn dls_to_location(span: &ZeroSpan) -> (location: Location)
    ensures
        location.file@ == span.file@,
        location.range == document_range(span.range),
{
    Location { file: span.file.duplicate(), range: dls_to_range(span.range) }
}

/// What related information says.
pub open spec fn related_information(
    information: Seq<DiagnosticRelatedInformation>,
) -> Seq<RelatedView> {
    information.map_values(
        |i: DiagnosticRelatedInformation|
            RelatedView {
                file: i.location.file@,
                range: i.location.range,
                message: i.message@,
            },
    )
}

/// The diagnostic for an error: where it is, how severe, who reports it, what
/// it says, and what relates to it. It carries no code and no tags.
pub open spec fn diagnostic_of(e: SourcedView) -> DiagnosticView {
    DiagnosticView {
        range: document_range(e.error.span.range),
        severity: e.error.severity,
        code: None,
        source: Some(e.source),
        message: e.error.description,
        related_information: Some(
            e.error.related.map_values(
                |r: (SpanView, Seq<char>)|
                    RelatedView { file: r.0.file, range: document_range(r.0.range), message: r.1 },
            ),
        ),
        tags: None,
    }
}

impl SourcedDMLError {
    /// The diagnostic for this error.
    pub fn to_diagnostic(&self) -> (diagnostic: Diagnostic)
        ensures
            diagnostic@ == diagnostic_of(self@),
            diagnostic.severity == self.error.severity,
            diagnostic.message@ == self.error.description@,
            diagnostic.source matches Some(source) && source@ == self.source@,
            diagnostic.range.start.line == self.error.span.range.row_start.0,
            diagnostic.range.start.character == self.error.span.range.col_start.0,
            diagnostic.range.end.line == self.error.span.range.row_end.0,
            diagnostic.range.end.character == self.error.span.range.col_end.0,
            diagnostic.code is None,
            diagnostic.tags is None,
            diagnostic.related_information matches Some(related) && related@.len()
                == self.error.related@.len() && forall|i: int|
                0 <= i < related@.len() ==> {
                    let from = self.error.related@[i];
                    let to = #[trigger] related@[i];
                    &&& to.message@ == from.1@
                    &&& to.location.file@ == from.0.file@
                    &&& to.location.range.start.line == from.0.range.row_start.0
                    &&& to.location.range.start.character == from.0.range.col_start.0
                    &&& to.location.range.end.line == from.0.range.row_end.0
                    &&& to.location.range.end.character == from.0.range.col_end.0
                },
    {
        let mut information: Vec<DiagnosticRelatedInformation> = Vec::new();
        let mut i: usize = 0;
        while i < self.error.related.len()
            invariant
                i <= self.error.related@.len(),
                information@.len() == i,
                forall|j: int|
                    0 <= j < i ==> {
                        let from = self.error.related@[j];
                        let to = #[trigger] information@[j];
                        &&& to.location.file@ == from.0.file@
                        &&& to.location.range == document_range(from.0.range)
                        &&& to.message@ == from.1@
                    },
            decreases self.error.related@.len() - i,
        {
            let (span, description) = &self.error.related[i];
            information.push(
                DiagnosticRelatedInformation {
                    location: dls_to_location(span),
                    message: description.clone(),
                },
            );
            i += 1;
        }
        assert(related_information(information@) =~= diagnostic_of(self@).related_information->0);
        Diagnostic {
            range: dls_to_range(self.error.span.range),
            severity: self.error.severity,
            code: None,
            source: Some(self.source.to_owned()),
            message: self.error.description.clone(),
            related_information: Some(information),
            tags: None,
        }
    }
}

/// Whether errors stand in the order of their ranges.
pub open spec fn in_range_order(errors: Seq<SourcedView>) -> bool {
    forall|i: int, j: int|
        0 <= i < j < errors.len() ==> !(#[trigger] errors[j]).error.span.range.before(
            (#[trigger] errors[i]).error.span.range,
        )
}

/// Putting a value into a sequence puts it into its multiset.
proof fn lemma_insert_multiset<A>(s: Seq<A>, i: int, a: A)
    requires
        0 <= i <= s.len(),
    ensures
        s.insert(i, a).to_multiset() == s.to_multiset().insert(a),
{
    let t = s.insert(i, a);
    t.to_multiset_ensures();
    assert(t.remove(i) =~= s);
    assert(t[i] == a);
    assert(t.contains(a));
    assert(t.to_multiset().remove(a) =~= s.to_multiset());
    assert(t.to_multiset().count(a) > 0);
    assert(t.to_multiset() =~= s.to_multiset().insert(a));
}

/// Puts an error into a list that is in order.
fn insert_by_range(errors: &mut Vec<SourcedDMLError>, error: SourcedDMLError)
    requires
        in_range_order(sourced_views(old(errors)@)),
    ensures
        in_range_order(sourced_views(final(errors)@)),
        sourced_views(final(errors)@).to_multiset() == sourced_views(
            old(errors)@,
        ).to_multiset().insert(error@),
{
    let ghost before = sourced_views(errors@);
    let mut at: usize = errors.len();
    while at > 0 && error.error.span.range.comes_before(&errors[at - 1].error.span.range)
        invariant
            at <= errors@.len(),
            before == sourced_views(errors@),
            in_range_order(before),
            forall|j: int|
                at <= j < before.len() ==> error.error.span.range.before(
                    (#[trigger] before[j]).error.span.range,
                ),
        decreases at,
    {
        assert(before[at - 1] == errors@[at - 1]@);
        at = at - 1;
    }
    let ghost new = error@;
    assert(at > 0 ==> before[at - 1] == errors@[at - 1]@);
    errors.insert(at, error);
    proof {
        lemma_insert_multiset(before, at as int, new);
        let after = sourced_views(errors@);
        assert(after =~= before.insert(at as int, new));
        assert forall|i: int, j: int| 0 <= i < j < after.len() implies !(
        #[trigger] after[j]).error.span.range.before((#[trigger] after[i]).error.span.range) by {
            if i < at && j == at {
                assert(after[i] == before[i]);
                if i < at - 1 {
                    assert(!before[at - 1].error.span.range.before(before[i].error.span.range));
                }
            } else if i == at && j > at {
                assert(after[j] == before[j - 1]);
            } else if i < at && j < at {
                assert(after[i] == before[i] && after[j] == before[j]);
            } else if i < at && j > at {
                assert(after[i] == before[i] && after[j] == before[j - 1]);
            } else {
                assert(after[i] == before[i - 1] && after[j] == before[j - 1]);
            }
        }
    }
}

/// Puts errors in the order of their ranges.
pub fn sort_by_range(errors: Vec<SourcedDMLError>) -> (sorted: Vec<SourcedDMLError>)
    ensures
        in_range_order(sourced_views(sorted@)),
        sourced_views(sorted@).to_multiset() == sourced_views(errors@).to_multiset(),
{
    let mut rest = errors;
    let mut sorted: Vec<SourcedDMLError> = Vec::new();
    let ghost all = sourced_views(errors@);
    proof {
        all.to_multiset_ensures();
        assert(sourced_views(rest@) =~= all);
        assert(sourced_views(sorted@) =~= Seq::<SourcedView>::empty());
        Seq::<SourcedView>::empty().to_multiset_ensures();
        assert(sourced_views(sorted@).to_multiset() =~= Multiset::<SourcedView>::empty());
        assert(sourced_views(rest@).to_multiset().add(sourced_views(sorted@).to_multiset())
            =~= all.to_multiset());
    }
    loop
        invariant
            in_range_order(sourced_views(sorted@)),
            sourced_views(rest@).to_multiset().add(sourced_views(sorted@).to_multiset())
                == all.to_multiset(),
        ensures
            in_range_order(sourced_views(sorted@)),
            sourced_views(sorted@).to_multiset() == all.to_multiset(),
        decreases rest@.len(),
    {
        let ghost was = sourced_views(rest@);
        let ghost done = sourced_views(sorted@);
        match rest.pop() {
            None => {
                assert(was =~= Seq::<SourcedView>::empty());
                assert(was.to_multiset().add(done.to_multiset()) =~= done.to_multiset()) by {
                    was.to_multiset_ensures();
                }
                break;
            },
            Some(error) => {
                let ghost new = error@;
                insert_by_range(&mut sorted, error);
                proof {
                    let left = sourced_views(rest@);
                    assert(was =~= left.push(new));
                    left.to_multiset_ensures();
                    assert(left.to_multiset().add(done.to_multiset().insert(new))
                        =~= left.to_multiset().insert(new).add(done.to_multiset()));
                }
            },
        }
    }
    sorted
}

/// Errors and diagnostics say what their fields hold.
pub proof fn errors_say_what_they_hold(e: SourcedDMLError, d: Diagnostic, i: int)
    ensures
        e@.source == e.source@,
        e@.error.severity == e.error.severity,
        e@.error.description == e.error.description@,
        e@.error.span.range == e.error.span.range,
        e@.error.span.file == e.error.span.file@,
        e@.error.related.len() == e.error.related@.len(),
        0 <= i < e.error.related@.len() ==> e@.error.related[i].1 == e.error.related@[i].1@
            && e@.error.related[i].0.range == e.error.related@[i].0.range
            && e@.error.related[i].0.file == e.error.related@[i].0.file@,
        d@.range == d.range,
        d@.severity == d.severity,
        d@.message == d.message@,
        d@.source is Some == d.source is Some,
        d.source is Some ==> d@.source->0 == d.source->0@,
        d@.code is Some == d.code is Some,
        d@.tags is Some == d.tags is Some,
        d@.related_information is Some == d.related_information is Some,
        d.related_information is Some ==> d@.related_information->0.len()
            == d.related_information->0@.len(),
        d.related_information is Some && 0 <= i < d.related_information->0@.len() ==> {
            let to = d@.related_information->0[i];
            let from = d.related_information->0@[i];
            to.file == from.location.file@ && to.range == from.location.range && to.message
                == from.message@
        },
{
}

/// A position and a range of the protocol are lines for rows and characters for columns.
pub proof fn positions_are_lines_and_characters(position: DocumentPosition, range: ZeroRange)
    ensures
        position_in_rows(position).row.0 == position.line,
        position_in_rows(position).col.0 == position.character,
        document_range(range).start.line == range.row_start.0,
        document_range(range).start.character == range.col_start.0,
        document_range(range).end.line == range.row_end.0,
        document_range(range).end.character == range.col_end.0,
{
}

} // verus!
