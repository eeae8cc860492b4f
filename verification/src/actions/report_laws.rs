//! What holds of every report, told by the errors that were gathered.
use crate::actions::analysis::PathKey;
use crate::actions::context::InitActionContext;
use crate::actions::report::{
    all_published, diagnostics_for, errors_in, files_in, is_report, is_reported, published_file,
    publishes, GatheredErrors,
};
use crate::effects::EffectView;
use crate::errors::{diagnostic_of, in_range_order, DMLError, DiagnosticView, SourcedView};
use crate::path::PathView;
use crate::span::ZeroRange;
use vstd::multiset::Multiset;
use vstd::prelude::*;
use vstd::string::*;

verus! {

/// A diagnostic says what its error says: where it is, how severe, who reports it,
/// and in which words; and what relates to it likewise.
pub proof fn diagnostics_say_what_errors_say(e: SourcedView, i: int)
    ensures
        diagnostic_of(e).severity == e.error.severity,
        diagnostic_of(e).message == e.error.description,
        diagnostic_of(e).source == Some(e.source),
        diagnostic_of(e).code is None,
        diagnostic_of(e).tags is None,
        diagnostic_of(e).range.start.line == e.error.span.range.row_start.0,
        diagnostic_of(e).range.start.character == e.error.span.range.col_start.0,
        diagnostic_of(e).range.end.line == e.error.span.range.row_end.0,
        diagnostic_of(e).range.end.character == e.error.span.range.col_end.0,
        diagnostic_of(e).related_information is Some,
        diagnostic_of(e).related_information->0.len() == e.error.related.len(),
        0 <= i < e.error.related.len() ==> {
            let related = diagnostic_of(e).related_information->0[i];
            &&& related.message == e.error.related[i].1
            &&& related.file == e.error.related[i].0.file
            &&& related.range.start.line == e.error.related[i].0.range.row_start.0
            &&& related.range.start.character == e.error.related[i].0.range.col_start.0
            &&& related.range.end.line == e.error.related[i].0.range.row_end.0
            &&& related.range.end.character == e.error.related[i].0.range.col_end.0
        },
{
}

/// What is reported of a file are the errors of its analysis on its own and of the
/// devices, from `dml`, each as often as it was found; and, if linting is on and
/// the file is open or need not be, its lint findings, from `dml-lint`. Nothing
/// else.
pub proof fn errors_of_a_file(
    ctx: InitActionContext,
    gathered: GatheredErrors,
    file: PathKey,
    isolated: Seq<DMLError>,
    device: Seq<DMLError>,
    lint: Seq<DMLError>,
)
    requires
        gathered.isolated@.contains_key(file) ==> isolated == gathered.isolated@[file]@,
        !gathered.isolated@.contains_key(file) ==> isolated.len() == 0,
        gathered.device@.contains_key(file) ==> device == gathered.device@[file]@,
        !gathered.device@.contains_key(file) ==> device.len() == 0,
        gathered.lint@.contains_key(file) && ctx.config.linting_enabled && (
        !ctx.config.lint_direct_only || ctx.direct_opens@.contains(
            gathered.lint@[file].canon_path@.components,
        )) ==> lint == gathered.lint@[file].errors@,
        !gathered.lint@.contains_key(file) || !ctx.config.linting_enabled || (
        ctx.config.lint_direct_only && !ctx.direct_opens@.contains(
            gathered.lint@[file].canon_path@.components,
        )) ==> lint.len() == 0,
    ensures
        errors_in(ctx, gathered, file) == isolated.map_values(
            |e: DMLError| SourcedView { error: e@, source: "dml"@ },
        ) + device.map_values(|e: DMLError| SourcedView { error: e@, source: "dml"@ })
            + lint.map_values(|e: DMLError| SourcedView { error: e@, source: "dml-lint"@ }),
{
    assert(errors_in(ctx, gathered, file) =~= isolated.map_values(
        |e: DMLError| SourcedView { error: e@, source: "dml"@ },
    ) + device.map_values(|e: DMLError| SourcedView { error: e@, source: "dml"@ })
        + lint.map_values(|e: DMLError| SourcedView { error: e@, source: "dml-lint"@ }));
}

/// The diagnostics of errors are as many as the errors, each error has one that
/// says what it says, each diagnostic says what one of the errors says, and they
/// come in the order of their rows.
pub proof fn every_error_has_its_diagnostic(
    errors: Seq<SourcedView>,
    diagnostics: Seq<DiagnosticView>,
    e: SourcedView,
    i: int,
    j: int,
)
    requires
        diagnostics_for(errors, diagnostics),
    ensures
        diagnostics.len() == errors.len(),
        errors.contains(e) ==> diagnostics.contains(diagnostic_of(e)),
        0 <= i < diagnostics.len() ==> exists|k: int|
            0 <= k < errors.len() && diagnostics[i] == diagnostic_of(#[trigger] errors[k]),
        0 <= i < j < diagnostics.len() ==> diagnostics[i].range.start.line
            <= diagnostics[j].range.start.line,
        0 <= i < j < diagnostics.len() && diagnostics[i].range.start.line
            == diagnostics[j].range.start.line ==> diagnostics[i].range.start.character
            <= diagnostics[j].range.start.character,
{
    let sorted = choose|sorted: Seq<SourcedView>|
        {
            &&& #[trigger] in_range_order(sorted)
            &&& sorted.to_multiset() == errors.to_multiset()
            &&& diagnostics == sorted.map_values(|e: SourcedView| diagnostic_of(e))
        };
    sorted.to_multiset_ensures();
    errors.to_multiset_ensures();
    assert(sorted.len() == errors.len());
    if errors.contains(e) {
        assert(errors.to_multiset().count(e) > 0);
        assert(sorted.contains(e));
        let k = choose|k: int| 0 <= k < sorted.len() && sorted[k] == e;
        assert(diagnostics[k] == diagnostic_of(e));
    }
    if 0 <= i < diagnostics.len() {
        assert(diagnostics[i] == diagnostic_of(sorted[i]));
        assert(sorted.contains(sorted[i]));
        assert(sorted.to_multiset().count(sorted[i]) > 0);
        assert(errors.contains(sorted[i]));
        let k = choose|k: int| 0 <= k < errors.len() && errors[k] == sorted[i];
        assert(diagnostics[i] == diagnostic_of(errors[k]));
    }
    if 0 <= i < j < diagnostics.len() {
        assert(diagnostics[i] == diagnostic_of(sorted[i]));
        assert(diagnostics[j] == diagnostic_of(sorted[j]));
        assert(!sorted[j].error.span.range.before(sorted[i].error.span.range));
    }
}

/// Ranges are ordered by where they start and then by where they end, of two places
/// the one on the lower row coming first, on one row the one in the lower column.
pub proof fn ranges_are_ordered_by_rows_and_columns(a: ZeroRange, b: ZeroRange)
    ensures
        a.row_start.0 < b.row_start.0 ==> a.before(b),
        a.row_start.0 == b.row_start.0 && a.col_start.0 < b.col_start.0 ==> a.before(b),
        a.row_start.0 == b.row_start.0 && a.col_start.0 == b.col_start.0 && a.row_end.0
            < b.row_end.0 ==> a.before(b),
        a.row_start.0 == b.row_start.0 && a.col_start.0 == b.col_start.0 && a.row_end.0
            == b.row_end.0 && a.col_end.0 < b.col_end.0 ==> a.before(b),
        a.before(b) ==> !b.before(a),
{
}

/// A report tells that diagnostics come, publishes those of every file with errors
/// of its own or of devices, and of every linted file if linting is on, each file
/// once under its own path, and tells that all have come.
pub proof fn reports_publish_every_file(
    ctx: InitActionContext,
    gathered: GatheredErrors,
    effects: Seq<EffectView>,
    n: int,
)
    requires
        is_report(ctx, gathered, effects),
    ensures
        effects.len() >= 2,
        effects[0] is BeginDiagnostics,
        effects[effects.len() - 1] is EndDiagnostics,
        0 <= n < gathered.isolated.entries().len() ==> exists|i: int|
            0 < i < effects.len() - 1 && (#[trigger] effects[i] matches
                EffectView::PublishDiagnostics { file, diagnostics } && file.components
                == gathered.isolated.entries()[n].0@.components),
        0 <= n < gathered.device.entries().len() ==> exists|i: int|
            0 < i < effects.len() - 1 && (#[trigger] effects[i] matches
                EffectView::PublishDiagnostics { file, diagnostics } && file.components
                == gathered.device.entries()[n].0@.components),
        ctx.config.linting_enabled && 0 <= n < gathered.lint.entries().len() ==> exists|i: int|
            0 < i < effects.len() - 1 && (#[trigger] effects[i] matches
                EffectView::PublishDiagnostics { file, diagnostics } && file.components
                == gathered.lint.entries()[n].0@.components),
{
    let inner = effects.subrange(1, effects.len() - 1);
    assert(all_published(ctx, gathered, inner));
    if 0 <= n < gathered.isolated.entries().len() {
        let file = gathered.isolated.entries()[n].0@;
        assert(files_in(gathered.isolated)[n] == file);
        assert(is_reported(ctx, gathered, file));
        lemma_found(ctx, gathered, effects, file);
    }
    if 0 <= n < gathered.device.entries().len() {
        let file = gathered.device.entries()[n].0@;
        assert(files_in(gathered.device)[n] == file);
        assert(is_reported(ctx, gathered, file));
        lemma_found(ctx, gathered, effects, file);
    }
    if ctx.config.linting_enabled && 0 <= n < gathered.lint.entries().len() {
        let file = gathered.lint.entries()[n].0@;
        assert(files_in(gathered.lint)[n] == file);
        assert(is_reported(ctx, gathered, file));
        lemma_found(ctx, gathered, effects, file);
    }
}

/// A file of which something is reported is published.
proof fn lemma_found(
    ctx: InitActionContext,
    gathered: GatheredErrors,
    effects: Seq<EffectView>,
    file: PathView,
)
    requires
        is_report(ctx, gathered, effects),
        is_reported(ctx, gathered, file),
    ensures
        exists|i: int|
            0 < i < effects.len() - 1 && (#[trigger] effects[i] matches
                EffectView::PublishDiagnostics { file: f, diagnostics } && f.components
                == file.components),
{
    let inner = effects.subrange(1, effects.len() - 1);
    assert(all_published(ctx, gathered, inner));
    let i = choose|i: int|
        0 <= i < inner.len() && published_file(#[trigger] inner[i]) == file.components;
    assert(publishes(ctx, gathered, inner[i]));
    assert(effects[i + 1] == inner[i]);
}

/// Whatever a report publishes between its first and its last effect are the
/// diagnostics of a file with errors or lint findings, those of the errors to be
/// reported of it; and no file is published twice.
pub proof fn reports_publish_the_files_errors(
    ctx: InitActionContext,
    gathered: GatheredErrors,
    effects: Seq<EffectView>,
    i: int,
    j: int,
)
    requires
        is_report(ctx, gathered, effects),
        0 < i < effects.len() - 1,
        0 < j < effects.len() - 1,
    ensures
        effects[i] is PublishDiagnostics,
        diagnostics_for(
            errors_in(ctx, gathered, effects[i]->PublishDiagnostics_file.components),
            effects[i]->PublishDiagnostics_diagnostics,
        ),
        ({
            let file = effects[i]->PublishDiagnostics_file;
            ||| exists|n: int|
                0 <= n < gathered.isolated.entries().len() && (
                #[trigger] gathered.isolated.entries()[n]).0@ == file
            ||| exists|n: int|
                0 <= n < gathered.device.entries().len() && (
                #[trigger] gathered.device.entries()[n]).0@ == file
            ||| ctx.config.linting_enabled && exists|n: int|
                0 <= n < gathered.lint.entries().len() && (
                #[trigger] gathered.lint.entries()[n]).0@ == file
        }),
        i != j ==> effects[i]->PublishDiagnostics_file.components
            != effects[j]->PublishDiagnostics_file.components,
{
    let inner = effects.subrange(1, effects.len() - 1);
    assert(inner[i - 1] == effects[i]);
    assert(inner[j - 1] == effects[j]);
    assert(publishes(ctx, gathered, inner[i - 1]));
    assert(publishes(ctx, gathered, inner[j - 1]));
    if i < j {
        assert(published_file(inner[i - 1]) != published_file(inner[j - 1]));
    } else if j < i {
        assert(published_file(inner[j - 1]) != published_file(inner[i - 1]));
    }
    let file = effects[i]->PublishDiagnostics_file;
    assert(is_reported(ctx, gathered, file));
    if files_in(gathered.isolated).contains(file) {
        let n = choose|n: int|
            0 <= n < files_in(gathered.isolated).len() && files_in(gathered.isolated)[n] == file;
        assert(gathered.isolated.entries()[n].0@ == file);
    } else if files_in(gathered.device).contains(file) {
        let n = choose|n: int|
            0 <= n < files_in(gathered.device).len() && files_in(gathered.device)[n] == file;
        assert(gathered.device.entries()[n].0@ == file);
    } else {
        let n = choose|n: int|
            0 <= n < files_in(gathered.lint).len() && files_in(gathered.lint)[n] == file;
        assert(gathered.lint.entries()[n].0@ == file);
    }
}

} // verus!
