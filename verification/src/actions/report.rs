//! Reporting errors to the client.
use crate::actions::analysis::PathKey;
use crate::actions::compile_info::{resolver_of, roots_are_paths};
use crate::actions::context::InitActionContext;
use crate::collections::{Keyed, VecMap, VecSet};
use crate::effects::{Effect, EffectView, Outbox};
use crate::errors::{
    diagnostic_of, diagnostic_views, in_range_order, sort_by_range, sourced_views, DMLError,
    Diagnostic, DiagnosticView, SourcedDMLError, SourcedView,
};
use crate::path::{CanonPath, FilePath, PathView};
use vstd::prelude::*;
use vstd::string::*;

verus! {

/// The lint findings in a file.
pub struct LintErrors {
    /// Where the file really is.
    pub canon_path: CanonPath,
    pub errors: Vec<DMLError>,
}

/// The errors that the analyses found, by file.
pub struct GatheredErrors {
    pub isolated: VecMap<FilePath, Vec<DMLError>>,
    pub device: VecMap<FilePath, Vec<DMLError>>,
    pub lint: VecMap<FilePath, LintErrors>,
}

/// The paths under which a map holds something, in order.
pub open spec fn files_in<V>(map: VecMap<FilePath, V>) -> Seq<PathView> {
    map.entries().map_values(|e: (FilePath, V)| e.0@)
}

/// Errors that come from this source.
pub open spec fn from_source(errors: Seq<DMLError>, source: Seq<char>) -> Seq<SourcedView> {
    errors.map_values(|e: DMLError| SourcedView { error: e@, source })
}

/// The errors under a path, as ones that come from this source.
pub open spec fn found_in(
    map: Map<PathKey, Vec<DMLError>>,
    file: PathKey,
    source: Seq<char>,
) -> Seq<SourcedView> {
    if map.contains_key(file) {
        from_source(map[file]@, source)
    } else {
        Seq::empty()
    }
}

/// Whether lint findings in the file are shown: linting is on and, where only
/// open files count, the client has the file open.
pub open spec fn lint_shown(ctx: InitActionContext, canon_path: PathKey) -> bool {
    ctx.config.linting_enabled && (!ctx.config.lint_direct_only || ctx.direct_opens@.contains(
        canon_path,
    ))
}

/// What is reported of a file, in no particular order.
pub open spec fn errors_in(
    ctx: InitActionContext,
    gathered: GatheredErrors,
    file: PathKey,
) -> Seq<SourcedView> {
    found_in(gathered.isolated@, file, "dml"@) + found_in(gathered.device@, file, "dml"@) + (
    if gathered.lint@.contains_key(file) && lint_shown(
        ctx,
        gathered.lint@[file].canon_path.key(),
    ) {
        from_source(gathered.lint@[file].errors@, "dml-lint"@)
    } else {
        Seq::empty()
    })
}

/// Whether something is reported of the file, if only that there is nothing.
pub open spec fn is_reported(
    ctx: InitActionContext,
    gathered: GatheredErrors,
    file: PathView,
) -> bool {
    files_in(gathered.isolated).contains(file) || files_in(gathered.device).contains(file) || (
    ctx.config.linting_enabled && files_in(gathered.lint).contains(file))
}

/// Whether the diagnostics are those for the errors, in the order of their
/// ranges.
pub open spec fn diagnostics_for(
    errors: Seq<SourcedView>,
    diagnostics: Seq<DiagnosticView>,
) -> bool {
    exists|sorted: Seq<SourcedView>|
        {
            &&& #[trigger] in_range_order(sorted)
            &&& sorted.to_multiset() == errors.to_multiset()
            &&& diagnostics == sorted.map_values(|e: SourcedView| diagnostic_of(e))
        }
}

/// Whether the effect publishes what is to be reported of a file.
pub open spec fn publishes(
    ctx: InitActionContext,
    gathered: GatheredErrors,
    effect: EffectView,
) -> bool {
    effect matches EffectView::PublishDiagnostics { file, diagnostics } && is_reported(
        ctx,
        gathered,
        file,
    ) && diagnostics_for(errors_in(ctx, gathered, file.components), diagnostics)
}

/// The file whose diagnostics the effect publishes.
pub open spec fn published_file(effect: EffectView) -> PathKey {
    match effect {
        EffectView::PublishDiagnostics { file, diagnostics } => file.components,
        _ => Seq::empty(),
    }
}

/// Whether these are the diagnostics of all files, each file once.
pub open spec fn all_published(
    ctx: InitActionContext,
    gathered: GatheredErrors,
    effects: Seq<EffectView>,
) -> bool {
    &&& forall|i: int| 0 <= i < effects.len() ==> publishes(ctx, gathered, #[trigger] effects[i])
    &&& forall|i: int, j: int|
        0 <= i < j < effects.len() ==> published_file(#[trigger] effects[i]) != published_file(
            #[trigger] effects[j],
        )
    &&& forall|file: PathView| #[trigger]
        is_reported(ctx, gathered, file) ==> exists|i: int|
            0 <= i < effects.len() && published_file(#[trigger] effects[i]) == file.components
}

/// Whether this is a report of all errors: the diagnostics of all files, framed
/// by the notice that they are about to come and the notice that they have
/// come.
pub open spec fn is_report(
    ctx: InitActionContext,
    gathered: GatheredErrors,
    effects: Seq<EffectView>,
) -> bool {
    &&& effects.len() >= 2
    &&& effects.first() == EffectView::BeginDiagnostics
    &&& effects.last() == EffectView::EndDiagnostics
    &&& all_published(ctx, gathered, effects.subrange(1, effects.len() - 1))
}

/// Adds the paths under which a map holds something.
fn add_files<V>(map: &VecMap<FilePath, V>, files: &mut VecSet<FilePath>)
    ensures
        final(files).members().len() >= old(files).members().len(),
        forall|i: int|
            0 <= i < old(files).members().len() ==> final(files).members()[i] == old(
                files,
            ).members()[i],
        forall|i: int|
            old(files).members().len() <= i < final(files).members().len() ==> files_in(
                *map,
            ).contains((#[trigger] final(files).members()[i])@),
        forall|k: PathKey| old(files)@.contains(k) ==> #[trigger] final(files)@.contains(k),
        forall|i: int|
            0 <= i < files_in(*map).len() ==> final(files)@.contains(
                (#[trigger] files_in(*map)[i]).components,
            ),
{
    let ghost before = files.members();
    let ghost had = files@;
    let ghost all = files_in(*map);
    let entries = map.as_vec();
    let mut i: usize = 0;
    while i < entries.len()
        invariant
            i <= entries@.len(),
            entries@ == map.entries(),
            all == files_in(*map),
            files.members().len() >= before.len(),
            forall|j: int| 0 <= j < before.len() ==> files.members()[j] == before[j],
            forall|j: int|
                before.len() <= j < files.members().len() ==> all.contains(
                    (#[trigger] files.members()[j])@,
                ),
            forall|k: PathKey| had.contains(k) ==> #[trigger] files@.contains(k),
            forall|j: int| 0 <= j < i ==> files@.contains((#[trigger] all[j]).components),
        decreases entries@.len() - i,
    {
        let file = entries[i].0.duplicate();
        assert(all[i as int] == file@);
        assert(all.contains(file@));
        let _ = files.insert(file);
        i += 1;
    }
}

/// Adds errors, as ones that come from this source.
fn add_from_source(
    errors: &Vec<DMLError>,
    source: &'static str,
    sourced: &mut Vec<SourcedDMLError>,
)
    ensures
        sourced_views(final(sourced)@) == sourced_views(old(sourced)@) + from_source(
            errors@,
            source@,
        ),
{
    let ghost before = sourced_views(sourced@);
    let ghost all = from_source(errors@, source@);
    let mut i: usize = 0;
    assert(sourced_views(sourced@) =~= before + all.take(0));
    while i < errors.len()
        invariant
            i <= errors@.len(),
            all == from_source(errors@, source@),
            sourced_views(sourced@) == before + all.take(i as int),
        decreases errors@.len() - i,
    {
        let ghost was = sourced@;
        let new = errors[i].copy().with_source(source);
        assert(new@ == all[i as int]);
        sourced.push(new);
        assert(sourced_views(sourced@) =~= sourced_views(was).push(new@));
        assert(all.take(i as int + 1) =~= all.take(i as int).push(all[i as int]));
        assert(sourced_views(sourced@) =~= before + all.take(i as int + 1));
        i += 1;
    }
    assert(all.take(i as int) =~= all);
}

impl InitActionContext {
    /// The errors to be reported of a file.
    fn collect_errors(
        &self,
        gathered: &GatheredErrors,
        file: &FilePath,
    ) -> (errors: Vec<SourcedDMLError>)
        ensures
            sourced_views(errors@) == errors_in(*self, *gathered, file.key()),
    {
        let mut errors: Vec<SourcedDMLError> = Vec::new();
        assert(sourced_views(errors@) =~= Seq::<SourcedView>::empty());
        let ghost first = found_in(gathered.isolated@, file.key(), "dml"@);
        let ghost second = found_in(gathered.device@, file.key(), "dml"@);
        if let Some(found) = gathered.isolated.get(file) {
            add_from_source(found, "dml", &mut errors);
        }
        assert(sourced_views(errors@) =~= first);
        if let Some(found) = gathered.device.get(file) {
            add_from_source(found, "dml", &mut errors);
        }
        assert(sourced_views(errors@) =~= first + second);
        if self.config.linting_enabled {
            if let Some(found) = gathered.lint.get(file) {
                if !self.config.lint_direct_only || self.direct_opens.contains(&found.canon_path) {
                    add_from_source(&found.errors, "dml-lint", &mut errors);
                }
            }
        }
        assert(sourced_views(errors@) =~= errors_in(*self, *gathered, file.key()));
        errors
    }

    /// The diagnostics of a file.
    fn file_diagnostics(
        &self,
        gathered: &GatheredErrors,
        file: &FilePath,
    ) -> (diagnostics: Vec<Diagnostic>)
        ensures
            diagnostics_for(
                errors_in(*self, *gathered, file.key()),
                diagnostic_views(diagnostics@),
            ),
    {
        let errors = self.collect_errors(gathered, file);
        let sorted = sort_by_range(errors);
        let ghost all = sourced_views(sorted@);
        let mut diagnostics: Vec<Diagnostic> = Vec::new();
        let mut i: usize = 0;
        while i < sorted.len()
            invariant
                i <= sorted@.len(),
                all == sourced_views(sorted@),
                diagnostics@.len() == i,
                forall|j: int|
                    0 <= j < i ==> (#[trigger] diagnostics@[j])@ == diagnostic_of(all[j]),
            decreases sorted@.len() - i,
        {
            diagnostics.push(sorted[i].to_diagnostic());
            i += 1;
        }
        assert(diagnostic_views(diagnostics@) =~= all.map_values(
            |e: SourcedView| diagnostic_of(e),
        ));
        assert(in_range_order(all));
        diagnostics
    }

    /// The files of which something is reported.
    fn reported_files(&self, gathered: &GatheredErrors) -> (files: VecSet<FilePath>)
        ensures
            forall|i: int|
                0 <= i < files.members().len() ==> is_reported(
                    *self,
                    *gathered,
                    (#[trigger] files.members()[i])@,
                ),
            forall|file: PathView| #[trigger]
                is_reported(*self, *gathered, file) ==> files@.contains(file.components),
    {
        let mut files: VecSet<FilePath> = VecSet::new();
        assert(files.members().len() == files.keys().len());
        add_files(&gathered.isolated, &mut files);
        let ghost one = files;
        add_files(&gathered.device, &mut files);
        let ghost two = files;
        if self.config.linting_enabled {
            add_files(&gathered.lint, &mut files);
        }
        proof {
            assert forall|i: int| 0 <= i < files.members().len() implies is_reported(
                *self,
                *gathered,
                (#[trigger] files.members()[i])@,
            ) by {
                if i < one.members().len() {
                    assert(files.members()[i] == one.members()[i]);
                    assert(files_in(gathered.isolated).contains(one.members()[i]@));
                } else if i < two.members().len() {
                    assert(files.members()[i] == two.members()[i]);
                    assert(files_in(gathered.device).contains(two.members()[i]@));
                } else {
                    assert(files_in(gathered.lint).contains(files.members()[i]@));
                }
            }
            assert forall|file: PathView| #[trigger]
                is_reported(*self, *gathered, file) implies files@.contains(file.components) by {
                if files_in(gathered.isolated).contains(file) {
                    let i = choose|i: int|
                        0 <= i < files_in(gathered.isolated).len() && files_in(
                            gathered.isolated,
                        )[i] == file;
                    assert(one@.contains(file.components));
                    assert(two@.contains(file.components));
                } else if files_in(gathered.device).contains(file) {
                    let i = choose|i: int|
                        0 <= i < files_in(gathered.device).len() && files_in(gathered.device)[i]
                            == file;
                    assert(two@.contains(file.components));
                } else {
                    let i = choose|i: int|
                        0 <= i < files_in(gathered.lint).len() && files_in(gathered.lint)[i]
                            == file;
                    assert(files@.contains(file.components));
                }
            }
        }
        files
    }

    /// Has the stored analyses brought up to date and their errors gathered
    /// under the active contexts, for [`Self::report_errors`] to report.
    pub fn start_report(&self, out: &mut Outbox)
        requires
            roots_are_paths(self.workspace_roots@),
        ensures
            final(out)@ == old(out)@ + seq![
                EffectView::UpdateAnalysis {
                    resolver: resolver_of(
                        self.client_capabilities.root,
                        self.workspace_roots@,
                        self.compilation_info,
                    ),
                },
                EffectView::GatherErrors { contexts: self.device_active_contexts.views() },
            ],
    {
        let ghost before = out@;
        self.update_analysis(out);
        let contexts = self.device_active_contexts.copy();
        out.push(Effect::GatherErrors { contexts });
        assert(out@ =~= before + seq![
            EffectView::UpdateAnalysis {
                resolver: resolver_of(
                    self.client_capabilities.root,
                    self.workspace_roots@,
                    self.compilation_info,
                ),
            },
            EffectView::GatherErrors { contexts: self.device_active_contexts.views() },
        ]);
    }

    /// Reports what the analyses found: the errors of each file in the order
    /// of their ranges, without lint findings that are not to be shown.
    pub fn report_errors(&self, gathered: &GatheredErrors, out: &mut Outbox)
        ensures
            final(out)@.len() >= old(out)@.len(),
            final(out)@.take(old(out)@.len() as int) == old(out)@,
            is_report(*self, *gathered, final(out)@.skip(old(out)@.len() as int)),
    {
        let ghost before = out@;
        let ghost n = before.len() as int;
        out.push(Effect::BeginDiagnostics);
        let ghost started = out@;
        let files = self.reported_files(gathered);
        let items = files.as_vec();
        let ghost mut published: Seq<EffectView> = Seq::empty();
        let mut i: usize = 0;
        assert(out@ =~= started + published);
        while i < items.len()
            invariant
                i <= items@.len(),
                items@ == files.members(),
                files.keys().no_duplicates(),
                forall|j: int|
                    0 <= j < items@.len() ==> is_reported(
                        *self,
                        *gathered,
                        (#[trigger] items@[j])@,
                    ),
                published.len() == i,
                out@ == started + published,
                forall|j: int| 0 <= j < i ==> publishes(*self, *gathered, #[trigger] published[j]),
                forall|j: int|
                    0 <= j < i ==> published_file(#[trigger] published[j]) == items@[j].key(),
            decreases items@.len() - i,
        {
            let file = &items[i];
            let diagnostics = self.file_diagnostics(gathered, file);
            let effect = Effect::PublishDiagnostics { file: file.duplicate(), diagnostics };
            assert(publishes(*self, *gathered, effect@));
            proof {
                published = published.push(effect@);
            }
            out.push(effect);
            assert(out@ =~= started + published);
            i += 1;
        }
        out.push(Effect::EndDiagnostics);
        proof {
            let report = out@.skip(n);
            assert(out@.take(n) =~= before);
            assert(report.subrange(1, report.len() - 1) =~= published);
            assert forall|a: int, b: int| 0 <= a < b < published.len() implies published_file(
                #[trigger] published[a],
            ) != published_file(#[trigger] published[b]) by {
                assert(files.keys()[a] == items@[a].key());
                assert(files.keys()[b] == items@[b].key());
            }
            assert forall|file: PathView| #[trigger]
                is_reported(*self, *gathered, file) implies exists|a: int|
                0 <= a < published.len() && published_file(#[trigger] published[a])
                    == file.components by {
                let a = choose|a: int|
                    0 <= a < files.keys().len() && files.keys()[a] == file.components;
                assert(files.keys()[a] == items@[a].key());
                assert(published_file(published[a]) == file.components);
            }
            assert(all_published(*self, *gathered, published));
        }
    }
}

} // verus!
