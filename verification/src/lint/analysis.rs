//! The lint analysis of a file.
use crate::collections::Keyed;
use crate::errors::{
    error_views, related_views, DMLError, DiagnosticSeverity, ErrorView, SpanView, ZeroSpan,
};
use crate::lint::check::{begin_style_check, reported, FileError, StyleFindings};
use crate::lint::config::LintCfg;
use crate::lint::findings::{findings, DMLStyleError, Finding};
use crate::path::{CanonPath, FilePath, PathView};
use crate::text::lines_of;
use vstd::prelude::*;
use vstd::string::*;

verus! {

/// What linting a file came to.
pub struct LinterAnalysis {
    pub path: CanonPath,
    pub errors: Vec<DMLError>,
}

/// The error that a finding becomes: a warning in the file, which names its
/// rule where the configuration asks for it.
pub open spec fn lint_error(f: Finding, file: PathView, annotate: bool) -> ErrorView {
    ErrorView {
        span: SpanView { range: f.range, file },
        description: if annotate {
            f.rule_ident + ": "@ + f.description
        } else {
            f.description
        },
        severity: Some(DiagnosticSeverity::Warning),
        related: Seq::empty(),
    }
}

/// The errors that findings become.
pub open spec fn lint_errors(all: Seq<Finding>, file: PathView, annotate: bool) -> Seq<ErrorView> {
    all.map_values(|f: Finding| lint_error(f, file, annotate))
}

impl DMLStyleError {
    /// The finding as a warning in a file, with a description of its own.
    fn warning_with_file(&self, path: &FilePath, description: String) -> (error: DMLError)
        ensures
            error.span@ == (SpanView { range: self@.range, file: path@ }),
            error.description@ == description@,
            error.severity == Some(DiagnosticSeverity::Warning),
            error.related@.len() == 0,
    {
        DMLError {
            span: ZeroSpan { range: self.error.range, file: path.duplicate() },
            description,
            severity: Some(DiagnosticSeverity::Warning),
            related: Vec::new(),
        }
    }
}

impl LinterAnalysis {
    /// Lints a file: `checks` is what the rules that `cfg` turns on find in
    /// it, `canon_path` where `path` leads to, `text` what it holds.
    pub fn new(
        path: &FilePath,
        canon_path: CanonPath,
        text: &str,
        cfg: &LintCfg,
        checks: StyleFindings,
    ) -> (result: Result<LinterAnalysis, FileError>)
        ensures
            result matches Ok(analysis) && analysis.path == canon_path && error_views(
                analysis.errors@,
            ) == lint_errors(
                reported(checks.all(), lines_of(text@)),
                path@,
                cfg.annotate_lints,
            ),
    {
        let found = match begin_style_check(checks, text) {
            Ok(found) => found,
            Err(e) => {
                return Err(e);
            },
        };
        let ghost all = findings(found@);
        let mut errors: Vec<DMLError> = Vec::new();
        let mut i: usize = 0;
        while i < found.len()
            invariant
                i <= found@.len(),
                all == findings(found@),
                errors@.len() == i,
                forall|j: int|
                    0 <= j < i ==> (#[trigger] errors@[j])@ == lint_error(
                        all[j],
                        path@,
                        cfg.annotate_lints,
                    ),
            decreases found@.len() - i,
        {
            let entry = &found[i];
            assert(all[i as int] == entry@);
            let description = if cfg.annotate_lints {
                let mut description = entry.rule_ident.to_owned();
                description.append(": ");
                description.append(entry.error.description.as_str());
                description
            } else {
                entry.error.description.clone()
            };
            let error = entry.warning_with_file(path, description);
            assert(related_views(error.related@) =~= Seq::empty());
            errors.push(error);
            i += 1;
        }
        assert(error_views(errors@) =~= lint_errors(all, path@, cfg.annotate_lints));
        Ok(LinterAnalysis { path: canon_path, errors })
    }

    /// The analysis in words: which file it is of.
    pub fn to_text(&self) -> (text: String)
        ensures
            text@ == "LinterAnalysis {\n\tpath: "@ + self.path@.text + "\n\n}\n"@,
    {
        let mut text = "LinterAnalysis {\n\tpath: ".to_owned();
        text.append(self.path.text.as_str());
        text.append("\n\n}\n");
        text
    }
}

} // verus!
