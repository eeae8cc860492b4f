//! What becomes of the findings of the lint rules in a file.
use crate::lint::annotations::{
    allowed_by_row, allowed_everywhere, annotation_findings, kinds_of, obtain_lint_annotations,
    LintAnnotation, LintAnnotations,
};
use crate::lint::findings::{findings, DMLStyleError, Finding};
use crate::lint::rules::RuleType;
use crate::text::lines_of;
use vstd::prelude::*;

verus! {

/// What the rules say of a file when they know nothing of its annotations.
pub struct StyleFindings {
    /// What the rules on the syntax tree find, in the order of the tree.
    pub tree: Vec<DMLStyleError>,
    /// What the rules on single lines find, by row.
    pub lines: Vec<LineFindings>,
}

/// What the rules on single lines find on one line.
pub struct LineFindings {
    pub indent_no_tabs: Vec<DMLStyleError>,
    pub long_lines: Vec<DMLStyleError>,
    pub nsp_trailing: Vec<DMLStyleError>,
}

/// Data that is handed down the syntax tree to where the rules use it.
#[derive(Clone, Copy, PartialEq, Eq, Structural, Debug)]
pub struct AuxParams {
    /// How deep a node is nested, for the rules on indentation.
    pub depth: u32,
}

/// A failure to get at a file.
#[derive(Debug)]
pub struct FileError {
    pub description: String,
}

impl LineFindings {
    /// What is found on the line, rule by rule.
    pub open spec fn all(&self) -> Seq<Finding> {
        findings(self.indent_no_tabs@) + findings(self.long_lines@) + findings(self.nsp_trailing@)
    }
}

/// What is found on the first `n` lines, line by line.
pub open spec fn on_lines(lines: Seq<LineFindings>, n: int) -> Seq<Finding>
    decreases n,
{
    if n <= 0 {
        Seq::empty()
    } else {
        on_lines(lines, n - 1) + lines[n - 1].all()
    }
}

impl StyleFindings {
    /// All findings: those on the tree, and then those on the lines.
    pub open spec fn all(&self) -> Seq<Finding> {
        findings(self.tree@) + on_lines(self.lines@, self.lines@.len() as int)
    }
}

/// Whether an annotation silences a finding: its rule is allowed in the whole
/// file, or on the row on which the finding starts.
pub open spec fn silenced(
    f: Finding,
    whole_file: Set<LintAnnotation>,
    by_line: Map<u32, Set<LintAnnotation>>,
) -> bool {
    let allow = LintAnnotation::Allow(f.rule_type);
    whole_file.contains(allow) || (by_line.contains_key(f.range.row_start.0)
        && by_line[f.range.row_start.0].contains(allow))
}

/// The findings that no annotation silences.
pub open spec fn not_silenced(
    all: Seq<Finding>,
    whole_file: Set<LintAnnotation>,
    by_line: Map<u32, Set<LintAnnotation>>,
) -> Seq<Finding> {
    all.filter(|f: Finding| !silenced(f, whole_file, by_line))
}

/// Whether a finding about tabs in the indentation starts or ends on the same
/// row as this one.
pub open spec fn on_tab_row(f: Finding, all: Seq<Finding>) -> bool {
    exists|i: int|
        0 <= i < all.len() && (#[trigger] all[i]).rule_type == RuleType::IN2 && (
        all[i].range.row_start == f.range.row_start || all[i].range.row_end == f.range.row_end)
}

/// The findings that stay when tabs in the indentation hide what else is wrong
/// on their rows.
pub open spec fn not_hidden(all: Seq<Finding>) -> Seq<Finding> {
    all.filter(|f: Finding| f.rule_type == RuleType::IN2 || !on_tab_row(f, all))
}

/// What a style check reports of a file: what the rules find, without what an
/// annotation silences and then without what tabs hide, followed by what is
/// wrong with the annotations themselves.
pub open spec fn reported(all: Seq<Finding>, lines: Seq<Seq<char>>) -> Seq<Finding> {
    let kinds = kinds_of(lines);
    let n = lines.len() as int;
    not_hidden(not_silenced(all, allowed_everywhere(kinds, n), allowed_by_row(kinds, n)))
        + annotation_findings(lines)
}

/// One more value, one more step of the filter.
proof fn lemma_filter_step(s: Seq<Finding>, p: spec_fn(Finding) -> bool, i: int)
    requires
        0 <= i < s.len(),
    ensures
        s.take(i + 1).filter(p) == (if p(s[i]) {
            s.take(i).filter(p).push(s[i])
        } else {
            s.take(i).filter(p)
        }),
{
    reveal(Seq::filter);
    assert(s.take(i + 1).drop_last() =~= s.take(i));
    assert(s.take(i + 1).last() == s[i]);
}

/// Keeps the findings that `keep` marks, in their order.
fn retain_marked(
    errors: &mut Vec<DMLStyleError>,
    keep: &Vec<bool>,
    p: Ghost<spec_fn(Finding) -> bool>,
)
    requires
        keep@.len() == old(errors)@.len(),
        forall|i: int| 0 <= i < keep@.len() ==> #[trigger] keep@[i] == p@(old(errors)@[i]@),
    ensures
        findings(final(errors)@) == findings(old(errors)@).filter(p@),
{
    let ghost all = findings(errors@);
    let ghost start = errors@;
    let mut seen: usize = 0;
    let mut at: usize = 0;
    proof {
        reveal(Seq::filter);
        assert(all.take(0).filter(p@) =~= Seq::<Finding>::empty());
        assert(findings(errors@) =~= all.take(0).filter(p@) + all.skip(0));
    }
    while seen < keep.len()
        invariant
            seen <= keep@.len(),
            keep@.len() == all.len(),
            all == findings(start),
            forall|i: int| 0 <= i < keep@.len() ==> #[trigger] keep@[i] == p@(start[i]@),
            at == all.take(seen as int).filter(p@).len(),
            findings(errors@) == all.take(seen as int).filter(p@) + all.skip(seen as int),
        decreases keep@.len() - seen,
    {
        let ghost kept = all.take(seen as int).filter(p@);
        let ghost before = findings(errors@);
        proof {
            lemma_filter_step(all, p@, seen as int);
            assert(all[seen as int] == start[seen as int]@);
            assert(before.len() == kept.len() + (all.len() - seen));
            assert(errors@.len() == before.len());
            assert(before[at as int] == all.skip(seen as int)[0]);
        }
        if keep[seen] {
            at = at + 1;
            assert(findings(errors@) =~= kept.push(all[seen as int]) + all.skip(seen + 1));
        } else {
            let _ = errors.remove(at);
            assert(findings(errors@) =~= before.remove(at as int));
            assert(findings(errors@) =~= kept + all.skip(seen + 1));
        }
        seen = seen + 1;
    }
    assert(all.take(seen as int) =~= all);
    assert(findings(errors@) =~= all.filter(p@));
}

/// Takes out the findings that an annotation silences.
pub fn remove_disabled_lints(errors: &mut Vec<DMLStyleError>, annotations: &LintAnnotations)
    ensures
        findings(final(errors)@) == not_silenced(
            findings(old(errors)@),
            annotations.whole_file@,
            annotations.by_line(),
        ),
{
    let ghost p = |f: Finding|
        !silenced(f, annotations.whole_file@, annotations.by_line());
    let mut keep: Vec<bool> = Vec::new();
    let mut i: usize = 0;
    while i < errors.len()
        invariant
            i <= errors@.len(),
            keep@.len() == i,
            p == (|f: Finding| !silenced(f, annotations.whole_file@, annotations.by_line())),
            forall|j: int| 0 <= j < i ==> #[trigger] keep@[j] == p(errors@[j]@),
        decreases errors@.len() - i,
    {
        let allow = LintAnnotation::Allow(errors[i].rule_type);
        let row: u32 = errors[i].error.range.row_start.0;
        let on_row = match annotations.line_specific.get(&row) {
            Some(allowed) => allowed.contains(&allow),
            None => false,
        };
        let everywhere = annotations.whole_file.contains(&allow);
        keep.push(!everywhere && !on_row);
        i += 1;
    }
    retain_marked(errors, &keep, Ghost(p));
}

/// Takes out the findings on rows whose indentation holds tabs, but for those
/// about the tabs.
pub fn post_process_linting_errors(errors: &mut Vec<DMLStyleError>)
    ensures
        findings(final(errors)@) == not_hidden(findings(old(errors)@)),
{
    let ghost all = findings(errors@);
    let ghost p = |f: Finding| f.rule_type == RuleType::IN2 || !on_tab_row(f, all);
    let mut keep: Vec<bool> = Vec::new();
    let mut i: usize = 0;
    while i < errors.len()
        invariant
            i <= errors@.len(),
            keep@.len() == i,
            all == findings(errors@),
            p == (|f: Finding| f.rule_type == RuleType::IN2 || !on_tab_row(f, all)),
            forall|j: int| 0 <= j < i ==> #[trigger] keep@[j] == p(errors@[j]@),
        decreases errors@.len() - i,
    {
        let range = errors[i].error.range;
        let mut hidden = false;
        let mut j: usize = 0;
        while j < errors.len()
            invariant
                j <= errors@.len(),
                i < errors@.len(),
                all == findings(errors@),
                range == errors@[i as int]@.range,
                hidden ==> on_tab_row(errors@[i as int]@, all),
                !hidden ==> forall|k: int|
                    0 <= k < j ==> !((#[trigger] all[k]).rule_type == RuleType::IN2 && (
                    all[k].range.row_start == range.row_start || all[k].range.row_end
                        == range.row_end)),
            decreases errors@.len() - j,
        {
            let other = errors[j].error.range;
            assert(all[j as int] == errors@[j as int]@);
            if errors[j].rule_type == RuleType::IN2 && (other.row_start == range.row_start
                || other.row_end == range.row_end) {
                hidden = true;
            }
            j += 1;
        }
        keep.push(errors[i].rule_type == RuleType::IN2 || !hidden);
        i += 1;
    }
    retain_marked(errors, &keep, Ghost(p));
}

/// Moves findings behind others.
fn take_over(errors: &mut Vec<DMLStyleError>, more: Vec<DMLStyleError>)
    ensures
        findings(final(errors)@) == findings(old(errors)@) + findings(more@),
{
    let mut more = more;
    let ghost before = errors@;
    let ghost tail = more@;
    errors.append(&mut more);
    assert(findings(errors@) =~= findings(before) + findings(tail));
}

/// Turns what the rules find in a file into what is reported of it.
pub fn begin_style_check(checks: StyleFindings, file: &str) -> (result: Result<
    Vec<DMLStyleError>,
    FileError,
>)
    ensures
        result matches Ok(errors) && findings(errors@) == reported(checks.all(), lines_of(file@)),
{
    let (invalid, annotations) = obtain_lint_annotations(file);
    let StyleFindings { tree, lines } = checks;
    let ghost rows = lines@;
    let mut errors = tree;
    let mut rest = lines;
    let ghost mut done: int = 0;
    assert(rows.skip(0) =~= rows);
    assert(findings(errors@) =~= findings(tree@) + on_lines(rows, 0));
    while rest.len() > 0
        invariant
            0 <= done <= rows.len(),
            rest@ == rows.skip(done),
            findings(errors@) == findings(tree@) + on_lines(rows, done),
        decreases rest@.len(),
    {
        let line = rest.remove(0);
        assert(line == rows[done]);
        let ghost before = findings(errors@);
        let LineFindings { indent_no_tabs, long_lines, nsp_trailing } = line;
        take_over(&mut errors, indent_no_tabs);
        take_over(&mut errors, long_lines);
        take_over(&mut errors, nsp_trailing);
        proof {
            assert(rest@ =~= rows.skip(done + 1));
            assert(findings(errors@) =~= before + rows[done].all());
            assert(findings(errors@) =~= findings(tree@) + on_lines(rows, done + 1));
            done = done + 1;
        }
    }
    assert(findings(errors@) == checks.all());
    remove_disabled_lints(&mut errors, &annotations);
    post_process_linting_errors(&mut errors);
    take_over(&mut errors, invalid);
    Ok(errors)
}

} // verus!
