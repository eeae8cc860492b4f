//! What holds of every style check.
use crate::lint::annotations::{
    allowed_by_row, allowed_everywhere, allowed_on, annotation_findings, kinds_of, LineKind,
    LintAnnotation,
};
use crate::lint::check::{not_hidden, not_silenced, on_tab_row, reported, silenced};
use crate::lint::findings::Finding;
use crate::lint::rules::RuleType;
use vstd::prelude::*;

verus! {

/// A value passes a filter if and only if it is there and meets the
/// condition.
proof fn lemma_filter_members(s: Seq<Finding>, p: spec_fn(Finding) -> bool)
    ensures
        forall|f: Finding| s.filter(p).contains(f) <==> s.contains(f) && p(f),
        s.filter(p).len() <= s.len(),
    decreases s.len(),
{
    reveal(Seq::filter);
    if s.len() > 0 {
        let rest = s.drop_last();
        let last = s.last();
        lemma_filter_members(rest, p);
        assert(s =~= rest.push(last));
        assert forall|f: Finding| s.filter(p).contains(f) <==> s.contains(f) && p(f) by {
            assert(rest.push(last).contains(f) <==> rest.contains(f) || f == last) by {
                if f == last {
                    assert(rest.push(last)[rest.len() as int] == f);
                }
                if rest.contains(f) {
                    let i = choose|i: int| 0 <= i < rest.len() && rest[i] == f;
                    assert(rest.push(last)[i] == f);
                }
            }
            let kept = rest.filter(p);
            assert(kept.push(last).contains(f) <==> kept.contains(f) || f == last) by {
                if f == last {
                    assert(kept.push(last)[kept.len() as int] == f);
                }
                if kept.contains(f) {
                    let i = choose|i: int| 0 <= i < kept.len() && kept[i] == f;
                    assert(kept.push(last)[i] == f);
                }
            }
        }
    }
}

/// A filter that every value passes changes nothing.
proof fn lemma_filter_all(s: Seq<Finding>, p: spec_fn(Finding) -> bool)
    requires
        forall|i: int| 0 <= i < s.len() ==> p(#[trigger] s[i]),
    ensures
        s.filter(p) == s,
    decreases s.len(),
{
    reveal(Seq::filter);
    if s.len() > 0 {
        let rest = s.drop_last();
        assert forall|i: int| 0 <= i < rest.len() implies p(#[trigger] rest[i]) by {
            assert(rest[i] == s[i]);
        }
        lemma_filter_all(rest, p);
        assert(p(s[s.len() - 1]));
        assert(s =~= rest.push(s.last()));
    } else {
        assert(s.filter(p) =~= s);
    }
}

/// Silenced findings are left out, whatever else the file holds, and every
/// other finding stays.
pub proof fn exactly_the_silenced_are_removed(
    all: Seq<Finding>,
    whole_file: Set<LintAnnotation>,
    by_line: Map<u32, Set<LintAnnotation>>,
    f: Finding,
)
    ensures
        not_silenced(all, whole_file, by_line).contains(f) <==> all.contains(f) && !silenced(
            f,
            whole_file,
            by_line,
        ),
{
    lemma_filter_members(all, |g: Finding| !silenced(g, whole_file, by_line));
}

/// A finding about tabs is never hidden.
pub proof fn tab_findings_stay(all: Seq<Finding>, f: Finding)
    requires
        all.contains(f),
        f.rule_type == RuleType::IN2,
    ensures
        not_hidden(all).contains(f),
{
    lemma_filter_members(all, |g: Finding| g.rule_type == RuleType::IN2 || !on_tab_row(g, all));
}

/// No finding that stays shares its first or its last row with one about
/// tabs, unless it is about tabs too; and what stays was there before.
pub proof fn tab_rows_show_only_tabs(all: Seq<Finding>, f: Finding)
    requires
        not_hidden(all).contains(f),
    ensures
        all.contains(f),
        f.rule_type == RuleType::IN2 || !on_tab_row(f, all),
{
    lemma_filter_members(all, |g: Finding| g.rule_type == RuleType::IN2 || !on_tab_row(g, all));
}

/// What tabs hide, they hide at once: a second time takes nothing more away.
pub proof fn hiding_settles(all: Seq<Finding>)
    ensures
        not_hidden(not_hidden(all)) == not_hidden(all),
{
    let p = |g: Finding| g.rule_type == RuleType::IN2 || !on_tab_row(g, all);
    let once = not_hidden(all);
    let q = |g: Finding| g.rule_type == RuleType::IN2 || !on_tab_row(g, once);
    lemma_filter_members(all, p);
    assert forall|i: int| 0 <= i < once.len() implies q(#[trigger] once[i]) by {
        assert(once.contains(once[i]));
        if on_tab_row(once[i], once) {
            let j = choose|j: int|
                0 <= j < once.len() && (#[trigger] once[j]).rule_type == RuleType::IN2 && (
                once[j].range.row_start == once[i].range.row_start || once[j].range.row_end
                    == once[i].range.row_end);
            assert(once.contains(once[j]));
            assert(all.contains(once[j]));
            let k = choose|k: int| 0 <= k < all.len() && all[k] == once[j];
            assert(all[k].rule_type == RuleType::IN2);
            assert(on_tab_row(once[i], all));
        }
    }
    lemma_filter_all(once, q);
}

/// A file that allows tabs has nothing hidden by them: silencing comes first,
/// so that a finding that is not reported hides no other.
pub proof fn silenced_tabs_hide_nothing(
    all: Seq<Finding>,
    whole_file: Set<LintAnnotation>,
    by_line: Map<u32, Set<LintAnnotation>>,
)
    requires
        whole_file.contains(LintAnnotation::Allow(RuleType::IN2)),
    ensures
        not_hidden(not_silenced(all, whole_file, by_line)) == not_silenced(
            all,
            whole_file,
            by_line,
        ),
{
    let kept = not_silenced(all, whole_file, by_line);
    let p = |g: Finding| g.rule_type == RuleType::IN2 || !on_tab_row(g, kept);
    lemma_filter_members(all, |g: Finding| !silenced(g, whole_file, by_line));
    assert forall|i: int| 0 <= i < kept.len() implies p(#[trigger] kept[i]) by {
        if on_tab_row(kept[i], kept) {
            let j = choose|j: int|
                0 <= j < kept.len() && (#[trigger] kept[j]).rule_type == RuleType::IN2 && (
                kept[j].range.row_start == kept[i].range.row_start || kept[j].range.row_end
                    == kept[i].range.row_end);
            assert(kept.contains(kept[j]));
        }
    }
    lemma_filter_all(kept, p);
}

/// A style check reports nothing of a rule that is allowed in the whole file,
/// and nothing of a rule on a row on which it is allowed.
pub proof fn annotations_silence(all: Seq<Finding>, lines: Seq<Seq<char>>, f: Finding)
    requires
        silenced(
            f,
            allowed_everywhere(kinds_of(lines), lines.len() as int),
            allowed_by_row(kinds_of(lines), lines.len() as int),
        ),
        !annotation_findings(lines).contains(f),
    ensures
        !reported(all, lines).contains(f),
{
    let whole = allowed_everywhere(kinds_of(lines), lines.len() as int);
    let rows = allowed_by_row(kinds_of(lines), lines.len() as int);
    let kept = not_silenced(all, whole, rows);
    exactly_the_silenced_are_removed(all, whole, rows, f);
    if not_hidden(kept).contains(f) {
        tab_rows_show_only_tabs(kept, f);
    }
    lemma_concat_members(not_hidden(kept), annotation_findings(lines), f);
}

/// Whatever is wrong with the annotations of a file is reported, and nothing
/// silences it.
pub proof fn bad_annotations_are_reported(all: Seq<Finding>, lines: Seq<Seq<char>>, f: Finding)
    requires
        annotation_findings(lines).contains(f),
    ensures
        reported(all, lines).contains(f),
{
    let whole = allowed_everywhere(kinds_of(lines), lines.len() as int);
    let rows = allowed_by_row(kinds_of(lines), lines.len() as int);
    lemma_concat_members(
        not_hidden(not_silenced(all, whole, rows)),
        annotation_findings(lines),
        f,
    );
}

/// A style check reports no more than the rules find and the annotations
/// themselves get wrong.
pub proof fn nothing_is_made_up(all: Seq<Finding>, lines: Seq<Seq<char>>, f: Finding)
    requires
        reported(all, lines).contains(f),
    ensures
        all.contains(f) || annotation_findings(lines).contains(f),
{
    let whole = allowed_everywhere(kinds_of(lines), lines.len() as int);
    let rows = allowed_by_row(kinds_of(lines), lines.len() as int);
    let kept = not_silenced(all, whole, rows);
    lemma_concat_members(not_hidden(kept), annotation_findings(lines), f);
    if not_hidden(kept).contains(f) {
        tab_rows_show_only_tabs(kept, f);
        exactly_the_silenced_are_removed(all, whole, rows, f);
    }
}

/// What is in two sequences one after the other is in one of them.
proof fn lemma_concat_members(a: Seq<Finding>, b: Seq<Finding>, f: Finding)
    ensures
        (a + b).contains(f) <==> a.contains(f) || b.contains(f),
{
    if a.contains(f) {
        let i = choose|i: int| 0 <= i < a.len() && a[i] == f;
        assert((a + b)[i] == f);
    }
    if b.contains(f) {
        let i = choose|i: int| 0 <= i < b.len() && b[i] == f;
        assert((a + b)[a.len() + i] == f);
    }
    if (a + b).contains(f) {
        let i = choose|i: int| 0 <= i < (a + b).len() && (a + b)[i] == f;
        if i < a.len() {
            assert(a[i] == f);
        } else {
            assert(b[i - a.len()] == f);
        }
    }
}

/// In a file of fewer lines than there are rows to count, a row has an entry
/// of its own if and only if something is allowed on it, and the entry says
/// what.
pub proof fn rows_are_told_apart(kinds: Seq<LineKind>, n: int, r: int)
    requires
        0 <= r < n <= kinds.len(),
        n <= u32::MAX,
    ensures
        allowed_by_row(kinds, n).contains_key(r as u32) <==> allowed_on(kinds, r) != Set::<
            LintAnnotation,
        >::empty(),
        allowed_by_row(kinds, n).contains_key(r as u32) ==> allowed_by_row(kinds, n)[r as u32]
            == allowed_on(kinds, r),
    decreases n,
{
    if r == n - 1 {
        lemma_later_rows_absent(kinds, n - 1, r);
    } else {
        rows_are_told_apart(kinds, n - 1, r);
    }
}

/// The first `n` rows say nothing of the rows behind them.
proof fn lemma_later_rows_absent(kinds: Seq<LineKind>, n: int, r: int)
    requires
        0 <= n <= r,
        r < u32::MAX,
    ensures
        !allowed_by_row(kinds, n).contains_key(r as u32),
    decreases n,
{
    if n > 0 {
        lemma_later_rows_absent(kinds, n - 1, r);
    }
}

} // verus!
