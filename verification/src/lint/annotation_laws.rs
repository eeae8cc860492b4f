//! What holds of lint annotations and of what they silence, told by lines, rows
//! and findings.
use crate::errors::DiagnosticSeverity;
use crate::lint::analysis::lint_errors;
use crate::lint::annotations::{
    allowed_by_row, allowed_everywhere, allowed_on, annotation_at, annotation_findings,
    annotation_is_unambiguous, cuts_of, kinds_of, line_kind, open_at, open_before, row_findings,
    rows_findings, takes_annotations, Cuts, LineKind, LintAnnotation,
};
use crate::lint::check::{
    not_hidden, not_silenced, on_lines, on_tab_row, reported, silenced, LineFindings,
    StyleFindings,
};
use crate::lint::findings::{findings, Finding};
use crate::lint::rules::{rule_named, RuleType};
use crate::path::PathView;
use crate::text::{all_white_space, is_white_space};
use vstd::prelude::*;
use vstd::string::*;

verus! {

/// Whether a finding is silenced depends on what is allowed in the whole file and
/// on the row that it starts on, and on no other row.
pub proof fn other_rows_do_not_silence(
    f: Finding,
    whole_file: Set<LintAnnotation>,
    a: Map<u32, Set<LintAnnotation>>,
    b: Map<u32, Set<LintAnnotation>>,
)
    requires
        a.contains_key(f.range.row_start.0) == b.contains_key(f.range.row_start.0),
        a.contains_key(f.range.row_start.0) ==> a[f.range.row_start.0] == b[f.range.row_start.0],
    ensures
        silenced(f, whole_file, a) == silenced(f, whole_file, b),
{
}

/// A finding is silenced if and only if its rule, and no other, is allowed in the
/// whole file or on the row that it starts on.
pub proof fn silenced_by_its_own_rule(
    f: Finding,
    whole_file: Set<LintAnnotation>,
    by_line: Map<u32, Set<LintAnnotation>>,
)
    ensures
        whole_file.contains(LintAnnotation::Allow(f.rule_type)) ==> silenced(
            f,
            whole_file,
            by_line,
        ),
        by_line.contains_key(f.range.row_start.0) && by_line[f.range.row_start.0].contains(
            LintAnnotation::Allow(f.rule_type),
        ) ==> silenced(f, whole_file, by_line),
        !whole_file.contains(LintAnnotation::Allow(f.rule_type)) && !(by_line.contains_key(
            f.range.row_start.0,
        ) && by_line[f.range.row_start.0].contains(LintAnnotation::Allow(f.rule_type)))
            ==> !silenced(f, whole_file, by_line),
{
}

/// Two findings in a row are in the filtered findings in the same order, and as
/// often as they are found.
proof fn lemma_filter_members(s: Seq<Finding>, p: spec_fn(Finding) -> bool)
    ensures
        forall|f: Finding| s.filter(p).contains(f) <==> s.contains(f) && p(f),
    decreases s.len(),
{
    reveal(Seq::filter);
    if s.len() > 0 {
        let rest = s.drop_last();
        let last = s.last();
        lemma_filter_members(rest, p);
        assert(s =~= rest.push(last));
        assert forall|f: Finding| s.filter(p).contains(f) <==> s.contains(f) && p(f) by {
            let kept = rest.filter(p);
            assert(rest.push(last).contains(f) <==> rest.contains(f) || f == last) by {
                if f == last {
                    assert(rest.push(last)[rest.len() as int] == f);
                }
                if rest.contains(f) {
                    let i = choose|i: int| 0 <= i < rest.len() && rest[i] == f;
                    assert(rest.push(last)[i] == f);
                }
            }
            assert(kept.push(last).contains(f) <==> kept.contains(f) || f == last) by {
                if f == last {
                    assert(kept.push(last)[kept.len() as int] == f);
                }
                if kept.contains(f) {
                    let i = choose|i: int| 0 <= i < kept.len() && kept[i] == f;
                    assert(kept.push(last)[i] == f);
                }
            }
        }
    }
}

/// A finding of the rules is reported if and only if its rule is allowed neither
/// in the whole file nor on the row that it starts on, and, unless it is about
/// tabs itself, no finding about tabs that is not silenced starts or ends on its
/// row.
pub proof fn reported_unless_allowed_or_behind_tabs(
    all: Seq<Finding>,
    lines: Seq<Seq<char>>,
    f: Finding,
)
    requires
        f.rule_type != RuleType::Configuration,
    ensures
        ({
            let whole = allowed_everywhere(kinds_of(lines), lines.len() as int);
            let rows = allowed_by_row(kinds_of(lines), lines.len() as int);
            reported(all, lines).contains(f) <==> {
                &&& all.contains(f)
                &&& !whole.contains(LintAnnotation::Allow(f.rule_type))
                &&& !(rows.contains_key(f.range.row_start.0)
                    && rows[f.range.row_start.0].contains(LintAnnotation::Allow(f.rule_type)))
                &&& f.rule_type == RuleType::IN2 || !(exists|t: Finding|
                    {
                        &&& #[trigger] all.contains(t)
                        &&& t.rule_type == RuleType::IN2
                        &&& t.range.row_start == f.range.row_start || t.range.row_end
                            == f.range.row_end
                        &&& !whole.contains(LintAnnotation::Allow(RuleType::IN2))
                        &&& !(rows.contains_key(t.range.row_start.0)
                            && rows[t.range.row_start.0].contains(
                            LintAnnotation::Allow(RuleType::IN2),
                        ))
                    })
            }
        }),
{
    let whole = allowed_everywhere(kinds_of(lines), lines.len() as int);
    let rows = allowed_by_row(kinds_of(lines), lines.len() as int);
    let kept = not_silenced(all, whole, rows);
    lemma_filter_members(all, |g: Finding| !silenced(g, whole, rows));
    lemma_filter_members(
        kept,
        |g: Finding| g.rule_type == RuleType::IN2 || !on_tab_row(g, kept),
    );
    if on_tab_row(f, kept) {
        let i = choose|i: int|
            0 <= i < kept.len() && (#[trigger] kept[i]).rule_type == RuleType::IN2 && (
            kept[i].range.row_start == f.range.row_start || kept[i].range.row_end
                == f.range.row_end);
        assert(kept.contains(kept[i]));
        assert(all.contains(kept[i]));
        assert(!silenced(kept[i], whole, rows));
    }
    assert forall|t: Finding|
        #[trigger] all.contains(t) && t.rule_type == RuleType::IN2 && (t.range.row_start
            == f.range.row_start || t.range.row_end == f.range.row_end) && !whole.contains(
            LintAnnotation::Allow(RuleType::IN2),
        ) && !(rows.contains_key(t.range.row_start.0) && rows[t.range.row_start.0].contains(
            LintAnnotation::Allow(RuleType::IN2),
        )) implies on_tab_row(f, kept) by {
        assert(!silenced(t, whole, rows));
        assert(kept.contains(t));
        let i = choose|i: int| 0 <= i < kept.len() && kept[i] == t;
        assert(kept[i].rule_type == RuleType::IN2);
    }
    let own = annotation_findings(lines);
    lemma_annotation_findings(lines);
    lemma_members_of_both(not_hidden(kept), own, f);
    if own.contains(f) {
        let i = choose|i: int| 0 <= i < own.len() && own[i] == f;
        assert(own[i].rule_type == RuleType::Configuration);
    }
    assert(reported(all, lines).contains(f) <==> not_hidden(kept).contains(f));
    assert(not_hidden(kept).contains(f) <==> kept.contains(f) && (f.rule_type == RuleType::IN2
        || !on_tab_row(f, kept)));
    assert(kept.contains(f) <==> all.contains(f) && !silenced(f, whole, rows));
}

/// What is in two sequences one after the other is in one of them.
proof fn lemma_members_of_both(a: Seq<Finding>, b: Seq<Finding>, f: Finding)
    ensures
        (a + b).contains(f) <==> a.contains(f) || b.contains(f),
{
    if a.contains(f) {
        let i = choose|i: int| 0 <= i < a.len() && a[i] == f;
        assert((a + b)[i] == f);
    }
    if b.contains(f) {
        let i = choose|i: int| 0 <= i < b.len() && b[i] == f;
        assert((a + b)[a.len() + i] == f);
    }
    if (a + b).contains(f) {
        let i = choose|i: int| 0 <= i < (a + b).len() && (a + b)[i] == f;
        if i < a.len() {
            assert(a[i] == f);
        } else {
            assert(b[i - a.len()] == f);
        }
    }
}

/// Findings about annotations are findings about the configuration.
proof fn lemma_annotation_findings(lines: Seq<Seq<char>>)
    ensures
        forall|i: int|
            0 <= i < annotation_findings(lines).len() ==> (
            #[trigger] annotation_findings(lines)[i]).rule_type == RuleType::Configuration
                && annotation_findings(lines)[i].rule_ident == "LintCfg"@,
{
    lemma_rows_findings(lines, lines.len() as int);
}

/// Findings about annotations on rows are findings about the configuration.
proof fn lemma_rows_findings(lines: Seq<Seq<char>>, n: int)
    ensures
        forall|i: int|
            0 <= i < rows_findings(lines, n).len() ==> (#[trigger] rows_findings(
                lines,
                n,
            )[i]).rule_type == RuleType::Configuration && rows_findings(lines, n)[i].rule_ident
                == "LintCfg"@,
    decreases n,
{
    if n > 0 {
        lemma_rows_findings(lines, n - 1);
    }
}

/// What a rule is called. Each rule goes by one name, and what is said of the
/// configuration by none.
pub proof fn rules_go_by_their_names(name: Seq<char>)
    ensures
        rule_named(name) == Some(RuleType::SpBrace) <==> name == "sp_brace"@,
        rule_named(name) == Some(RuleType::SpPunct) <==> name == "sp_punct"@,
        rule_named(name) == Some(RuleType::NspFunpar) <==> name == "nsp_funpar"@,
        rule_named(name) == Some(RuleType::NspInparen) <==> name == "nsp_inparen"@,
        rule_named(name) == Some(RuleType::NspUnary) <==> name == "nsp_unary"@,
        rule_named(name) == Some(RuleType::NspTrailing) <==> name == "nsp_trailing"@,
        rule_named(name) == Some(RuleType::LL1) <==> name == "long_lines"@,
        rule_named(name) == Some(RuleType::IN2) <==> name == "indent_no_tabs"@,
        rule_named(name) == Some(RuleType::IN3) <==> name == "indent_code_block"@,
        rule_named(name) == Some(RuleType::IN4) <==> name == "indent_closing_brace"@,
        rule_named(name) == Some(RuleType::IN5) <==> name == "indent_paren_expr"@,
        rule_named(name) == Some(RuleType::IN9) <==> name == "indent_switch_case"@,
        rule_named(name) == Some(RuleType::IN10) <==> name == "indent_empty_loop"@,
        rule_named(name) != Some(RuleType::Configuration),
{
    reveal_strlit("sp_brace");
    reveal_strlit("sp_punct");
    reveal_strlit("nsp_funpar");
    reveal_strlit("nsp_inparen");
    reveal_strlit("nsp_unary");
    reveal_strlit("nsp_trailing");
    reveal_strlit("long_lines");
    reveal_strlit("indent_no_tabs");
    reveal_strlit("indent_code_block");
    reveal_strlit("indent_closing_brace");
    reveal_strlit("indent_paren_expr");
    reveal_strlit("indent_switch_case");
    reveal_strlit("indent_empty_loop");
    assert("sp_brace"@[3] != "sp_punct"@[3]);
    assert("sp_brace"@.len() == 8 && "sp_punct"@.len() == 8);
    assert("nsp_funpar"@.len() == 10 && "long_lines"@.len() == 10);
    assert("nsp_inparen"@.len() == 11 && "nsp_unary"@.len() == 9 && "nsp_trailing"@.len() == 12);
    assert("indent_no_tabs"@.len() == 14 && "indent_closing_brace"@.len() == 20);
    assert("indent_code_block"@.len() == 17 && "indent_paren_expr"@.len() == 17);
    assert("indent_empty_loop"@.len() == 17 && "indent_switch_case"@.len() == 18);
    assert("nsp_funpar"@[0] != "long_lines"@[0]);
    assert("indent_code_block"@[7] != "indent_paren_expr"@[7]);
    assert("indent_code_block"@[7] != "indent_empty_loop"@[7]);
    assert("indent_paren_expr"@[7] != "indent_empty_loop"@[7]);
}

/// What a line means that is an annotation: the command and the target between
/// the cuts decide, and whether anything but white space stands before the
/// slashes.
pub proof fn annotations_mean_what_they_say(line: Seq<char>, c: Cuts)
    requires
        annotation_at(line, c),
    ensures
        ({
            let command = line.subrange(c.op, c.op_end);
            let target = rule_named(line.subrange(c.target, c.target_end));
            let trailing = exists|i: int| 0 <= i < c.slashes && !is_white_space(#[trigger] line[i]);
            &&& command == "allow"@ && target is Some ==> line_kind(line) == (LineKind::Allow {
                rule: target->0,
                trailing,
            })
            &&& command == "allow-file"@ && target is Some ==> line_kind(line)
                == LineKind::AllowFile(target->0)
            &&& (command == "allow"@ || command == "allow-file"@) && target is None ==> line_kind(
                line,
            ) is BadTarget
            &&& command != "allow"@ && command != "allow-file"@ ==> line_kind(line) is BadCommand
        }),
{
    reveal(cuts_of);
    annotation_is_unambiguous(line, c, cuts_of(line)->0);
    reveal_strlit("allow");
    reveal_strlit("allow-file");
    assert("allow"@.len() != "allow-file"@.len());
    assert(cuts_of(line) == Some(c));
    let pre = line.take(c.slashes);
    if exists|i: int| 0 <= i < c.slashes && !is_white_space(#[trigger] line[i]) {
        let i = choose|i: int| 0 <= i < c.slashes && !is_white_space(#[trigger] line[i]);
        assert(pre[i] == line[i]);
        assert(!all_white_space(pre));
    } else {
        assert forall|i: int| 0 <= i < pre.len() implies is_white_space(#[trigger] pre[i]) by {
            assert(pre[i] == line[i]);
        }
        assert(all_white_space(pre));
    }
}

/// A line that is no annotation is blank if it is nothing but white space, and
/// code if not.
pub proof fn other_lines_are_blank_or_code(line: Seq<char>)
    requires
        forall|c: Cuts| !annotation_at(line, c),
    ensures
        line_kind(line) is Blank <==> forall|i: int|
            0 <= i < line.len() ==> is_white_space(#[trigger] line[i]),
        line_kind(line) is Blank || line_kind(line) is Code,
{
    reveal(cuts_of);
}

/// Where annotations apply: what an annotation allows is allowed on the row that
/// it ends, if something stands before it, and else on the next row that holds
/// code or ends in such an annotation.
pub proof fn annotations_apply_to_the_next_code(kinds: Seq<LineKind>, q: int, r: int)
    requires
        0 <= q <= r < kinds.len(),
        kinds[q] is Allow,
        kinds[r] is Code || (kinds[r] is Allow && kinds[r]->trailing),
        forall|s: int|
            q <= s < r ==> !((#[trigger] kinds[s]) is Code) && !(kinds[s] is Allow
                && kinds[s]->trailing),
    ensures
        allowed_on(kinds, r).contains(LintAnnotation::Allow(kinds[q]->Allow_rule)),
{
    let a = LintAnnotation::Allow(kinds[q]->Allow_rule);
    assert forall|s: int| q <= s < r implies !takes_annotations(#[trigger] kinds[s]) by {}
    assert(open_at(kinds, q, r, a));
}

/// And they apply nowhere else: what is allowed on a row, the row itself or one
/// before it allows, with no code between; and the row holds code or ends in an
/// annotation.
pub proof fn annotations_apply_nowhere_else(kinds: Seq<LineKind>, r: int, rule: RuleType) -> (q:
    int)
    requires
        0 <= r < kinds.len(),
        allowed_on(kinds, r).contains(LintAnnotation::Allow(rule)),
    ensures
        0 <= q <= r,
        kinds[q] is Allow,
        kinds[q]->Allow_rule == rule,
        kinds[r] is Code || (kinds[r] is Allow && kinds[r]->trailing),
        forall|s: int|
            q <= s < r ==> !((#[trigger] kinds[s]) is Code) && !(kinds[s] is Allow
                && kinds[s]->trailing),
{
    let a = LintAnnotation::Allow(rule);
    let q = choose|q: int| q <= r && #[trigger] open_at(kinds, q, r, a);
    assert forall|s: int| q <= s < r implies !((#[trigger] kinds[s]) is Code) && !(kinds[s] is Allow
        && kinds[s]->trailing) by {
        assert(!takes_annotations(kinds[s]));
    }
    q
}

/// A rule is allowed in the whole file if and only if some row says so.
pub proof fn allowed_in_the_whole_file(kinds: Seq<LineKind>, rule: RuleType)
    ensures
        allowed_everywhere(kinds, kinds.len() as int).contains(LintAnnotation::Allow(rule))
            <==> exists|q: int|
            0 <= q < kinds.len() && #[trigger] kinds[q] == LineKind::AllowFile(rule),
{
}

/// A row with a bad annotation has one finding, which quotes what is bad about it;
/// other rows have none.
pub proof fn bad_annotations_are_quoted(row: u32, line: Seq<char>, c: Cuts)
    requires
        annotation_at(line, c),
    ensures
        line_kind(line) is BadCommand ==> row_findings(row, line).len() == 1 && row_findings(
            row,
            line,
        )[0].description == "Invalid command '"@ + line.subrange(c.op, c.op_end)
            + "' in dml-lint annotation."@ && row_findings(row, line)[0].range.row_start.0 == row
            && row_findings(row, line)[0].range.row_end.0 == row && row_findings(
            row,
            line,
        )[0].range.col_start.0 == vstd::utf8::encode_utf8(line.take(c.op)).len() as usize as u32
            && row_findings(row, line)[0].range.col_end.0 == vstd::utf8::encode_utf8(
            line.take(c.op_end),
        ).len() as usize as u32,
        line_kind(line) is BadTarget ==> row_findings(row, line).len() == 1 && row_findings(
            row,
            line,
        )[0].description == "Invalid lint rule target '"@ + line.subrange(
            c.target,
            c.target_end,
        ) + "'."@ && row_findings(row, line)[0].range.row_start.0 == row && row_findings(
            row,
            line,
        )[0].range.row_end.0 == row && row_findings(row, line)[0].range.col_start.0
            == vstd::utf8::encode_utf8(line.take(c.target)).len() as usize as u32 && row_findings(
            row,
            line,
        )[0].range.col_end.0 == vstd::utf8::encode_utf8(line.take(c.target_end)).len() as usize
            as u32,
        !(line_kind(line) is BadCommand) && !(line_kind(line) is BadTarget) ==> row_findings(
            row,
            line,
        ).len() == 0,
{
    reveal(cuts_of);
    annotation_is_unambiguous(line, c, cuts_of(line)->0);
}

/// The findings about annotations are those of the rows, in order. One more
/// follows, on the last row, if an annotation never applies because no code
/// follows it.
pub proof fn annotations_without_effect_are_told(lines: Seq<Seq<char>>, q: int)
    requires
        0 <= q < lines.len(),
        line_kind(lines[q]) is Allow,
        forall|s: int|
            q <= s < lines.len() ==> !(line_kind(#[trigger] lines[s]) is Code) && !(line_kind(
                lines[s],
            ) is Allow && line_kind(lines[s])->trailing),
    ensures
        ({
            let n = lines.len() as int;
            let all = annotation_findings(lines);
            let rows = rows_findings(lines, n);
            &&& all.len() == rows.len() + 1
            &&& all.drop_last() == rows
            &&& all.last().description == "dml-lint annotations without effect at end of file."@
            &&& all.last().range.row_start.0 == (n - 1) as usize as u32
            &&& all.last().range.row_end.0 == (n - 1) as usize as u32
            &&& all.last().range.col_start.0 == 0
            &&& all.last().range.col_end.0 == 0
        }),
{
    let n = lines.len() as int;
    let kinds = kinds_of(lines);
    let a = LintAnnotation::Allow(kinds[q]->Allow_rule);
    assert forall|s: int| q <= s < n implies !takes_annotations(#[trigger] kinds[s]) by {
        assert(kinds[s] == line_kind(lines[s]));
    }
    assert(open_at(kinds, q, n, a));
    assert(open_before(kinds, n).contains(a));
    assert(annotation_findings(lines).drop_last() =~= rows_findings(lines, n));
}

/// Where code follows every annotation for a line, nothing but the findings of the
/// rows is told.
pub proof fn annotations_with_effect_are_not_told(lines: Seq<Seq<char>>)
    requires
        forall|q: int|
            0 <= q < lines.len() && line_kind(#[trigger] lines[q]) is Allow ==> exists|s: int|
                q <= s < lines.len() && (line_kind(#[trigger] lines[s]) is Code || (line_kind(
                    lines[s],
                ) is Allow && line_kind(lines[s])->trailing)),
    ensures
        annotation_findings(lines) == rows_findings(lines, lines.len() as int),
{
    let n = lines.len() as int;
    let kinds = kinds_of(lines);
    let open = open_before(kinds, n);
    assert forall|a: LintAnnotation| !open.contains(a) by {
        if open.contains(a) {
            let q = choose|q: int| q < n && #[trigger] open_at(kinds, q, n, a);
            assert(kinds[q] == line_kind(lines[q]));
            let s = choose|s: int|
                q <= s < lines.len() && (line_kind(#[trigger] lines[s]) is Code || (line_kind(
                    lines[s],
                ) is Allow && line_kind(lines[s])->trailing));
            assert(kinds[s] == line_kind(lines[s]));
            assert(takes_annotations(kinds[s]));
        }
    }
    assert(open =~= Set::<LintAnnotation>::empty());
}

/// The findings of the rows come row by row.
pub proof fn rows_are_told_in_order(lines: Seq<Seq<char>>, n: int)
    requires
        0 <= n < lines.len(),
    ensures
        rows_findings(lines, 0).len() == 0,
        rows_findings(lines, n + 1) == rows_findings(lines, n) + row_findings(
            n as usize as u32,
            lines[n],
        ),
{
}

/// The findings of the rules on a file are those on the tree, in order, and then
/// those on its lines, line by line, each line's on tabs before those on its
/// length before those on its end.
pub proof fn findings_come_in_order(checks: StyleFindings, row: int)
    requires
        0 <= row < checks.lines@.len(),
    ensures
        ({
            let tree = findings(checks.tree@);
            let line = checks.lines@[row];
            let at = tree.len() + on_lines(checks.lines@, row).len();
            let tabs = findings(line.indent_no_tabs@);
            let long = findings(line.long_lines@);
            let trailing = findings(line.nsp_trailing@);
            &&& checks.all().len() >= at + tabs.len() + long.len() + trailing.len()
            &&& checks.all().take(tree.len() as int) == tree
            &&& checks.all().subrange(at as int, (at + tabs.len()) as int) == tabs
            &&& checks.all().subrange(
                (at + tabs.len()) as int,
                (at + tabs.len() + long.len()) as int,
            ) == long
            &&& checks.all().subrange(
                (at + tabs.len() + long.len()) as int,
                (at + tabs.len() + long.len() + trailing.len()) as int,
            ) == trailing
            &&& on_lines(checks.lines@, row + 1).len() == on_lines(checks.lines@, row).len()
                + tabs.len() + long.len() + trailing.len()
        }),
        on_lines(checks.lines@, 0).len() == 0,
        checks.all().len() == findings(checks.tree@).len() + on_lines(
            checks.lines@,
            checks.lines@.len() as int,
        ).len(),
{
    let tree = findings(checks.tree@);
    let n = checks.lines@.len() as int;
    let line = checks.lines@[row];
    let before = on_lines(checks.lines@, row);
    let here = on_lines(checks.lines@, row + 1);
    let all = on_lines(checks.lines@, n);
    lemma_lines_prefix(checks.lines@, row + 1, n);
    assert(here =~= before + line.all());
    assert(all.take(here.len() as int) == here);
    let whole = checks.all();
    let at = tree.len() + before.len();
    let tabs = findings(line.indent_no_tabs@);
    let long = findings(line.long_lines@);
    let trailing = findings(line.nsp_trailing@);
    assert forall|i: int| 0 <= i < line.all().len() implies whole[at + i] == #[trigger] line.all()[i] by {
        assert(whole[at + i] == all[before.len() + i]);
        assert(all[before.len() + i] == all.take(here.len() as int)[before.len() + i]);
    }
    assert(whole.take(tree.len() as int) =~= tree);
    assert forall|i: int| 0 <= i < tabs.len() implies whole[at + i] == tabs[i] by {
        assert(line.all()[i] == tabs[i]);
    }
    assert forall|i: int| 0 <= i < long.len() implies whole[at + tabs.len() + i] == long[i] by {
        assert(line.all()[tabs.len() + i] == long[i]);
    }
    assert forall|i: int| 0 <= i < trailing.len() implies whole[at + tabs.len() + long.len() + i]
        == trailing[i] by {
        assert(line.all()[tabs.len() + long.len() + i] == trailing[i]);
    }
    assert(whole.subrange(at as int, (at + tabs.len()) as int) =~= tabs);
    assert(whole.subrange((at + tabs.len()) as int, (at + tabs.len() + long.len()) as int)
        =~= long);
    assert(whole.subrange(
        (at + tabs.len() + long.len()) as int,
        (at + tabs.len() + long.len() + trailing.len()) as int,
    ) =~= trailing);
}

/// What is found on the first lines comes first.
proof fn lemma_lines_prefix(lines: Seq<LineFindings>, a: int, b: int)
    requires
        0 <= a <= b,
    ensures
        on_lines(lines, a).len() <= on_lines(lines, b).len(),
        on_lines(lines, b).take(on_lines(lines, a).len() as int) == on_lines(lines, a),
    decreases b,
{
    if a < b {
        lemma_lines_prefix(lines, a, b - 1);
        assert(on_lines(lines, b).take(on_lines(lines, a).len() as int) =~= on_lines(
            lines,
            b - 1,
        ).take(on_lines(lines, a).len() as int));
    } else {
        assert(on_lines(lines, b).take(on_lines(lines, a).len() as int) =~= on_lines(lines, a));
    }
}

/// Each finding becomes one warning in the file that was linted, where it was
/// found; its description is that of the finding, after the rule's name and a
/// colon where findings name their rule.
pub proof fn findings_become_warnings(
    all: Seq<Finding>,
    file: PathView,
    annotate: bool,
    i: int,
)
    requires
        0 <= i < all.len(),
    ensures
        lint_errors(all, file, annotate).len() == all.len(),
        lint_errors(all, file, annotate)[i].severity == Some(DiagnosticSeverity::Warning),
        lint_errors(all, file, annotate)[i].span.range == all[i].range,
        lint_errors(all, file, annotate)[i].span.file == file,
        lint_errors(all, file, annotate)[i].related.len() == 0,
        lint_errors(all, file, false)[i].description == all[i].description,
        lint_errors(all, file, true)[i].description == all[i].rule_ident + ": "@
            + all[i].description,
{
}

/// Silencing looks at each finding by itself and keeps their order and number: what is
/// left of findings that follow others is left of each, one after the other.
pub proof fn findings_are_silenced_one_by_one(
    a: Seq<Finding>,
    b: Seq<Finding>,
    f: Finding,
    whole_file: Set<LintAnnotation>,
    by_line: Map<u32, Set<LintAnnotation>>,
)
    ensures
        not_silenced(a + b, whole_file, by_line) == not_silenced(a, whole_file, by_line)
            + not_silenced(b, whole_file, by_line),
        silenced(f, whole_file, by_line) ==> not_silenced(seq![f], whole_file, by_line).len() == 0,
        !silenced(f, whole_file, by_line) ==> not_silenced(seq![f], whole_file, by_line) == seq![f],
{
    let p = |g: Finding| !silenced(g, whole_file, by_line);
    Seq::filter_distributes_over_add(a, b, p);
    reveal(Seq::filter);
    let one = seq![f];
    assert(one.drop_last() =~= Seq::<Finding>::empty());
    assert(one.drop_last().filter(p) =~= Seq::<Finding>::empty());
    if !silenced(f, whole_file, by_line) {
        assert(one.filter(p) =~= seq![f]);
    }
}

/// Where nothing is about tabs, nothing is hidden; and where everything is, neither.
/// What is reported of a file are the findings left, in their order, and then those
/// about annotations.
pub proof fn without_tabs_nothing_is_hidden(all: Seq<Finding>, lines: Seq<Seq<char>>)
    ensures
        (forall|i: int| 0 <= i < all.len() ==> (#[trigger] all[i]).rule_type != RuleType::IN2)
            ==> not_hidden(all) == all,
        (forall|i: int| 0 <= i < all.len() ==> (#[trigger] all[i]).rule_type == RuleType::IN2)
            ==> not_hidden(all) == all,
        not_hidden(all) == all.filter(
            |f: Finding|
                f.rule_type == RuleType::IN2 || forall|i: int|
                    0 <= i < all.len() && (#[trigger] all[i]).rule_type == RuleType::IN2
                        ==> all[i].range.row_start != f.range.row_start && all[i].range.row_end
                        != f.range.row_end,
        ),
        reported(all, lines) == not_hidden(
            not_silenced(
                all,
                allowed_everywhere(kinds_of(lines), lines.len() as int),
                allowed_by_row(kinds_of(lines), lines.len() as int),
            ),
        ) + annotation_findings(lines),
        kinds_of(lines).len() == lines.len(),
        forall|i: int|
            0 <= i < lines.len() ==> kinds_of(lines)[i] == line_kind(#[trigger] lines[i]),
{
    let p = |f: Finding| f.rule_type == RuleType::IN2 || !on_tab_row(f, all);
    let q = |f: Finding|
        f.rule_type == RuleType::IN2 || forall|i: int|
            0 <= i < all.len() && (#[trigger] all[i]).rule_type == RuleType::IN2
                ==> all[i].range.row_start != f.range.row_start && all[i].range.row_end
                != f.range.row_end;
    assert forall|f: Finding| #[trigger] p(f) == q(f) by {}
    assert(p =~= q);
    if forall|i: int| 0 <= i < all.len() ==> p(#[trigger] all[i]) {
        lemma_filter_all(all, p);
    }
}

/// A filter that everything passes changes nothing.
proof fn lemma_filter_all(s: Seq<Finding>, p: spec_fn(Finding) -> bool)
    requires
        forall|i: int| 0 <= i < s.len() ==> p(#[trigger] s[i]),
    ensures
        s.filter(p) == s,
    decreases s.len(),
{
    reveal(Seq::filter);
    if s.len() > 0 {
        let rest = s.drop_last();
        assert forall|i: int| 0 <= i < rest.len() implies p(#[trigger] rest[i]) by {
            assert(rest[i] == s[i]);
        }
        lemma_filter_all(rest, p);
        assert(p(s[s.len() - 1]));
        assert(s =~= rest.push(s.last()));
    } else {
        assert(s.filter(p) =~= s);
    }
}

} // verus!
