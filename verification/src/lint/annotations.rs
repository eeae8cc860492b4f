//! Annotations in the source that silence lint findings:
//! `// dml-lint: allow=RULE` for a line, `// dml-lint: allow-file=RULE` for
//! the whole file.
use crate::collections::{Keyed, VecMap, VecSet};
use crate::lint::findings::{findings, DMLStyleError, Finding, LocalDMLError};
use crate::lint::rules::{rule_named, RuleType};
use crate::span::{range_of, ZeroRange};
use crate::text::{all_white_space, is_white_space, lines_of, same_text, split_lines, texts};
use vstd::prelude::*;
use vstd::std_specs::iter::IteratorSpec;
use vstd::string::*;
use vstd::utf8::encode_utf8;

verus! {

/// What an annotation allows.
#[derive(Clone, Copy, PartialEq, Eq, Structural, Debug, Hash)]
pub enum LintAnnotation {
    Allow(RuleType),
}

impl View for LintAnnotation {
    type V = LintAnnotation;

    open spec fn view(&self) -> LintAnnotation {
        *self
    }
}

impl Keyed for LintAnnotation {
    type Key = LintAnnotation;

    open spec fn key(&self) -> LintAnnotation {
        *self
    }

    fn same_key(&self, other: &Self) -> (same: bool) {
        *self == *other
    }

    fn duplicate(&self) -> (copy: Self) {
        *self
    }
}

/// The annotations of a file.
pub struct LintAnnotations {
    /// What is allowed on single lines, by row.
    pub line_specific: VecMap<u32, VecSet<LintAnnotation>>,
    /// What is allowed everywhere.
    pub whole_file: VecSet<LintAnnotation>,
}

impl LintAnnotations {
    /// What is allowed on single lines, by row.
    pub open spec fn by_line(&self) -> Map<u32, Set<LintAnnotation>> {
        self.line_specific@.map_values(|s: VecSet<LintAnnotation>| s@)
    }
}

/// Where the parts of an annotation lie in its line, in characters.
pub struct Cuts {
    /// The two slashes.
    pub slashes: int,
    /// The word `dml-lint:`.
    pub word: int,
    /// The command.
    pub op: int,
    pub op_end: int,
    /// The equals sign.
    pub equals: int,
    /// The target.
    pub target: int,
    pub target_end: int,
}

/// Whether the characters from `from` up to `to` are white space.
pub open spec fn white_between(line: Seq<char>, from: int, to: int) -> bool {
    forall|i: int| from <= i < to ==> is_white_space(#[trigger] line[i])
}

/// A character of a command: an ASCII letter or a hyphen.
pub open spec fn is_op_char(c: char) -> bool {
    ('a' <= c && c <= 'z') || ('A' <= c && c <= 'Z') || c == '-'
}

/// Whether the word `dml-lint:` stands at `at`.
pub open spec fn word_at(line: Seq<char>, at: int) -> bool {
    &&& 0 <= at
    &&& at + 9 <= line.len()
    &&& line[at] == 'd'
    &&& line[at + 1] == 'm'
    &&& line[at + 2] == 'l'
    &&& line[at + 3] == '-'
    &&& line[at + 4] == 'l'
    &&& line[at + 5] == 'i'
    &&& line[at + 6] == 'n'
    &&& line[at + 7] == 't'
    &&& line[at + 8] == ':'
}

/// Whether a line is an annotation that is cut like this: anything without a
/// line feed, two slashes, the word `dml-lint:`, white space, a command, an
/// equals sign, and a target without white space that nothing but white space
/// follows. White space may also stand before the word and on either side of
/// the equals sign.
pub open spec fn annotation_at(line: Seq<char>, c: Cuts) -> bool {
    &&& 0 <= c.slashes
    &&& c.slashes + 2 <= c.word
    &&& line[c.slashes] == '/'
    &&& line[c.slashes + 1] == '/'
    &&& forall|i: int| 0 <= i < c.slashes ==> #[trigger] line[i] != '\n'
    &&& white_between(line, c.slashes + 2, c.word)
    &&& word_at(line, c.word)
    &&& c.word + 9 < c.op
    &&& white_between(line, c.word + 9, c.op)
    &&& c.op < c.op_end
    &&& forall|i: int| c.op <= i < c.op_end ==> is_op_char(#[trigger] line[i])
    &&& c.op_end <= c.equals
    &&& white_between(line, c.op_end, c.equals)
    &&& line[c.equals] == '='
    &&& c.equals < c.target
    &&& white_between(line, c.equals + 1, c.target)
    &&& c.target < c.target_end
    &&& forall|i: int| c.target <= i < c.target_end ==> !is_white_space(#[trigger] line[i])
    &&& c.target_end <= line.len()
    &&& white_between(line, c.target_end, line.len() as int)
}

/// A line can be cut as an annotation in at most one way.
pub proof fn annotation_is_unambiguous(line: Seq<char>, a: Cuts, b: Cuts)
    requires
        annotation_at(line, a),
        annotation_at(line, b),
    ensures
        a == b,
{
    lemma_no_later_annotation(line, a, b);
    lemma_no_later_annotation(line, b, a);
    assert(!is_white_space('d') && !is_white_space('=') && !is_white_space('-'));
    assert(forall|c: char| is_op_char(c) ==> !is_white_space(c) && c != '=');
    assert(a.word == b.word) by {
        if a.word < b.word {
            assert(is_white_space(line[a.word]));
        } else if b.word < a.word {
            assert(is_white_space(line[b.word]));
        }
    }
    assert(a.op == b.op) by {
        if a.op < b.op {
            assert(is_op_char(line[a.op]));
            assert(is_white_space(line[a.op]));
        } else if b.op < a.op {
            assert(is_op_char(line[b.op]));
            assert(is_white_space(line[b.op]));
        }
    }
    assert(a.op_end == b.op_end) by {
        if a.op_end < b.op_end {
            assert(is_op_char(line[a.op_end]));
            if a.op_end < a.equals {
                assert(is_white_space(line[a.op_end]));
            }
        } else if b.op_end < a.op_end {
            assert(is_op_char(line[b.op_end]));
            if b.op_end < b.equals {
                assert(is_white_space(line[b.op_end]));
            }
        }
    }
    assert(a.equals == b.equals) by {
        if a.equals < b.equals {
            assert(is_white_space(line[a.equals]));
        } else if b.equals < a.equals {
            assert(is_white_space(line[b.equals]));
        }
    }
    assert(a.target == b.target) by {
        if a.target < b.target {
            assert(is_white_space(line[a.target]));
            assert(!is_white_space(line[a.target]));
        } else if b.target < a.target {
            assert(is_white_space(line[b.target]));
            assert(!is_white_space(line[b.target]));
        }
    }
    assert(a.target_end == b.target_end) by {
        if a.target_end < b.target_end {
            assert(is_white_space(line[a.target_end]));
            assert(!is_white_space(line[a.target_end]));
        } else if b.target_end < a.target_end {
            assert(is_white_space(line[b.target_end]));
            assert(!is_white_space(line[b.target_end]));
        }
    }
}

/// No annotation starts behind the slashes of another one.
proof fn lemma_no_later_annotation(line: Seq<char>, a: Cuts, b: Cuts)
    requires
        annotation_at(line, a),
        annotation_at(line, b),
    ensures
        b.slashes <= a.slashes,
{
    let s = b.slashes;
    assert(forall|c: char| is_op_char(c) ==> !is_white_space(c) && c != '=' && c != '/');
    assert(!is_white_space('/'));
    assert(line[s] == '/' && line[s + 1] == '/');
    if s <= a.slashes {
    } else if s == a.slashes + 1 {
        // the second slash of `b` would have to be white space or the word
        if a.slashes + 2 < a.word {
            assert(is_white_space(line[a.slashes + 2]));
        }
    } else if s < a.word {
        assert(is_white_space(line[s]));
    } else if s < a.word + 9 {
    } else if s < a.op {
        assert(is_white_space(line[s]));
    } else if s < a.op_end {
        assert(is_op_char(line[s]));
    } else if s < a.equals {
        assert(is_white_space(line[s]));
    } else if s == a.equals {
    } else if s < a.target {
        assert(is_white_space(line[s]));
    } else if s < a.target_end {
        // what follows the word of `b` is white space, so the word ends the
        // target, and nothing but white space is left for the command
        assert(is_white_space(line[b.word + 9]));
        assert(is_op_char(line[b.op]));
        if b.op < a.target_end {
            assert(a.target <= b.word + 9 < a.target_end);
            assert(!is_white_space(line[b.word + 9]));
        } else {
            assert(is_white_space(line[b.op]));
        }
    } else {
        assert(is_white_space(line[s]));
    }
}

/// How the line is cut, if it is an annotation.
#[verifier::opaque]
pub open spec fn cuts_of(line: Seq<char>) -> Option<Cuts> {
    if exists|c: Cuts| annotation_at(line, c) {
        Some(choose|c: Cuts| annotation_at(line, c))
    } else {
        None
    }
}

/// The parts of an annotation, with the places of the command and the target
/// in bytes.
pub struct AnnotationCapture {
    pub pre: String,
    pub op: String,
    pub op_start: usize,
    pub op_end: usize,
    pub target: String,
    pub target_start: usize,
    pub target_end: usize,
}

/// The byte that the character at `at` starts with, in UTF-8.
pub open spec fn byte_of(line: Seq<char>, at: int) -> usize {
    encode_utf8(line.take(at)).len() as usize
}

/// Whether these are the parts of a line that is cut like this.
pub open spec fn captures(line: Seq<char>, c: Cuts, a: AnnotationCapture) -> bool {
    &&& a.pre@ == line.take(c.slashes)
    &&& a.op@ == line.subrange(c.op, c.op_end)
    &&& a.op_start == byte_of(line, c.op)
    &&& a.op_end == byte_of(line, c.op_end)
    &&& a.target@ == line.subrange(c.target, c.target_end)
    &&& a.target_start == byte_of(line, c.target)
    &&& a.target_end == byte_of(line, c.target_end)
}

/// Calls `regex::Regex::captures` with the pattern of an annotation. A match
/// is found exactly where the line can be cut as [`annotation_at`] says, and
/// what the groups capture are the parts of such a cut, with their places in
/// bytes.
#[verifier::external_body]
fn match_annotation(line: &str) -> (found: Option<AnnotationCapture>)
    ensures
        found is Some == (exists|c: Cuts| annotation_at(line@, c)),
        found matches Some(a) ==> exists|c: Cuts|
            #[trigger] annotation_at(line@, c) && captures(line@, c, a),
{
    let pattern = r"^(.*)\/\/\s*dml-lint:\s+([a-z-A-Z]+)\s*=\s*([^\s]+)\s*$";
    let found = regex::Regex::new(pattern).unwrap().captures(line)?;
    let (pre, op, target) = (found.get(1)?, found.get(2)?, found.get(3)?);
    Some(AnnotationCapture {
        pre: pre.as_str().to_string(),
        op: op.as_str().to_string(),
        op_start: op.start(),
        op_end: op.end(),
        target: target.as_str().to_string(),
        target_start: target.start(),
        target_end: target.end(),
    })
}

/// Calls `regex::Regex::is_match` with a pattern that takes white space from
/// the start of the text to its end. It matches exactly where the text holds
/// nothing else.
#[verifier::external_body]
fn just_whitespace(text: &str) -> (b: bool)
    ensures
        b == all_white_space(text@),
{
    regex::Regex::new(r"^\s*$").unwrap().is_match(text)
}

/// What a line means for the lint annotations.
pub enum LineKind {
    /// Nothing but white space.
    Blank,
    /// No annotation.
    Code,
    /// An annotation with a command that does not exist.
    BadCommand,
    /// An annotation for a rule that does not exist.
    BadTarget,
    /// An annotation for the whole file.
    AllowFile(RuleType),
    /// An annotation for a line; `trailing` where something stands before it.
    Allow { rule: RuleType, trailing: bool },
}

/// What a line means for the lint annotations.
pub open spec fn line_kind(line: Seq<char>) -> LineKind {
    match cuts_of(line) {
        None => if all_white_space(line) {
            LineKind::Blank
        } else {
            LineKind::Code
        },
        Some(c) => {
            let op = line.subrange(c.op, c.op_end);
            if op != "allow"@ && op != "allow-file"@ {
                LineKind::BadCommand
            } else {
                match rule_named(line.subrange(c.target, c.target_end)) {
                    None => LineKind::BadTarget,
                    Some(rule) => if op == "allow-file"@ {
                        LineKind::AllowFile(rule)
                    } else {
                        LineKind::Allow { rule, trailing: !all_white_space(line.take(c.slashes)) }
                    },
                }
            }
        },
    }
}

/// What each line means for the lint annotations.
pub open spec fn kinds_of(lines: Seq<Seq<char>>) -> Seq<LineKind> {
    lines.map_values(|line: Seq<char>| line_kind(line))
}

/// Whether the annotations that are still open apply to this line: it holds
/// something besides an annotation, or it ends in one that allows something.
pub open spec fn takes_annotations(kind: LineKind) -> bool {
    match kind {
        LineKind::Code => true,
        LineKind::Allow { rule, trailing } => trailing,
        _ => false,
    }
}

/// Whether row `q` holds a line annotation that allows `a` and is still open
/// at row `n`: no row from `q` on and before `n` has taken it.
pub open spec fn open_at(
    kinds: Seq<LineKind>,
    q: int,
    n: int,
    a: LintAnnotation,
) -> bool {
    &&& 0 <= q < kinds.len()
    &&& kinds[q] matches LineKind::Allow { rule, trailing } && a
        == LintAnnotation::Allow(rule)
    &&& forall|s: int| q <= s < n ==> !takes_annotations(#[trigger] kinds[s])
}

/// What is open before row `n`.
pub open spec fn open_before(kinds: Seq<LineKind>, n: int) -> Set<LintAnnotation> {
    Set::new(|a: LintAnnotation| exists|q: int| q < n && #[trigger] open_at(kinds, q, n, a))
}

/// What is allowed on row `r`: where the row takes annotations, what is open
/// there, its own included.
pub open spec fn allowed_on(kinds: Seq<LineKind>, r: int) -> Set<LintAnnotation> {
    Set::new(
        |a: LintAnnotation|
            takes_annotations(kinds[r]) && exists|q: int|
                q <= r && #[trigger] open_at(kinds, q, r, a),
    )
}

/// What is allowed on single lines, by row, as far as the first `n` rows say.
pub open spec fn allowed_by_row(kinds: Seq<LineKind>, n: int) -> Map<u32, Set<LintAnnotation>>
    decreases n,
{
    if n <= 0 {
        Map::empty()
    } else {
        let before = allowed_by_row(kinds, n - 1);
        let here = allowed_on(kinds, n - 1);
        if here == Set::<LintAnnotation>::empty() {
            before
        } else {
            before.insert((n - 1) as usize as u32, here)
        }
    }
}

/// What is allowed everywhere, as far as the first `n` rows say.
pub open spec fn allowed_everywhere(kinds: Seq<LineKind>, n: int) -> Set<LintAnnotation> {
    Set::new(
        |a: LintAnnotation|
            exists|q: int|
                0 <= q < n && ((#[trigger] kinds[q]) matches LineKind::AllowFile(rule) && a
                    == LintAnnotation::Allow(rule)),
    )
}

/// A finding about the annotations themselves.
pub open spec fn annotation_finding(range: ZeroRange, description: Seq<char>) -> Finding {
    Finding {
        range,
        description,
        rule_ident: "LintCfg"@,
        rule_type: RuleType::Configuration,
    }
}

/// What is wrong with the annotation on a row, if anything is.
pub open spec fn row_findings(row: u32, line: Seq<char>) -> Seq<Finding> {
    match (line_kind(line), cuts_of(line)) {
        (LineKind::BadCommand, Some(c)) => seq![
            annotation_finding(
                range_of(row, row, byte_of(line, c.op) as u32, byte_of(line, c.op_end) as u32),
                "Invalid command '"@ + line.subrange(c.op, c.op_end)
                    + "' in dml-lint annotation."@,
            ),
        ],
        (LineKind::BadTarget, Some(c)) => seq![
            annotation_finding(
                range_of(
                    row,
                    row,
                    byte_of(line, c.target) as u32,
                    byte_of(line, c.target_end) as u32,
                ),
                "Invalid lint rule target '"@ + line.subrange(c.target, c.target_end) + "'."@,
            ),
        ],
        _ => Seq::empty(),
    }
}

/// What is wrong with the annotations on the first `n` rows.
pub open spec fn rows_findings(lines: Seq<Seq<char>>, n: int) -> Seq<Finding>
    decreases n,
{
    if n <= 0 {
        Seq::empty()
    } else {
        rows_findings(lines, n - 1) + row_findings((n - 1) as usize as u32, lines[n - 1])
    }
}

/// What is wrong with the annotations of a file: the bad ones in order, and
/// then, on the last row, that some are still open at the end.
pub open spec fn annotation_findings(lines: Seq<Seq<char>>) -> Seq<Finding> {
    let n = lines.len() as int;
    if open_before(kinds_of(lines), n) == Set::<LintAnnotation>::empty() {
        rows_findings(lines, n)
    } else {
        let last = (n - 1) as usize as u32;
        rows_findings(lines, n).push(
            annotation_finding(
                range_of(last, last, 0, 0),
                "dml-lint annotations without effect at end of file."@,
            ),
        )
    }
}

/// How one row changes what is open.
proof fn lemma_open_step(kinds: Seq<LineKind>, n: int)
    requires
        0 <= n < kinds.len(),
    ensures
        takes_annotations(kinds[n]) ==> open_before(kinds, n + 1) == Set::<LintAnnotation>::empty(),
        kinds[n] matches LineKind::Allow { rule, trailing } ==> {
            let more = open_before(kinds, n).insert(LintAnnotation::Allow(rule));
            &&& !trailing ==> open_before(kinds, n + 1) == more
            &&& trailing ==> allowed_on(kinds, n) == more
        },
        kinds[n] is Code ==> allowed_on(kinds, n) == open_before(kinds, n),
        !takes_annotations(kinds[n]) ==> allowed_on(kinds, n) == Set::<LintAnnotation>::empty(),
        !takes_annotations(kinds[n]) && !(kinds[n] is Allow) ==> open_before(
            kinds,
            n + 1,
        ) == open_before(kinds, n),
{
    let before = open_before(kinds, n);
    let after = open_before(kinds, n + 1);
    if takes_annotations(kinds[n]) {
        assert forall|a: LintAnnotation| !after.contains(a) by {
            if after.contains(a) {
                let q = choose|q: int| q < n + 1 && #[trigger] open_at(kinds, q, n + 1, a);
                assert(!takes_annotations(kinds[n]));
            }
        }
        assert(after =~= Set::<LintAnnotation>::empty());
    } else {
        assert forall|a: LintAnnotation| before.contains(a) implies after.contains(a) by {
            let q = choose|q: int| q < n && #[trigger] open_at(kinds, q, n, a);
            assert(open_at(kinds, q, n + 1, a));
        }
        assert(allowed_on(kinds, n) =~= Set::<LintAnnotation>::empty());
    }
    assert forall|a: LintAnnotation|
        after.contains(a) && !(exists|q: int| q == n && #[trigger] open_at(kinds, q, n + 1, a)) implies
        before.contains(a) by {
        let q = choose|q: int| q < n + 1 && #[trigger] open_at(kinds, q, n + 1, a);
        assert(q != n);
        assert(open_at(kinds, q, n, a));
    }
    match kinds[n] {
        LineKind::Allow { rule, trailing } => {
            let own = LintAnnotation::Allow(rule);
            let more = before.insert(own);
            assert(open_at(kinds, n, n, own));
            if trailing {
                assert forall|a: LintAnnotation| allowed_on(kinds, n).contains(a) <==> more.contains(
                    a,
                ) by {
                    if allowed_on(kinds, n).contains(a) {
                        let q = choose|q: int| q <= n && #[trigger] open_at(kinds, q, n, a);
                        assert(q < n || a == own);
                    }
                    if before.contains(a) {
                        let q = choose|q: int| q < n && #[trigger] open_at(kinds, q, n, a);
                        assert(q <= n && open_at(kinds, q, n, a));
                    }
                }
                assert(allowed_on(kinds, n) =~= more);
            } else {
                assert(open_at(kinds, n, n + 1, own));
                assert(after =~= more);
            }
        },
        LineKind::Code => {
            assert forall|a: LintAnnotation| allowed_on(kinds, n).contains(a) <==> before.contains(
                a,
            ) by {
                if allowed_on(kinds, n).contains(a) {
                    let q = choose|q: int| q <= n && #[trigger] open_at(kinds, q, n, a);
                    assert(q < n);
                }
                if before.contains(a) {
                    let q = choose|q: int| q < n && #[trigger] open_at(kinds, q, n, a);
                    assert(q <= n && open_at(kinds, q, n, a));
                }
            }
            assert(allowed_on(kinds, n) =~= before);
        },
        _ => {
            assert(after =~= before);
        },
    }
}

/// How one row changes what is allowed everywhere.
proof fn lemma_everywhere_step(kinds: Seq<LineKind>, n: int)
    requires
        0 <= n < kinds.len(),
    ensures
        match kinds[n] {
            LineKind::AllowFile(rule) => allowed_everywhere(kinds, n + 1) == allowed_everywhere(
                kinds,
                n,
            ).insert(LintAnnotation::Allow(rule)),
            _ => allowed_everywhere(kinds, n + 1) == allowed_everywhere(kinds, n),
        },
{
    let before = allowed_everywhere(kinds, n);
    let after = allowed_everywhere(kinds, n + 1);
    match kinds[n] {
        LineKind::AllowFile(rule) => {
            assert(after =~= before.insert(LintAnnotation::Allow(rule)));
        },
        _ => {
            assert(after =~= before);
        },
    }
}

/// A finding about the annotations themselves.
fn annotation_error(range: ZeroRange, description: String) -> (error: DMLStyleError)
    ensures
        error@ == annotation_finding(range, description@),
{
    DMLStyleError {
        error: LocalDMLError { range, description },
        rule_ident: "LintCfg",
        rule_type: RuleType::Configuration,
    }
}

/// What a line means, with what is wrong with it.
enum LineReading {
    Blank,
    Code,
    Wrong(DMLStyleError),
    AllowFile(RuleType),
    Allow { rule: RuleType, trailing: bool },
}

/// Whether the reading says what the line means.
spec fn reads(reading: LineReading, row: u32, line: Seq<char>) -> bool {
    match reading {
        LineReading::Blank => line_kind(line) is Blank,
        LineReading::Code => line_kind(line) is Code,
        LineReading::Wrong(error) => {
            &&& line_kind(line) is BadCommand || line_kind(line) is BadTarget
            &&& row_findings(row, line) == seq![error@]
        },
        LineReading::AllowFile(rule) => line_kind(line) == LineKind::AllowFile(rule),
        LineReading::Allow { rule, trailing } => line_kind(line) == (LineKind::Allow {
            rule,
            trailing,
        }),
    }
}

/// Whether some character of the text lies between the two, or is one of them.
fn holds_between(text: &str, low: char, high: char) -> (b: bool)
    ensures
        b == exists|i: int| 0 <= i < text@.len() && low <= #[trigger] text@[i] <= high,
{
    let mut chars = text.chars();
    let ghost mut done: int = 0;
    assert(text@.skip(0) =~= text@);
    loop
        invariant
            0 <= done <= text@.len(),
            chars.obeys_prophetic_iter_laws(),
            chars.remaining() == text@.skip(done),
            forall|i: int| 0 <= i < done ==> !(low <= #[trigger] text@[i] <= high),
        decreases text@.len() - done,
    {
        match chars.next() {
            None => {
                return false;
            },
            Some(c) => {
                assert(text@.skip(done)[0] == text@[done]);
                if low <= c && c <= high {
                    return true;
                }
                proof {
                    assert(text@.skip(done).drop_first() =~= text@.skip(done + 1));
                    done = done + 1;
                }
            },
        }
    }
}

/// Whether the text is nothing but white space. Most texts hold a visible ASCII
/// character and need no closer look.
fn is_blank(text: &str) -> (b: bool)
    ensures
        b == all_white_space(text@),
{
    if holds_between(text, '!', '~') {
        return false;
    }
    just_whitespace(text)
}

/// Finds the parts of an annotation. Most lines hold no colon and need no closer
/// look.
fn find_annotation(line: &str) -> (found: Option<AnnotationCapture>)
    ensures
        match cuts_of(line@) {
            None => found is None,
            Some(c) => found matches Some(capture) && captures(line@, c, capture),
        },
{
    if !holds_between(line, ':', ':') {
        proof {
            reveal(cuts_of);
            assert forall|c: Cuts| !annotation_at(line@, c) by {
                if annotation_at(line@, c) {
                    assert(':' <= line@[c.word + 8] <= ':');
                }
            }
        }
        return None;
    }
    let found = match_annotation(line);
    proof {
        reveal(cuts_of);
        if found is Some {
            let capture = found->0;
            let c = choose|c: Cuts|
                #[trigger] annotation_at(line@, c) && captures(line@, c, capture);
            annotation_is_unambiguous(line@, c, cuts_of(line@)->0);
        }
    }
    found
}

/// Reads a line.
fn read_line(row: u32, line: &str) -> (reading: LineReading)
    ensures
        reads(reading, row, line@),
        !(reading is Wrong) ==> row_findings(row, line@) == Seq::<Finding>::empty(),
{
    match find_annotation(line) {
        None => {
            if is_blank(line) {
                LineReading::Blank
            } else {
                LineReading::Code
            }
        },
        Some(capture) => {
            let has_pre = !is_blank(capture.pre.as_str());
            let for_file = same_text(capture.op.as_str(), "allow-file");
            if !for_file && !same_text(capture.op.as_str(), "allow") {
                let mut description = "Invalid command '".to_owned();
                description.append(capture.op.as_str());
                description.append("' in dml-lint annotation.");
                return LineReading::Wrong(
                    annotation_error(
                        ZeroRange::from_u32(
                            row,
                            row,
                            capture.op_start as u32,
                            capture.op_end as u32,
                        ),
                        description,
                    ),
                );
            }
            match RuleType::from_name(capture.target.as_str()) {
                None => {
                    let mut description = "Invalid lint rule target '".to_owned();
                    description.append(capture.target.as_str());
                    description.append("'.");
                    LineReading::Wrong(
                        annotation_error(
                            ZeroRange::from_u32(
                                row,
                                row,
                                capture.target_start as u32,
                                capture.target_end as u32,
                            ),
                            description,
                        ),
                    )
                },
                Some(rule) => {
                    if for_file {
                        LineReading::AllowFile(rule)
                    } else {
                        LineReading::Allow { rule, trailing: has_pre }
                    }
                },
            }
        },
    }
}

/// Moves what is open, if anything is, to the row that takes it.
fn apply_annotations(
    row: u32,
    to_apply: &mut VecSet<LintAnnotation>,
    annotations: &mut LintAnnotations,
)
    ensures
        final(to_apply)@ == Set::<LintAnnotation>::empty(),
        final(annotations).whole_file == old(annotations).whole_file,
        final(annotations).by_line() == (if old(to_apply)@ == Set::<LintAnnotation>::empty() {
            old(annotations).by_line()
        } else {
            old(annotations).by_line().insert(row, old(to_apply)@)
        }),
{
    if to_apply.is_empty() {
        return;
    }
    let mut taken: VecSet<LintAnnotation> = VecSet::new();
    std::mem::swap(&mut taken, to_apply);
    let _ = annotations.line_specific.insert(row, taken);
    assert(annotations.by_line() =~= old(annotations).by_line().insert(row, old(to_apply)@));
}

/// Collects the annotations of a file, and what is wrong with them.
///
/// An `allow-file` annotation counts for the whole file. An `allow`
/// annotation counts for the line that it stands at the end of, or else for
/// the next line that holds something besides annotations; several may stack
/// up for one line.
pub fn obtain_lint_annotations(file: &str) -> (found: (Vec<DMLStyleError>, LintAnnotations))
    ensures
        findings(found.0@) == annotation_findings(lines_of(file@)),
        found.1.by_line() == allowed_by_row(
            kinds_of(lines_of(file@)),
            lines_of(file@).len() as int,
        ),
        found.1.whole_file@ == allowed_everywhere(
            kinds_of(lines_of(file@)),
            lines_of(file@).len() as int,
        ),
{
    let lines = split_lines(file);
    let ghost all = lines_of(file@);
    let ghost kinds = kinds_of(all);
    let mut annotations = LintAnnotations {
        line_specific: VecMap::new(),
        whole_file: VecSet::new(),
    };
    let mut incorrect: Vec<DMLStyleError> = Vec::new();
    let mut unapplied: VecSet<LintAnnotation> = VecSet::new();
    let mut row: usize = 0;
    assert(annotations.by_line() =~= Map::<u32, Set<LintAnnotation>>::empty());
    assert(annotations.whole_file@ =~= allowed_everywhere(kinds, 0));
    assert(unapplied@ =~= open_before(kinds, 0)) by {
        assert forall|a: LintAnnotation| !open_before(kinds, 0).contains(a) by {
            if open_before(kinds, 0).contains(a) {
                let q = choose|q: int| q < 0 && #[trigger] open_at(kinds, q, 0, a);
            }
        }
    }
    assert(findings(incorrect@) =~= rows_findings(all, 0));
    while row < lines.len()
        invariant
            row <= lines@.len(),
            texts(lines@) == all,
            kinds == kinds_of(all),
            unapplied@ == open_before(kinds, row as int),
            annotations.by_line() == allowed_by_row(kinds, row as int),
            annotations.whole_file@ == allowed_everywhere(kinds, row as int),
            findings(incorrect@) == rows_findings(all, row as int),
        decreases lines@.len() - row,
    {
        let ghost line = all[row as int];
        let ghost seen = incorrect@;
        assert(lines@[row as int]@ == line);
        assert(kinds[row as int] == line_kind(line));
        proof {
            lemma_open_step(kinds, row as int);
            lemma_everywhere_step(kinds, row as int);
        }
        match read_line(row as u32, lines[row].as_str()) {
            LineReading::Blank => {},
            LineReading::Code => {
                apply_annotations(row as u32, &mut unapplied, &mut annotations);
            },
            LineReading::Wrong(error) => {
                incorrect.push(error);
                assert(findings(incorrect@) =~= findings(seen) + seq![error@]);
            },
            LineReading::AllowFile(rule) => {
                let _ = annotations.whole_file.insert(LintAnnotation::Allow(rule));
            },
            LineReading::Allow { rule, trailing } => {
                let _ = unapplied.insert(LintAnnotation::Allow(rule));
                if trailing {
                    apply_annotations(row as u32, &mut unapplied, &mut annotations);
                }
            },
        }
        row += 1;
    }
    if !unapplied.is_empty() {
        let last: u32 = if row > 0 {
            (row - 1) as u32
        } else {
            0
        };
        let ghost seen = incorrect@;
        proof {
            if row == 0 {
                assert(unapplied@ =~= Set::<LintAnnotation>::empty());
            }
        }
        incorrect.push(
            annotation_error(
                ZeroRange::from_u32(last, last, 0, 0),
                "dml-lint annotations without effect at end of file.".to_owned(),
            ),
        );
        assert(findings(incorrect@) =~= findings(seen).push(incorrect@.last()@));
    }
    (incorrect, annotations)
}

} // verus!
