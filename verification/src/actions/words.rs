//! Finding the word that a cursor points at.
use crate::actions::context::InitActionContext;
use crate::collections::Keyed;
use crate::errors::{position_to_dls, DocumentPosition, FilePosition, SpanView, ZeroSpan};
use crate::path::{FilePath, PathView};
use crate::span::{Column, Row, ZeroRange};
use vstd::prelude::*;
use vstd::std_specs::iter::IteratorSpec;
use vstd::string::*;

verus! {

/// Whether a character is a letter or a digit of some script, as the tables of
/// the standard library have it.
pub uninterp spec fn is_letter_or_digit(c: char) -> bool;

/// `char::is_alphanumeric` says whether a character is a letter or a digit of
/// some script. Which characters are is not stated here: the tables are long.
/// The answer depends on the character alone.
pub assume_specification[ char::is_alphanumeric ](c: char) -> (b: bool)
    ensures
        b == is_letter_or_digit(c),
;

/// Whether a character can stand in a word.
pub open spec fn is_ident_char(c: char) -> bool {
    is_letter_or_digit(c) || c == '_'
}

/// Which characters of a line can stand in a word.
pub open spec fn ident_chars(line: Seq<char>) -> Seq<bool> {
    line.map_values(|c: char| is_ident_char(c))
}

/// The last of the first `n` characters that cannot stand in a word.
pub open spec fn last_gap(in_word: Seq<bool>, n: int) -> Option<int>
    decreases n,
{
    if n <= 0 {
        None
    } else if !in_word[n - 1] {
        Some(n - 1)
    } else {
        last_gap(in_word, n - 1)
    }
}

/// The first character from `from` on that cannot stand in a word.
pub open spec fn first_gap(in_word: Seq<bool>, from: int) -> Option<int>
    decreases in_word.len() - from,
{
    if from >= in_word.len() {
        None
    } else if !in_word[from] {
        Some(from)
    } else {
        first_gap(in_word, from + 1)
    }
}

/// Where the word starts that the cursor is in or behind: after the last
/// character before the cursor that cannot stand in a word.
pub open spec fn word_start(in_word: Seq<bool>, col: int) -> int {
    let before = if col <= in_word.len() {
        col
    } else {
        in_word.len() as int
    };
    match last_gap(in_word, before) {
        Some(i) => i + 1,
        None => 0,
    }
}

/// Where the word ends that the cursor is in or before: before the first
/// character from the cursor on that cannot stand in a word, or at the end of
/// the line where there is none. Behind the end of the line it is the cursor
/// itself.
pub open spec fn word_end(in_word: Seq<bool>, col: int) -> int {
    match first_gap(in_word, col) {
        Some(i) => i,
        None => if col <= in_word.len() {
            in_word.len() as int
        } else {
            col
        },
    }
}

/// The word that the cursor points at, given which characters of the line can
/// stand in a word.
#[verifier::truncate]
pub fn word_around(in_word: &Vec<bool>, pos: Column) -> (word: (Column, Column))
    ensures
        word.0.0 == word_start(in_word@, pos.0 as int),
        word.1.0 == (word_end(in_word@, pos.0 as int) as usize) as u32,
{
    let col: usize = pos.0 as usize;
    let mut start: usize = if col < in_word.len() {
        col
    } else {
        in_word.len()
    };
    let ghost before = start as int;
    while start > 0 && in_word[start - 1]
        invariant
            start <= before,
            before <= in_word@.len(),
            before <= col,
            last_gap(in_word@, before) == last_gap(in_word@, start as int),
        decreases start,
    {
        start = start - 1;
    }
    let mut end: usize = col;
    while end < in_word.len() && in_word[end]
        invariant
            col <= end,
            col < in_word@.len() ==> end <= in_word@.len(),
            col >= in_word@.len() ==> end == col,
            first_gap(in_word@, col as int) == first_gap(in_word@, end as int),
            col == pos.0,
        decreases in_word@.len() - end,
    {
        end = end + 1;
    }
    (Column(start as u32), Column(end as u32))
}

/// Which characters of a line can stand in a word.
fn classify(line: &str) -> (in_word: Vec<bool>)
    ensures
        in_word@ == ident_chars(line@),
{
    let mut in_word: Vec<bool> = Vec::new();
    let mut chars = line.chars();
    assert(line@.skip(0) =~= line@);
    let ghost mut done: int = 0;
    loop
        invariant
            0 <= done <= line@.len(),
            chars.obeys_prophetic_iter_laws(),
            chars.remaining() == line@.skip(done),
            in_word@ == ident_chars(line@.take(done)),
        ensures
            in_word@ == ident_chars(line@),
        decreases line@.len() - done,
    {
        match chars.next() {
            None => {
                assert(line@.take(done) =~= line@);
                break;
            },
            Some(c) => {
                in_word.push(c.is_alphanumeric() || c == '_');
                proof {
                    assert(line@.skip(done)[0] == line@[done]);
                    assert(line@.skip(done).drop_first() =~= line@.skip(done + 1));
                    assert(ident_chars(line@.take(done + 1)) =~= ident_chars(
                        line@.take(done),
                    ).push(is_ident_char(c)));
                    done = done + 1;
                }
            },
        }
    }
    in_word
}

/// The range of cursors around the word in `line` that the cursor `pos` points
/// at. A range with equal ends, such as (4, 4), is an empty selection, here
/// after the first 4 characters.
pub fn find_word_at_pos(line: &str, pos: Column) -> (word: (Column, Column))
    ensures
        word.0.0 == word_start(ident_chars(line@), pos.0 as int),
        word.1.0 == (word_end(ident_chars(line@), pos.0 as int) as usize) as u32,
        pos.0 <= line@.len() <= u32::MAX ==> {
            &&& word.0.0 <= pos.0 <= word.1.0 <= line@.len()
            &&& forall|i: int|
                word.0.0 <= i < word.1.0 ==> is_letter_or_digit(#[trigger] line@[i]) || line@[i]
                    == '_'
            &&& word.0.0 == 0 || !(is_letter_or_digit(line@[word.0.0 - 1]) || line@[word.0.0 - 1]
                == '_')
            &&& word.1.0 == line@.len() || !(is_letter_or_digit(line@[word.1.0 as int])
                || line@[word.1.0 as int] == '_')
        },
{
    proof {
        if pos.0 <= line@.len() <= u32::MAX {
            selection_is_a_word(ident_chars(line@), pos.0 as int);
            let start = word_start(ident_chars(line@), pos.0 as int);
            let end = word_end(ident_chars(line@), pos.0 as int);
            assert forall|i: int| start <= i < end implies is_letter_or_digit(#[trigger] line@[i])
                || line@[i] == '_' by {
                assert(ident_chars(line@)[i]);
            }
        }
    }
    let in_word = classify(line);
    word_around(&in_word, pos)
}

/// The span of the word at a position.
pub open spec fn word_span(file: PathView, position: DocumentPosition, line: Seq<char>) -> SpanView {
    let row = Row(position.line);
    let in_word = ident_chars(line);
    SpanView {
        range: ZeroRange {
            row_start: row,
            row_end: row,
            col_start: Column(word_start(in_word, position.character as int) as u32),
            col_end: Column((word_end(in_word, position.character as int) as usize) as u32),
        },
        file,
    }
}

impl InitActionContext {
    /// The span of the word at a position. `line` is the line of the file that
    /// the position is in.
    pub fn convert_pos_to_span(
        &self,
        file_path: &FilePath,
        position: DocumentPosition,
        line: &str,
    ) -> (span: ZeroSpan)
        ensures
            span@ == word_span(file_path@, position, line@),
            span.file@ == file_path@,
            span.range.row_start.0 == position.line,
            span.range.row_end.0 == position.line,
            span.range.col_start.0 == word_start(ident_chars(line@), position.character as int),
            span.range.col_end.0 == (word_end(ident_chars(line@), position.character as int)
                as usize) as u32,
    {
        proof {
            lemma_word_start(ident_chars(line@), position.character as int);
        }
        let pos = position_to_dls(position);
        let (start, end) = find_word_at_pos(line, pos.col);
        ZeroSpan {
            range: ZeroRange {
                row_start: pos.row,
                row_end: pos.row,
                col_start: start,
                col_end: end,
            },
            file: file_path.duplicate(),
        }
    }

    /// Where the word at a position starts. `file_path` is the path of the
    /// document, where it is a file; `line` is the line that the position is
    /// in.
    pub fn text_doc_pos_to_pos(
        &self,
        file_path: &Option<FilePath>,
        position: DocumentPosition,
        line: &str,
    ) -> (found: Option<FilePosition>)
        ensures
            found is Some == file_path is Some,
            found matches Some(place) ==> {
                &&& place.file@ == file_path->0@
                &&& place.position.row == Row(position.line)
                &&& place.position.col.0 == word_start(
                    ident_chars(line@),
                    position.character as int,
                )
            },
    {
        match file_path {
            Some(path) => {
                let span = self.convert_pos_to_span(path, position, line);
                proof {
                    lemma_word_start(ident_chars(line@), position.character as int);
                }
                Some(span.start_position())
            },
            None => None,
        }
    }
}

/// A word starts at or before the cursor.
pub proof fn lemma_word_start(in_word: Seq<bool>, col: int)
    requires
        0 <= col,
    ensures
        0 <= word_start(in_word, col) <= col,
        word_start(in_word, col) <= in_word.len(),
{
    let before = if col <= in_word.len() {
        col
    } else {
        in_word.len() as int
    };
    lemma_last_gap(in_word, before);
}

/// The last gap lies among the characters that are looked at.
proof fn lemma_last_gap(in_word: Seq<bool>, n: int)
    ensures
        last_gap(in_word, n) matches Some(i) ==> 0 <= i < n && !in_word[i],
        forall|j: int|
            (match last_gap(in_word, n) {
                Some(i) => i < j < n,
                None => 0 <= j < n,
            }) ==> #[trigger] in_word[j],
    decreases n,
{
    if n > 0 && in_word[n - 1] {
        lemma_last_gap(in_word, n - 1);
    }
}

/// The first gap is at or behind the place where the search starts.
proof fn lemma_first_gap(in_word: Seq<bool>, from: int)
    requires
        0 <= from,
    ensures
        first_gap(in_word, from) matches Some(i) ==> from <= i < in_word.len() && !in_word[i],
        forall|j: int|
            from <= j < in_word.len() && (first_gap(in_word, from) matches Some(i) ==> j < i)
                ==> #[trigger] in_word[j],
    decreases in_word.len() - from,
{
    if from < in_word.len() && in_word[from] {
        lemma_first_gap(in_word, from + 1);
    }
}

/// A character can stand in a word if and only if it is a letter, a digit or an
/// underscore: what is selected holds no other, and what stops it on either side
/// is another.
pub proof fn words_are_letters_digits_and_underscores(line: Seq<char>, col: int)
    requires
        0 <= col <= line.len(),
    ensures
        forall|i: int|
            word_start(ident_chars(line), col) <= i < word_end(ident_chars(line), col)
                ==> is_letter_or_digit(#[trigger] line[i]) || line[i] == '_',
        word_start(ident_chars(line), col) > 0 ==> {
            let c = line[word_start(ident_chars(line), col) - 1];
            !is_letter_or_digit(c) && c != '_'
        },
        word_end(ident_chars(line), col) < line.len() ==> {
            let c = line[word_end(ident_chars(line), col)];
            !is_letter_or_digit(c) && c != '_'
        },
{
    let in_word = ident_chars(line);
    selection_is_a_word(in_word, col);
    assert forall|i: int| word_start(in_word, col) <= i < word_end(in_word, col) implies
        is_letter_or_digit(#[trigger] line[i]) || line[i] == '_' by {
        assert(in_word[i]);
    }
}

/// Behind the end of the line the selection is what the line ends in, up to the
/// cursor.
pub proof fn cursor_behind_the_line(in_word: Seq<bool>, col: int)
    requires
        in_word.len() < col,
    ensures
        word_start(in_word, col) == word_start(in_word, in_word.len() as int),
        word_end(in_word, col) == col,
{
}

/// What is selected holds only characters that can stand in a word, the cursor
/// lies in it or at one of its ends, and it can be extended neither to the left
/// nor to the right.
pub proof fn selection_is_a_word(in_word: Seq<bool>, col: int)
    requires
        0 <= col <= in_word.len(),
    ensures
        0 <= word_start(in_word, col) <= col <= word_end(in_word, col) <= in_word.len(),
        forall|i: int|
            word_start(in_word, col) <= i < word_end(in_word, col) ==> #[trigger] in_word[i],
        word_start(in_word, col) == 0 || !in_word[word_start(in_word, col) - 1],
        word_end(in_word, col) == in_word.len() || !in_word[word_end(in_word, col)],
{
    lemma_word_start(in_word, col);
    lemma_last_gap(in_word, col);
    lemma_first_gap(in_word, col);
}

/// Every cursor in a word or at one of its ends finds the same range.
pub proof fn every_cursor_finds_the_word(in_word: Seq<bool>, col: int, other: int)
    requires
        0 <= col <= in_word.len(),
        word_start(in_word, col) <= other <= word_end(in_word, col),
    ensures
        word_start(in_word, other) == word_start(in_word, col),
        word_end(in_word, other) == word_end(in_word, col),
{
    let start = word_start(in_word, col);
    let end = word_end(in_word, col);
    selection_is_a_word(in_word, col);
    selection_is_a_word(in_word, other);
    let second_start = word_start(in_word, other);
    let second_end = word_end(in_word, other);
    if second_start < start {
        assert(in_word[start - 1]);
    } else if start < second_start {
        assert(in_word[second_start - 1]);
    }
    if second_end < end {
        assert(in_word[second_end]);
    } else if end < second_end {
        assert(in_word[end]);
    }
}

} // verus!
