//! Strings: comparing, joining, splitting into lines, white space.
use vstd::prelude::*;
use vstd::std_specs::iter::IteratorSpec;
use vstd::string::*;

verus! {

/// `String::push` puts one character behind the string's own.
pub assume_specification[ String::push ](s: &mut String, c: char)
    ensures
        final(s)@ == old(s)@.push(c),
;

/// The characters of each string.
pub open spec fn texts(strings: Seq<String>) -> Seq<Seq<char>> {
    strings.map_values(|s: String| s@)
}

/// The characters of a string that may be absent.
pub open spec fn opt_text(s: Option<String>) -> Option<Seq<char>> {
    match s {
        Some(t) => Some(t@),
        None => None,
    }
}

/// A copy of a list of strings.
pub fn copy_texts(strings: &Vec<String>) -> (copy: Vec<String>)
    ensures
        texts(copy@) == texts(strings@),
{
    let mut copy: Vec<String> = Vec::new();
    let mut i: usize = 0;
    while i < strings.len()
        invariant
            i <= strings@.len(),
            copy@.len() == i,
            forall|j: int| 0 <= j < i ==> (#[trigger] copy@[j])@ == strings@[j]@,
        decreases strings@.len() - i,
    {
        copy.push(strings[i].clone());
        i += 1;
    }
    assert(texts(copy@) =~= texts(strings@));
    copy
}

/// Whether the two strings hold the same characters.
pub fn same_text(a: &str, b: &str) -> (same: bool)
    ensures
        same == (a@ == b@),
{
    let mut x = a.chars();
    let mut y = b.chars();
    let ghost mut done: int = 0;
    loop
        invariant
            0 <= done <= a@.len(),
            done <= b@.len(),
            x.obeys_prophetic_iter_laws(),
            y.obeys_prophetic_iter_laws(),
            x.remaining() == a@.skip(done),
            y.remaining() == b@.skip(done),
            a@.take(done) == b@.take(done),
        decreases a@.len() - done,
    {
        let c = x.next();
        let d = y.next();
        match (c, d) {
            (Some(c), Some(d)) => {
                assert(c == a@[done] && d == b@[done]);
                if c != d {
                    return false;
                }
                proof {
                    assert(x.remaining() =~= a@.skip(done + 1));
                    assert(y.remaining() =~= b@.skip(done + 1));
                    assert(a@.take(done + 1) =~= a@.take(done).push(c));
                    assert(b@.take(done + 1) =~= b@.take(done).push(d));
                    done = done + 1;
                }
            },
            (None, None) => {
                assert(a@ =~= a@.take(done));
                assert(b@ =~= b@.take(done));
                return true;
            },
            _ => {
                return false;
            },
        }
    }
}

/// The parts one after the other, with the separator between neighbours.
pub open spec fn joined(parts: Seq<Seq<char>>, separator: Seq<char>) -> Seq<char>
    decreases parts.len(),
{
    if parts.len() == 0 {
        Seq::empty()
    } else if parts.len() == 1 {
        parts[0]
    } else {
        joined(parts.drop_last(), separator) + separator + parts.last()
    }
}

/// Joins the parts with the separator.
pub fn join(parts: &Vec<String>, separator: &str) -> (text: String)
    ensures
        text@ == joined(texts(parts@), separator@),
{
    let mut text = String::new();
    let mut i: usize = 0;
    let ghost all = texts(parts@);
    assert(all.take(0) =~= Seq::<Seq<char>>::empty());
    while i < parts.len()
        invariant
            i <= parts@.len(),
            all == texts(parts@),
            text@ == joined(all.take(i as int), separator@),
        decreases parts@.len() - i,
    {
        if i > 0 {
            text.append(separator);
        }
        text.append(parts[i].as_str());
        proof {
            let next = all.take(i as int + 1);
            assert(next.drop_last() =~= all.take(i as int));
            assert(next.last() == parts@[i as int]@);
            if i == 0 {
                assert(text@ =~= next[0]);
            }
        }
        i += 1;
    }
    assert(all.take(i as int) =~= all);
    text
}

/// The Unicode property `White_Space`.
pub open spec fn is_white_space(c: char) -> bool {
    let u = c as u32;
    ||| 0x9 <= u <= 0xd
    ||| u == 0x20
    ||| u == 0x85
    ||| u == 0xa0
    ||| u == 0x1680
    ||| 0x2000 <= u <= 0x200a
    ||| 0x2028 <= u <= 0x2029
    ||| u == 0x202f
    ||| u == 0x205f
    ||| u == 0x3000
}

/// Nothing but white space, or nothing at all.
pub open spec fn all_white_space(s: Seq<char>) -> bool {
    forall|i: int| 0 <= i < s.len() ==> is_white_space(#[trigger] s[i])
}

/// A line without the carriage return that stands right before its line feed.
pub open spec fn without_return(line: Seq<char>) -> Seq<char> {
    if line.len() > 0 && line.last() == '\r' {
        line.drop_last()
    } else {
        line
    }
}

/// The lines of a text. A line ends at a line feed, which may have a carriage
/// return in front of it; neither is part of the line. The last line needs no
/// line feed, and where the text ends in one, no empty line follows it.
pub open spec fn lines_of(s: Seq<char>) -> Seq<Seq<char>>
    decreases s.len(),
{
    if s.len() == 0 {
        Seq::empty()
    } else {
        proof {
            s.index_of_first_ensures('\n');
        }
        match s.index_of_first('\n') {
            Some(i) => seq![without_return(s.take(i))] + lines_of(s.skip(i + 1)),
            None => seq![s],
        }
    }
}

/// The first line feed stands right behind text that holds none.
proof fn lemma_lines_break(line: Seq<char>, rest: Seq<char>)
    requires
        !line.contains('\n'),
    ensures
        lines_of(line + seq!['\n'] + rest) == seq![without_return(line)] + lines_of(rest),
{
    let s = line + seq!['\n'] + rest;
    s.index_of_first_ensures('\n');
    assert(s[line.len() as int] == '\n');
    assert(s.contains('\n'));
    let i = s.index_of_first('\n')->0;
    if i < line.len() {
        assert(line[i] == s[i]);
        assert(line.contains('\n'));
    }
    assert(i == line.len());
    assert(s.take(i) =~= line);
    assert(s.skip(i + 1) =~= rest);
}

/// Splits a text into its lines.
pub fn split_lines(text: &str) -> (lines: Vec<String>)
    ensures
        texts(lines@) == lines_of(text@),
{
    let mut lines: Vec<String> = Vec::new();
    let mut line = String::new();
    let mut chars = text.chars();
    let ghost mut done: int = 0;
    assert(texts(lines@) + lines_of(line@ + text@) =~= lines_of(text@)) by {
        assert(line@ + text@ =~= text@);
    }
    loop
        invariant_except_break
            0 <= done <= text@.len(),
            chars.obeys_prophetic_iter_laws(),
            chars.remaining() == text@.skip(done),
            !line@.contains('\n'),
            texts(lines@) + lines_of(line@ + chars.remaining()) == lines_of(text@),
        ensures
            !line@.contains('\n'),
            texts(lines@) + lines_of(line@) == lines_of(text@),
        decreases text@.len() - done,
    {
        let ghost before = chars.remaining();
        let ghost seen = lines@;
        match chars.next() {
            None => {
                assert(line@ + before =~= line@);
                break;
            },
            Some(c) => {
                assert(c == text@[done]);
                assert(before =~= seq![c] + chars.remaining());
                assert(chars.remaining() =~= text@.skip(done + 1));
                if c == '\n' {
                    assert(line@ + before =~= line@ + seq!['\n'] + chars.remaining());
                    proof {
                        lemma_lines_break(line@, chars.remaining());
                    }
                    let ghost whole = line@;
                    let mut finished = String::new();
                    std::mem::swap(&mut finished, &mut line);
                    let finished = strip_return(finished);
                    lines.push(finished);
                    assert(texts(lines@) =~= texts(seen).push(without_return(whole)));
                    assert(line@ + chars.remaining() =~= chars.remaining());
                    assert(texts(lines@) + lines_of(chars.remaining()) =~= texts(seen) + (seq![
                        without_return(whole),
                    ] + lines_of(chars.remaining())));
                } else {
                    let ghost was = line@;
                    line.push(c);
                    assert(was + before =~= line@ + chars.remaining());
                    assert(!line@.contains('\n')) by {
                        if line@.contains('\n') {
                            let i = choose|i: int| 0 <= i < line@.len() && line@[i] == '\n';
                            if i < was.len() {
                                assert(was[i] == '\n');
                            }
                        }
                    }
                }
                proof {
                    done = done + 1;
                }
            },
        }
    }
    let ghost seen = lines@;
    proof {
        line@.index_of_first_ensures('\n');
    }
    if !line.as_str().is_empty() {
        lines.push(line);
        assert(texts(lines@) =~= texts(seen) + seq![line@]);
    } else {
        assert(line@ =~= Seq::<char>::empty());
        assert(texts(seen) + lines_of(line@) =~= texts(seen));
    }
    lines
}

/// Takes one carriage return off the end.
fn strip_return(line: String) -> (stripped: String)
    ensures
        stripped@ == without_return(line@),
{
    let n = line.as_str().unicode_len();
    if n > 0 && line.as_str().get_char(n - 1) == '\r' {
        let stripped = line.as_str().substring_char(0, n - 1).to_owned();
        assert(stripped@ =~= line@.drop_last());
        stripped
    } else {
        line
    }
}

/// How a text falls into lines: one that holds no line feed is one line, unless it
/// is empty; what stands before the first line feed is a line, without a carriage
/// return right before it, and the rest falls into lines likewise.
pub proof fn lines_end_at_line_feeds(line: Seq<char>, rest: Seq<char>)
    requires
        !line.contains('\n'),
    ensures
        lines_of(Seq::empty()).len() == 0,
        line.len() > 0 ==> lines_of(line) == seq![line],
        !line.contains('\r') ==> lines_of(line + seq!['\n'] + rest) == seq![line] + lines_of(rest),
        lines_of(line + seq!['\r', '\n'] + rest) == seq![line] + lines_of(rest),
        lines_of(line + seq!['\n'] + rest).len() == 1 + lines_of(rest).len(),
{
    line.index_of_first_ensures('\n');
    lemma_lines_break(line, rest);
    if !line.contains('\r') && line.len() > 0 {
        assert(line.contains(line[line.len() - 1]));
    }
    let ended = line.push('\r');
    assert forall|i: int| 0 <= i < ended.len() implies ended[i] != '\n' by {
        if i < line.len() {
            assert(line.contains(line[i]));
        }
    }
    lemma_lines_break(ended, rest);
    assert(ended + seq!['\n'] + rest =~= line + seq!['\r', '\n'] + rest);
    assert(without_return(ended) =~= line);
}

/// How parts are joined: the separator stands between neighbours, and nowhere else.
pub proof fn separators_stand_between(parts: Seq<Seq<char>>, part: Seq<char>, separator: Seq<char>)
    ensures
        joined(Seq::empty(), separator).len() == 0,
        joined(seq![part], separator) == part,
        parts.len() > 0 ==> joined(parts.push(part), separator) == joined(parts, separator)
            + separator + part,
{
    assert(parts.push(part).drop_last() =~= parts);
}

} // verus!
