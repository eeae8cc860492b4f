//! Paths of files.
use crate::collections::Keyed;
use crate::text::{copy_texts, same_text, texts};
use vstd::prelude::*;
use vstd::std_specs::iter::IteratorSpec;
use vstd::string::*;

verus! {

/// A path: its text, and its components. The root directory, where there is
/// one, is the first component and is written `/`. Two paths with the same
/// components lead to the same place, however they are written. Neither part is
/// computed from the other: whoever makes a path gives both.
pub struct FilePath {
    pub text: String,
    pub components: Vec<String>,
}

/// A path that has been resolved to its canonical form.
pub type CanonPath = FilePath;

/// What a path says.
pub struct PathView {
    pub text: Seq<char>,
    pub components: Seq<Seq<char>>,
}

impl View for FilePath {
    type V = PathView;

    open spec fn view(&self) -> PathView {
        PathView { text: self.text@, components: texts(self.components@) }
    }
}

impl Keyed for FilePath {
    type Key = Seq<Seq<char>>;

    open spec fn key(&self) -> Seq<Seq<char>> {
        self@.components
    }

    fn same_key(&self, other: &Self) -> (same: bool) {
        if self.components.len() != other.components.len() {
            assert(self.key().len() != other.key().len());
            return false;
        }
        let mut i: usize = 0;
        while i < self.components.len()
            invariant
                i <= self.components@.len(),
                self.components@.len() == other.components@.len(),
                forall|j: int|
                    0 <= j < i ==> (#[trigger] self.components@[j])@ == other.components@[j]@,
            decreases self.components@.len() - i,
        {
            if self.components[i] != other.components[i] {
                assert(self.key()[i as int] != other.key()[i as int]);
                return false;
            }
            i += 1;
        }
        assert(self.key() =~= other.key());
        true
    }

    fn duplicate(&self) -> (copy: Self) {
        FilePath { text: self.text.clone(), components: copy_texts(&self.components) }
    }
}

/// Whether a component names something: it is neither the root directory nor
/// a step within the tree.
pub open spec fn is_name(component: Seq<char>) -> bool {
    component != "/"@ && component != "."@ && component != ".."@
}

/// The last component of a path, where it is a name.
pub open spec fn file_name_of(components: Seq<Seq<char>>) -> Option<Seq<char>> {
    if components.len() > 0 && is_name(components.last()) {
        Some(components.last())
    } else {
        None
    }
}

/// The path without its last component. The root directory has no parent, and
/// neither has the empty path.
pub open spec fn parent_of(components: Seq<Seq<char>>) -> Option<Seq<Seq<char>>> {
    if components.len() > 0 && components.last() != "/"@ {
        Some(components.drop_last())
    } else {
        None
    }
}

/// Whether a path lies at or below another one.
pub open spec fn lies_under(path: Seq<Seq<char>>, base: Seq<Seq<char>>) -> bool {
    base.len() <= path.len() && path.take(base.len() as int) == base
}

/// Whether a path lies in the directory that another path lies in, or below
/// it.
pub open spec fn lies_beside(path: Seq<Seq<char>>, other: Seq<Seq<char>>) -> bool {
    parent_of(other) matches Some(parent) && lies_under(path, parent)
}

/// What follows the last dot of a file name. A name without a dot, or with
/// its only dot in front, has no extension.
pub open spec fn extension_of(name: Seq<char>) -> Option<Seq<char>> {
    match name.index_of_last('.') {
        Some(i) => if i > 0 {
            Some(name.skip(i + 1))
        } else {
            None
        },
        None => None,
    }
}

impl FilePath {
    /// The path with this text and these components.
    pub fn new(text: String, components: Vec<String>) -> (path: Self)
        ensures
            path@.text == text@,
            path@.components == texts(components@),
    {
        FilePath { text, components }
    }

    /// Whether the two paths lead to the same place.
    pub fn same_as(&self, other: &FilePath) -> (same: bool)
        ensures
            same == (self@.components == other@.components),
    {
        self.same_key(other)
    }

    /// Whether the path starts with the first `n` components of the other.
    fn starts_with_first(&self, other: &FilePath, n: usize) -> (b: bool)
        requires
            n <= other.components@.len(),
        ensures
            b == lies_under(self@.components, other@.components.take(n as int)),
    {
        let ghost base = other@.components.take(n as int);
        if n > self.components.len() {
            return false;
        }
        let mut i: usize = 0;
        while i < n
            invariant
                i <= n,
                n <= self.components@.len(),
                n <= other.components@.len(),
                base == other@.components.take(n as int),
                forall|j: int|
                    0 <= j < i ==> (#[trigger] self.components@[j])@ == other.components@[j]@,
            decreases n - i,
        {
            if self.components[i] != other.components[i] {
                assert(self@.components.take(n as int)[i as int] != base[i as int]);
                return false;
            }
            i += 1;
        }
        assert(self@.components.take(n as int) =~= base);
        true
    }

    /// Whether the path lies at or below `base`.
    pub fn starts_with(&self, base: &FilePath) -> (b: bool)
        ensures
            b == lies_under(self@.components, base@.components),
    {
        assert(base@.components.take(base.components@.len() as int) =~= base@.components);
        self.starts_with_first(base, base.components.len())
    }

    /// Whether the path lies in the directory of `other` or below it.
    pub fn is_beside(&self, other: &FilePath) -> (b: bool)
        requires
            parent_of(other@.components) is Some,
        ensures
            b == lies_beside(self@.components, other@.components),
    {
        let n: usize = other.components.len();
        assert(other@.components.drop_last() =~= other@.components.take(n - 1));
        self.starts_with_first(other, n - 1)
    }

    /// Whether the path has a file name, and it is `name`.
    pub fn file_name_is(&self, name: &str) -> (b: bool)
        ensures
            b == (file_name_of(self@.components) == Some(name@)),
    {
        let n: usize = self.components.len();
        if n == 0 {
            return false;
        }
        let last = self.components[n - 1].as_str();
        assert(last@ == self@.components.last());
        same_text(last, name) && !same_text(last, "/") && !same_text(last, ".") && !same_text(
            last,
            "..",
        )
    }

    /// Whether the path has a file name with the extension `extension`.
    pub fn extension_is(&self, extension: &str) -> (b: bool)
        ensures
            b == has_extension(self@.components, extension@),
    {
        let n: usize = self.components.len();
        if n == 0 {
            return false;
        }
        let last = self.components[n - 1].as_str();
        assert(last@ == self@.components.last());
        if same_text(last, "/") || same_text(last, ".") || same_text(last, "..") {
            return false;
        }
        match extension_text(last) {
            Some(found) => same_text(found.as_str(), extension),
            None => false,
        }
    }
}

/// Whether a path has a file name with this extension.
pub open spec fn has_extension(components: Seq<Seq<char>>, extension: Seq<char>) -> bool {
    file_name_of(components) matches Some(name) && extension_of(name) == Some(extension)
}

/// How one more character changes the extension.
proof fn lemma_extension_push(name: Seq<char>, c: char)
    ensures
        extension_of(name.push(c)) == (if c == '.' {
            if name.len() > 0 {
                Some(Seq::<char>::empty())
            } else {
                None
            }
        } else {
            match extension_of(name) {
                Some(e) => Some(e.push(c)),
                None => None,
            }
        }),
{
    let longer = name.push(c);
    name.index_of_last_ensures('.');
    longer.index_of_last_ensures('.');
    if c == '.' {
        assert(longer[name.len() as int] == '.');
        assert(longer.contains('.'));
        assert(longer.skip(name.len() as int + 1) =~= Seq::<char>::empty());
    } else {
        if name.contains('.') {
            let i = name.index_of_last('.')->0;
            assert(longer[i] == '.');
            assert(longer.contains('.'));
            let j = longer.index_of_last('.')->0;
            assert(j < name.len());
            assert(name[j] == '.');
            assert(i == j);
            assert(longer.skip(i + 1) =~= name.skip(i + 1).push(c));
        } else {
            if longer.contains('.') {
                let k = choose|k: int| 0 <= k < longer.len() && longer[k] == '.';
                assert(name[k] == '.');
            }
        }
    }
}

/// The extension of a file name.
fn extension_text(name: &str) -> (extension: Option<String>)
    ensures
        extension is Some == extension_of(name@) is Some,
        extension matches Some(e) ==> extension_of(name@) == Some(e@),
{
    let mut chars = name.chars();
    let mut first: bool = true;
    let mut extension: Option<String> = None;
    let ghost mut done: int = 0;
    proof {
        name@.take(0).index_of_last_ensures('.');
    }
    loop
        invariant
            0 <= done <= name@.len(),
            first == (done == 0),
            first ==> extension is None,
            chars.obeys_prophetic_iter_laws(),
            chars.remaining() == name@.skip(done),
            extension is Some == extension_of(name@.take(done)) is Some,
            extension matches Some(e) ==> extension_of(name@.take(done)) == Some(e@),
        decreases name@.len() - done,
    {
        match chars.next() {
            None => {
                assert(name@.take(done) =~= name@);
                return extension;
            },
            Some(c) => {
                proof {
                    assert(c == name@[done]);
                    assert(chars.remaining() =~= name@.skip(done + 1));
                    assert(name@.take(done + 1) =~= name@.take(done).push(c));
                    lemma_extension_push(name@.take(done), c);
                }
                if c == '.' {
                    if !first {
                        extension = Some(String::new());
                    }
                } else {
                    match extension {
                        Some(mut e) => {
                            e.push(c);
                            extension = Some(e);
                        },
                        None => {
                            extension = None;
                        },
                    }
                }
                first = false;
                proof {
                    done = done + 1;
                }
            },
        }
    }
}

/// A path says its text and its components, in order, and is told apart by the
/// components.
pub proof fn paths_are_told_apart_by_components(path: FilePath, i: int)
    ensures
        path@.text == path.text@,
        path@.components.len() == path.components@.len(),
        0 <= i < path.components@.len() ==> path@.components[i] == path.components@[i]@,
        path.key() == path@.components,
{
}

} // verus!
