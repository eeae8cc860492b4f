//! The versions of changes.
//!
//! Changes come with sequence numbers. Clients may get them wrong, so they are
//! checked.
use crate::actions::analysis::PathKey;
use crate::actions::context::InitActionContext;
use crate::collections::Keyed;
use crate::path::FilePath;
use vstd::prelude::*;

verus! {

/// How a sequence number relates to the last one of the same file.
#[derive(Clone, Copy, PartialEq, Eq, Structural, Debug)]
pub enum VersionOrdering {
    /// It comes later.
    InOrder,
    /// It is the same: the client sent one change more than once, and all but
    /// the first are to be passed over.
    Duplicate,
    /// It comes earlier. There is no obvious way to recover.
    OutOfOrder,
}

/// How a sequence number relates to those that came before.
pub open spec fn version_order(
    changes: Map<PathKey, i32>,
    file: PathKey,
    version: i32,
) -> VersionOrdering {
    if !changes.contains_key(file) || version > changes[file] {
        VersionOrdering::InOrder
    } else if version == changes[file] {
        VersionOrdering::Duplicate
    } else {
        VersionOrdering::OutOfOrder
    }
}

/// The last sequence numbers after one more was checked.
pub open spec fn changes_after(
    changes: Map<PathKey, i32>,
    file: PathKey,
    version: i32,
) -> Map<PathKey, i32> {
    if version_order(changes, file, version) == VersionOrdering::InOrder {
        changes.insert(file, version)
    } else {
        changes
    }
}

impl InitActionContext {
    /// Checks the sequence number of a change, and remembers it if it is in
    /// order.
    pub fn check_change_version(&mut self, file_path: &FilePath, version_num: i32) -> (order:
        VersionOrdering)
        ensures
            order == version_order(old(self).prev_changes@, file_path.key(), version_num),
            *final(self) == (InitActionContext {
                prev_changes: final(self).prev_changes,
                ..*old(self)
            }),
            final(self).prev_changes@ == changes_after(
                old(self).prev_changes@,
                file_path.key(),
                version_num,
            ),
    {
        if let Some(prev_version) = self.prev_changes.get(file_path) {
            if version_num <= *prev_version {
                if version_num == *prev_version {
                    return VersionOrdering::Duplicate;
                } else {
                    return VersionOrdering::OutOfOrder;
                }
            }
        }
        let _ = self.prev_changes.insert(file_path.duplicate(), version_num);
        VersionOrdering::InOrder
    }

    /// Forgets the sequence numbers of a file.
    pub fn reset_change_version(&mut self, file_path: &FilePath)
        ensures
            *final(self) == (InitActionContext {
                prev_changes: final(self).prev_changes,
                ..*old(self)
            }),
            final(self).prev_changes@ == old(self).prev_changes@.remove(file_path.key()),
    {
        let _ = self.prev_changes.remove(file_path);
    }
}

/// A change that was in order is never in order again, and neither is an
/// earlier one, whatever changes of this or other files are checked between.
pub proof fn accepted_only_once(
    changes: Map<PathKey, i32>,
    file: PathKey,
    version: i32,
    between: Seq<(PathKey, i32)>,
    later: i32,
)
    requires
        version_order(changes, file, version) == VersionOrdering::InOrder,
        later <= version,
    ensures
        version_order(
            all_checked(changes_after(changes, file, version), between),
            file,
            later,
        ) != VersionOrdering::InOrder,
{
    lemma_versions_grow(changes_after(changes, file, version), between, file);
}

/// The last sequence numbers after a number of changes were checked.
pub open spec fn all_checked(
    changes: Map<PathKey, i32>,
    checked: Seq<(PathKey, i32)>,
) -> Map<PathKey, i32>
    decreases checked.len(),
{
    if checked.len() == 0 {
        changes
    } else {
        let before = all_checked(changes, checked.drop_last());
        changes_after(before, checked.last().0, checked.last().1)
    }
}

/// The last sequence number of a file never falls.
proof fn lemma_versions_grow(
    changes: Map<PathKey, i32>,
    checked: Seq<(PathKey, i32)>,
    file: PathKey,
)
    requires
        changes.contains_key(file),
    ensures
        all_checked(changes, checked).contains_key(file),
        all_checked(changes, checked)[file] >= changes[file],
    decreases checked.len(),
{
    if checked.len() > 0 {
        lemma_versions_grow(changes, checked.drop_last(), file);
    }
}

/// After a file's sequence numbers were forgotten, any number is in order.
pub proof fn reset_accepts_anything(changes: Map<PathKey, i32>, file: PathKey, version: i32)
    ensures
        version_order(changes.remove(file), file, version) == VersionOrdering::InOrder,
{
}

} // verus!
