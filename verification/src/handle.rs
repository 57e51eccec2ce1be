//! Handles: what a program holds while it has a file or a directory open.

use crate::stat::{Stat, Timestamp};
use crate::tree::{attached, restated_sound, OpenEntry, Tree};
use vstd::prelude::*;

verus! {

broadcast use vstd::std_specs::hash::group_hash_axioms;

/// An open file or directory.
#[derive(Debug)]
pub struct EntryHandle {
    pub entry: OpenEntry,
    pub delete_on_close: bool,
    /// A modification time that is noted when the file is closed.
    pub mtime_delayed: Option<Timestamp>,
    /// An access time that is noted when the file is closed.
    pub atime_delayed: Option<Timestamp>,
    /// Whether operations through this handle change the creation time.
    pub ctime_enabled: bool,
    /// Whether operations through this handle change the modification time.
    pub mtime_enabled: bool,
    /// Whether operations through this handle change the access time.
    pub atime_enabled: bool,
}

/// What to do with one of the times of an entry.
#[derive(Debug, Clone, Copy)]
pub enum FileTimeOperation {
    /// Set the time.
    SetTime(Timestamp),
    /// Leave the time as it is.
    DontChange,
    /// Stop changing the time through this handle.
    DisableUpdate,
    /// Change the time through this handle again.
    ResumeUpdate,
}

/// The time after an operation on it, where `enabled` says whether it may change.
pub open spec fn time_after(op: FileTimeOperation, time: Timestamp, enabled: bool) -> Timestamp {
    match op {
        FileTimeOperation::SetTime(new) => if enabled {
            new
        } else {
            time
        },
        _ => time,
    }
}

/// Whether a time may change after an operation on it.
pub open spec fn enabled_after(op: FileTimeOperation, enabled: bool) -> bool {
    match op {
        FileTimeOperation::DisableUpdate => false,
        FileTimeOperation::ResumeUpdate => true,
        _ => enabled,
    }
}

/// Performs an operation on one time and on whether it may change.
fn process_time_info(op: FileTimeOperation, time: Timestamp, enabled: bool) -> (after: (
    Timestamp,
    bool,
))
    ensures
        after.0 == time_after(op, time, enabled),
        after.1 == enabled_after(op, enabled),
{
    match op {
        FileTimeOperation::SetTime(new) => {
            if enabled {
                (new, enabled)
            } else {
                (time, enabled)
            }
        },
        FileTimeOperation::DisableUpdate => (time, false),
        FileTimeOperation::ResumeUpdate => (time, true),
        FileTimeOperation::DontChange => (time, enabled),
    }
}

/// The later of a time and another one, if there is another one.
pub open spec fn later(time: Timestamp, delayed: Option<Timestamp>) -> Timestamp {
    match delayed {
        Some(t) => if t > time {
            t
        } else {
            time
        },
        None => time,
    }
}

/// Notes an access, where that is enabled.
pub(crate) fn note_access(stat: &mut Stat, enabled: bool, atime: Timestamp)
    ensures
        *final(stat) == (if enabled {
            Stat { atime, ..*old(stat) }
        } else {
            *old(stat)
        }),
{
    if enabled {
        stat.atime = atime;
    }
}

impl EntryHandle {
    /// A handle on an entry, with nothing delayed and all times enabled.
    pub open spec fn fresh(entry: OpenEntry, delete_on_close: bool) -> EntryHandle {
        EntryHandle {
            entry,
            delete_on_close,
            mtime_delayed: None,
            atime_delayed: None,
            ctime_enabled: true,
            mtime_enabled: true,
            atime_enabled: true,
        }
    }

    /// Whether this is a fresh handle on `entry`, which counts one handle more.
    pub open spec fn opened(
        &self,
        tree: Tree,
        entry: OpenEntry,
        tree_before: Tree,
        delete_on_close: bool,
    ) -> bool {
        let stat = entry.stat_in(tree_before);
        &&& *self == EntryHandle::fresh(self.entry, delete_on_close)
        &&& self.entry.restated(
            tree,
            entry,
            tree_before,
            Stat { handle_count: (stat.handle_count + 1) as u32, ..stat },
        )
    }

    /// Opens a handle on an entry.
    pub fn new(tree: &mut Tree, entry: OpenEntry, delete_on_close: bool) -> (handle: Self)
        requires
            entry.is_in(*old(tree)),
            entry.stat_in(*old(tree)).handle_count < u32::MAX,
        ensures
            handle.opened(*final(tree), entry, *old(tree), delete_on_close),
    {
        let mut entry = entry;
        let stat = entry.stat_mut(tree);
        stat.handle_count = stat.handle_count + 1;
        EntryHandle {
            entry,
            delete_on_close,
            mtime_delayed: None,
            atime_delayed: None,
            ctime_enabled: true,
            mtime_enabled: true,
            atime_enabled: true,
        }
    }

    /// Whether the handle is on a directory.
    pub fn is_dir(&self) -> (yes: bool)
        ensures
            yes == self.entry.directory(),
    {
        self.entry.is_dir()
    }

    /// Whether these are `before` and the tree that goes with it, with `stat` for the entry.
    pub open spec fn restated(
        &self,
        tree: Tree,
        before: EntryHandle,
        tree_before: Tree,
        stat: Stat,
    ) -> bool {
        &&& *self == EntryHandle { entry: self.entry, ..before }
        &&& self.entry.restated(tree, before.entry, tree_before, stat)
    }

    /// The access time after an access through this handle.
    pub open spec fn accessed(&self, stat: Stat, atime: Timestamp) -> Stat {
        if self.atime_enabled {
            Stat { atime, ..stat }
        } else {
            stat
        }
    }

    /// The times after a modification through this handle.
    pub open spec fn modified(&self, stat: Stat, mtime: Timestamp) -> Stat {
        let stat = self.accessed(stat, mtime);
        if self.mtime_enabled {
            Stat { mtime, ..stat }
        } else {
            stat
        }
    }

    /// Notes an access, unless that is disabled for this handle.
    pub fn update_atime(&self, stat: &mut Stat, atime: Timestamp)
        ensures
            *final(stat) == self.accessed(*old(stat), atime),
    {
        note_access(stat, self.atime_enabled, atime);
    }

    /// Notes a modification, which is an access too, as far as that is not disabled for this
    /// handle.
    pub fn update_mtime(&self, stat: &mut Stat, mtime: Timestamp)
        ensures
            *final(stat) == self.modified(*old(stat), mtime),
    {
        self.update_atime(stat, mtime);
        if self.mtime_enabled {
            stat.mtime = mtime;
        }
    }

    /// Notes the delayed times, where they are later than those of the entry.
    pub fn note_delayed(&mut self, tree: &mut Tree)
        requires
            old(self).entry.is_in(*old(tree)),
        ensures
            ({
                let stat = old(self).entry.stat_in(*old(tree));
                final(self).restated(
                    *final(tree),
                    *old(self),
                    *old(tree),
                    Stat {
                        mtime: later(stat.mtime, old(self).mtime_delayed),
                        atime: later(stat.atime, old(self).atime_delayed),
                        ..stat
                    },
                )
            }),
    {
        let mtime_delayed: Option<Timestamp> = self.mtime_delayed;
        let atime_delayed: Option<Timestamp> = self.atime_delayed;
        let stat = self.entry.stat_mut(tree);
        if let Some(mtime) = mtime_delayed {
            if mtime > stat.mtime {
                stat.mtime = mtime;
            }
        }
        if let Some(atime) = atime_delayed {
            if atime > stat.atime {
                stat.atime = atime;
            }
        }
    }

    /// Performs the operations on the three times of the entry.
    pub fn set_times(
        &mut self,
        tree: &mut Tree,
        creation_time: FileTimeOperation,
        last_access_time: FileTimeOperation,
        last_write_time: FileTimeOperation,
    )
        requires
            old(self).entry.is_in(*old(tree)),
        ensures
            ({
                let stat = old(self).entry.stat_in(*old(tree));
                let switched = EntryHandle {
                    ctime_enabled: enabled_after(creation_time, old(self).ctime_enabled),
                    mtime_enabled: enabled_after(last_write_time, old(self).mtime_enabled),
                    atime_enabled: enabled_after(last_access_time, old(self).atime_enabled),
                    ..*old(self)
                };
                final(self).restated(
                    *final(tree),
                    switched,
                    *old(tree),
                    Stat {
                        ctime: time_after(creation_time, stat.ctime, old(self).ctime_enabled),
                        mtime: time_after(last_write_time, stat.mtime, old(self).mtime_enabled),
                        atime: time_after(last_access_time, stat.atime, old(self).atime_enabled),
                        ..stat
                    },
                )
            }),
    {
        let ctime_enabled: bool = self.ctime_enabled;
        let mtime_enabled: bool = self.mtime_enabled;
        let atime_enabled: bool = self.atime_enabled;
        let stat = self.entry.stat_mut(tree);
        let (ctime, ctime_on) = process_time_info(creation_time, stat.ctime, ctime_enabled);
        let (mtime, mtime_on) = process_time_info(last_write_time, stat.mtime, mtime_enabled);
        let (atime, atime_on) = process_time_info(last_access_time, stat.atime, atime_enabled);
        stat.ctime = ctime;
        stat.mtime = mtime;
        stat.atime = atime;
        self.ctime_enabled = ctime_on;
        self.mtime_enabled = mtime_on;
        self.atime_enabled = atime_on;
    }

    /// Whether closing this handle deletes the entry: that was asked for, this is the last handle
    /// on it, and it is not the root, which is never deleted.
    pub open spec fn deletes(&self, tree: Tree) -> bool {
        let stat = self.entry.stat_in(tree);
        (stat.delete_pending || self.delete_on_close) && stat.handle_count == 1 && stat.parent
            is Some
    }
}

/// Whether the tree `after` is what closing a handle leaves.
pub open spec fn closes(handle: EntryHandle, before: Tree, after: Tree, now: Timestamp) -> bool {
    match handle.entry {
        OpenEntry::Shared(entry) => if handle.deletes(before) {
            after.unlinked(before, entry, now)
        } else {
            after.restated(
                before,
                entry,
                Stat {
                    handle_count: (before.stat_of(entry).handle_count - 1) as u32,
                    delete_pending: false,
                    ..before.stat_of(entry)
                },
            )
        },
        _ => after == before,
    }
}

/// Closes a handle. The entry counts one handle less; if it was to be deleted and this was the
/// last handle on it, it is taken out of its directory, which is thereby modified. The root, which
/// is in no directory, stays.
pub fn drop_handle(handle: EntryHandle, tree: &mut Tree, now: Timestamp)
    requires
        old(tree).wf(),
        handle.entry.is_in(*old(tree)),
        closable(handle, *old(tree)),
    ensures
        final(tree).wf(),
        old(tree).bare() ==> final(tree).bare(),
        closes(handle, *old(tree), *final(tree), now),
{
    match handle.entry {
        OpenEntry::Shared(entry) => {
            let stat = tree.stat(entry);
            let pending: bool = stat.delete_pending || handle.delete_on_close;
            let last: bool = stat.handle_count == 1;
            let parent: Option<u64> = stat.parent;
            if pending && last {
                if let Some(parent) = parent {
                    tree.unlink(parent, entry, now);
                    return;
                }
            }
            let ghost before = *tree;
            let stat = tree.stat_mut(entry);
            stat.handle_count = stat.handle_count - 1;
            stat.delete_pending = false;
            proof {
                restated_sound(before, *tree, entry, tree.stat_of(entry));
            }
        },
        OpenEntry::File(_) => {},
        OpenEntry::Folder(_) => {},
    }
}

/// Whether a handle can be closed: it is counted, and if that deletes the entry, the entry is in
/// a directory.
pub open spec fn closable(handle: EntryHandle, tree: Tree) -> bool {
    &&& handle.entry.stat_in(tree).handle_count > 0
    &&& handle.deletes(tree) ==> handle.entry is Shared && attached(tree, handle.entry->Shared_0)
}

/// Finds out whether a handle can be closed.
pub fn can_close(handle: &EntryHandle, tree: &Tree) -> (yes: bool)
    requires
        handle.entry.is_in(*tree),
    ensures
        yes == closable(*handle, *tree),
{
    let stat = handle.entry.stat(tree);
    if stat.handle_count == 0 {
        return false;
    }
    if !(stat.delete_pending || handle.delete_on_close) || stat.handle_count != 1
        || stat.parent.is_none() {
        return true;
    }
    match &handle.entry {
        OpenEntry::Shared(entry) => tree.is_attached(*entry),
        OpenEntry::File(_) => false,
        OpenEntry::Folder(_) => false,
    }
}

} // verus!
