//! Requests that change what is kept about what is open: its times, its attributes, its security
//! descriptor, and whether it is open.

use crate::handle::{
    closable, closes, drop_handle, enabled_after, later, note_access, time_after, EntryHandle,
    FileTimeOperation,
};
use crate::handler::SubFSHandler;
use crate::nt::{NtStatus, STATUS_INVALID_PARAMETER};
use crate::security::SecurityDescriptor;
use crate::stat::{Attributes, Stat, Timestamp, SUPPORTED_ATTRS};
use crate::tree::{restated_sound, Entry, OpenEntry, ROOT};
use vstd::prelude::*;

verus! {

/// Whether the file system and a handle are as before, but for `stat` being kept about what the
/// handle is on.
pub open spec fn restated_by(
    after: SubFSHandler,
    handle_after: EntryHandle,
    before: SubFSHandler,
    handle_before: EntryHandle,
    stat: Stat,
) -> bool {
    &&& after == (SubFSHandler { tree: after.tree, ..before })
    &&& handle_after.restated(after.tree, handle_before, before.tree, stat)
}

/// Changing what is kept about what a handle is on leaves the file system sound.
proof fn restated_kept(
    after: SubFSHandler,
    handle_after: EntryHandle,
    before: SubFSHandler,
    handle_before: EntryHandle,
    stat: Stat,
)
    requires
        before.wf(),
        before.knows(handle_before),
        restated_by(after, handle_after, before, handle_before, stat),
        stat.sec_desc.wf(),
        stat.parent == handle_before.entry.stat_in(before.tree).parent,
    ensures
        after.wf(),
        after.knows(handle_after),
        handle_after.entry.stat_in(after.tree) == stat,
{
    if let OpenEntry::Shared(entry) = handle_before.entry {
        restated_sound(before.tree, after.tree, entry, stat);
        assert forall|other: Entry| #[trigger] after.tree.has(other) implies after.tree.stat_of(
            other,
        ).sec_desc.wf() by {
            assert(before.tree.has(other));
        }
    }
}

impl SubFSHandler {
    /// Notes the delayed times of an open file or directory that is about to be closed.
    pub fn close_file(&mut self, handle: &mut EntryHandle)
        requires
            old(self).wf(),
            old(self).knows(*old(handle)),
        ensures
            final(self).wf(),
            final(self).knows(*final(handle)),
            ({
                let stat = old(handle).entry.stat_in(old(self).tree);
                restated_by(
                    *final(self),
                    *final(handle),
                    *old(self),
                    *old(handle),
                    Stat {
                        mtime: later(stat.mtime, old(handle).mtime_delayed),
                        atime: later(stat.atime, old(handle).atime_delayed),
                        ..stat
                    },
                )
            }),
    {
        let ghost before = *self;
        let ghost handle_before = *handle;
        handle.note_delayed(&mut self.tree);
        proof {
            let stat = handle_before.entry.stat_in(before.tree);
            restated_kept(
                *self,
                *handle,
                before,
                handle_before,
                Stat {
                    mtime: later(stat.mtime, handle_before.mtime_delayed),
                    atime: later(stat.atime, handle_before.atime_delayed),
                    ..stat
                },
            );
        }
    }

    /// Closes a handle for good. An entry of the tree that was to be deleted goes with its last
    /// handle.
    pub fn drop_handle(&mut self, handle: EntryHandle, now: Timestamp)
        requires
            old(self).wf(),
            old(self).knows(handle),
            closable(handle, old(self).tree),
        ensures
            final(self).wf(),
            *final(self) == (SubFSHandler { tree: final(self).tree, ..*old(self) }),
            old(self).tree.bare() ==> final(self).tree.bare(),
            closes(handle, old(self).tree, final(self).tree, now),
    {
        let ghost before = self.tree;
        let ghost handle_before = handle;
        drop_handle(handle, &mut self.tree, now);
        proof {
            if let OpenEntry::Shared(entry) = handle_before.entry {
                if handle_before.deletes(before) {
                    let parent = before.stat_of(entry).parent->0;
                    assert forall|other: Entry| #[trigger] self.tree.has(other) implies self.tree.stat_of(
                        other,
                    ).sec_desc.wf() by {
                        assert(before.has(Entry::Directory(parent)));
                        match other {
                            Entry::File(key) => {},
                            Entry::Directory(key) => {
                                if key != parent {
                                    assert(self.tree.dirs@.remove(parent).contains_key(key));
                                    assert(self.tree.dirs@.remove(parent)[key]
                                        == self.tree.dirs@[key]);
                                }
                            },
                        }
                        assert(before.has(other));
                    }
                    if parent != ROOT {
                        assert(self.tree.dirs@.remove(parent).contains_key(ROOT));
                        assert(self.tree.dirs@.remove(parent)[ROOT] == self.tree.dirs@[ROOT]);
                    }
                } else {
                    assert(before.has(Entry::Directory(ROOT)));
                    restated_sound(before, self.tree, entry, self.tree.stat_of(entry));
                    assert forall|other: Entry| #[trigger] self.tree.has(other) implies self.tree.stat_of(
                        other,
                    ).sec_desc.wf() by {
                        assert(before.has(other));
                    }
                }
            }
        }
    }

    /// Sets the attributes of an open file or directory, which is an access.
    pub fn set_file_attributes(
        &mut self,
        handle: &mut EntryHandle,
        file_attributes: u32,
        now: Timestamp,
    ) -> (result: Result<(), NtStatus>)
        requires
            old(self).wf(),
            old(self).knows(*old(handle)),
        ensures
            result is Ok,
            final(self).wf(),
            final(self).knows(*final(handle)),
            restated_by(
                *final(self),
                *final(handle),
                *old(self),
                *old(handle),
                old(handle).accessed(
                    Stat {
                        attrs: Attributes { value: file_attributes & SUPPORTED_ATTRS },
                        ..old(handle).entry.stat_in(old(self).tree)
                    },
                    now,
                ),
            ),
    {
        let ghost before = *self;
        let ghost handle_before = *handle;
        let enabled: bool = handle.atime_enabled;
        let stat = handle.entry.stat_mut(&mut self.tree);
        stat.attrs = Attributes::new(file_attributes);
        note_access(stat, enabled, now);
        proof {
            restated_kept(
                *self,
                *handle,
                before,
                handle_before,
                handle_before.accessed(
                    Stat {
                        attrs: Attributes { value: file_attributes & SUPPORTED_ATTRS },
                        ..handle_before.entry.stat_in(before.tree)
                    },
                    now,
                ),
            );
        }
        Ok(())
    }

    /// Sets the times of an open file or directory, or whether requests through the handle
    /// change them.
    pub fn set_file_time(
        &mut self,
        handle: &mut EntryHandle,
        creation_time: FileTimeOperation,
        last_access_time: FileTimeOperation,
        last_write_time: FileTimeOperation,
    ) -> (result: Result<(), NtStatus>)
        requires
            old(self).wf(),
            old(self).knows(*old(handle)),
        ensures
            result is Ok,
            final(self).wf(),
            final(self).knows(*final(handle)),
            ({
                let stat = old(handle).entry.stat_in(old(self).tree);
                restated_by(
                    *final(self),
                    *final(handle),
                    *old(self),
                    EntryHandle {
                        ctime_enabled: enabled_after(creation_time, old(handle).ctime_enabled),
                        mtime_enabled: enabled_after(last_write_time, old(handle).mtime_enabled),
                        atime_enabled: enabled_after(last_access_time, old(handle).atime_enabled),
                        ..*old(handle)
                    },
                    Stat {
                        ctime: time_after(creation_time, stat.ctime, old(handle).ctime_enabled),
                        mtime: time_after(last_write_time, stat.mtime, old(handle).mtime_enabled),
                        atime: time_after(last_access_time, stat.atime, old(handle).atime_enabled),
                        ..stat
                    },
                )
            }),
    {
        let ghost before = *self;
        let ghost handle_before = *handle;
        handle.set_times(&mut self.tree, creation_time, last_access_time, last_write_time);
        proof {
            let stat = handle_before.entry.stat_in(before.tree);
            restated_kept(
                *self,
                *handle,
                before,
                EntryHandle {
                    ctime_enabled: enabled_after(creation_time, handle_before.ctime_enabled),
                    mtime_enabled: enabled_after(last_write_time, handle_before.mtime_enabled),
                    atime_enabled: enabled_after(last_access_time, handle_before.atime_enabled),
                    ..handle_before
                },
                Stat {
                    ctime: time_after(creation_time, stat.ctime, handle_before.ctime_enabled),
                    mtime: time_after(last_write_time, stat.mtime, handle_before.mtime_enabled),
                    atime: time_after(last_access_time, stat.atime, handle_before.atime_enabled),
                    ..stat
                },
            );
        }
        Ok(())
    }

    /// Answers a request for the security descriptor of an open file or directory with the size
    /// of the descriptor. Where there is enough room for it, `fetched` says how
    /// `GetPrivateObjectSecurity` went, whose error is passed on.
    pub fn get_file_security(
        &self,
        handle: &EntryHandle,
        buffer_length: u32,
        fetched: Result<(), NtStatus>,
    ) -> (result: Result<u32, NtStatus>)
        requires
            self.knows(*handle),
        ensures
            ({
                let len = handle.entry.stat_in(self.tree).sec_desc.bytes@.len();
                result == (if len > buffer_length || fetched is Ok {
                    Ok::<u32, NtStatus>(len as u32)
                } else {
                    Err::<u32, NtStatus>(fetched->Err_0)
                })
            }),
    {
        handle.entry.stat(&self.tree).sec_desc.get_security_info(buffer_length, fetched)
    }

    /// Changes the security descriptor of an open file or directory by another one, which has to
    /// be valid; this is an access. `applied` says how `SetPrivateObjectSecurityEx` went: with
    /// the changed descriptor, or with an error.
    pub fn set_file_security(
        &mut self,
        handle: &mut EntryHandle,
        valid: bool,
        applied: Result<SecurityDescriptor, NtStatus>,
        now: Timestamp,
    ) -> (result: Result<(), NtStatus>)
        requires
            old(self).wf(),
            old(self).knows(*old(handle)),
            applied matches Ok(desc) ==> desc.wf(),
        ensures
            final(self).wf(),
            final(self).knows(*final(handle)),
            result == (if !valid {
                Err::<(), NtStatus>(STATUS_INVALID_PARAMETER)
            } else if applied is Err {
                Err::<(), NtStatus>(applied->Err_0)
            } else {
                Ok::<(), NtStatus>(())
            }),
            ({
                let stat = old(handle).entry.stat_in(old(self).tree);
                restated_by(
                    *final(self),
                    *final(handle),
                    *old(self),
                    *old(handle),
                    if result is Ok {
                        old(handle).accessed(Stat { sec_desc: applied->Ok_0, ..stat }, now)
                    } else {
                        stat
                    },
                )
            }),
    {
        let ghost before = *self;
        let ghost handle_before = *handle;
        let ghost desc = applied->Ok_0;
        let enabled: bool = handle.atime_enabled;
        let stat = handle.entry.stat_mut(&mut self.tree);
        let result = stat.sec_desc.set_security_info(valid, applied);
        if result.is_ok() {
            note_access(stat, enabled, now);
        }
        proof {
            let stat = handle_before.entry.stat_in(before.tree);
            restated_kept(
                *self,
                *handle,
                before,
                handle_before,
                if result is Ok {
                    handle_before.accessed(Stat { sec_desc: desc, ..stat }, now)
                } else {
                    stat
                },
            );
        }
        result
    }
}

} // verus!
