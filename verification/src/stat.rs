//! Attributes and times of directory entries.

use crate::nt::{FILE_ATTRIBUTE_DIRECTORY, FILE_ATTRIBUTE_NORMAL};
use crate::security::SecurityDescriptor;
use vstd::prelude::*;

verus! {

/// A point in time: nanoseconds since the beginning of 1970, in UTC.
pub type Timestamp = i128;

/// The attributes that an entry can keep: archive, hidden, not content indexed, offline,
/// read-only, system and temporary.
pub const SUPPORTED_ATTRS: u32 = 0x3127;

/// The stored attributes of an entry.
#[derive(Debug, Clone, Copy, PartialEq, Eq, Structural)]
pub struct Attributes {
    pub value: u32,
}

/// The attributes that are shown for the stored attributes `value`: whether it is a directory is
/// added, and an entry without any attribute is a normal one.
pub open spec fn output_attrs(value: u32, is_dir: bool) -> u32 {
    let attrs = if is_dir {
        value | FILE_ATTRIBUTE_DIRECTORY
    } else {
        value
    };
    if attrs == 0 {
        FILE_ATTRIBUTE_NORMAL
    } else {
        attrs
    }
}

impl Attributes {
    /// Keeps the supported ones of the attributes.
    pub fn new(attrs: u32) -> (r: Self)
        ensures
            r.value == attrs & SUPPORTED_ATTRS,
    {
        Self { value: attrs & SUPPORTED_ATTRS }
    }

    /// The attributes as they are shown.
    pub fn get_output_attrs(&self, is_dir: bool) -> (attrs: u32)
        ensures
            attrs == output_attrs(self.value, is_dir),
    {
        let mut attrs: u32 = self.value;
        if is_dir {
            attrs = attrs | FILE_ATTRIBUTE_DIRECTORY;
        }
        if attrs == 0 {
            attrs = FILE_ATTRIBUTE_NORMAL;
        }
        attrs
    }
}

/// What is kept about an entry, be it a file or a directory.
#[derive(Debug)]
pub struct Stat {
    pub id: u64,
    pub attrs: Attributes,
    pub ctime: Timestamp,
    pub mtime: Timestamp,
    pub atime: Timestamp,
    pub sec_desc: SecurityDescriptor,
    pub handle_count: u32,
    pub delete_pending: bool,
    /// The directory above, by its key; the root has none.
    pub parent: Option<u64>,
}

impl Stat {
    /// Whether this is what an entry made at the time `now` has.
    pub open spec fn is_new(
        &self,
        id: u64,
        attrs: u32,
        sec_desc: Seq<u8>,
        parent: Option<u64>,
        now: Timestamp,
    ) -> bool {
        &&& self.id == id
        &&& self.attrs.value == attrs & SUPPORTED_ATTRS
        &&& self.ctime == now
        &&& self.mtime == now
        &&& self.atime == now
        &&& self.sec_desc.bytes@ == sec_desc
        &&& self.handle_count == 0
        &&& !self.delete_pending
        &&& self.parent == parent
    }

    /// What an entry made at the time `now` has.
    pub fn new(
        id: u64,
        attrs: u32,
        sec_desc: SecurityDescriptor,
        parent: Option<u64>,
        now: Timestamp,
    ) -> (stat: Self)
        ensures
            stat.is_new(id, attrs, sec_desc.bytes@, parent, now),
            stat.sec_desc == sec_desc,
    {
        Self {
            id,
            attrs: Attributes::new(attrs),
            ctime: now,
            mtime: now,
            atime: now,
            sec_desc,
            handle_count: 0,
            delete_pending: false,
            parent,
        }
    }

    /// Notes an access.
    pub fn update_atime(&mut self, atime: Timestamp)
        ensures
            *final(self) == (Stat { atime, ..*old(self) }),
    {
        self.atime = atime;
    }

    /// Notes a modification, which is an access too.
    pub fn update_mtime(&mut self, mtime: Timestamp)
        ensures
            *final(self) == (Stat { atime: mtime, mtime, ..*old(self) }),
    {
        self.update_atime(mtime);
        self.mtime = mtime;
    }
}

} // verus!
