//! The numbers by which Windows knows statuses, attributes, access rights and options.

use vstd::prelude::*;

verus! {

/// A status code of the Windows kernel. Errors have the two highest bits set, which makes them
/// negative.
pub type NtStatus = i32;

/// 0x80000005
pub const STATUS_BUFFER_OVERFLOW: NtStatus = -0x7FFF_FFFB;

/// 0xC000000D
pub const STATUS_INVALID_PARAMETER: NtStatus = -0x3FFF_FFF3;

/// 0xC0000010
pub const STATUS_INVALID_DEVICE_REQUEST: NtStatus = -0x3FFF_FFF0;

/// 0xC0000022
pub const STATUS_ACCESS_DENIED: NtStatus = -0x3FFF_FFDE;

/// 0xC0000033
pub const STATUS_OBJECT_NAME_INVALID: NtStatus = -0x3FFF_FFCD;

/// 0xC0000034
pub const STATUS_OBJECT_NAME_NOT_FOUND: NtStatus = -0x3FFF_FFCC;

/// 0xC0000035
pub const STATUS_OBJECT_NAME_COLLISION: NtStatus = -0x3FFF_FFCB;

/// 0xC000003A
pub const STATUS_OBJECT_PATH_NOT_FOUND: NtStatus = -0x3FFF_FFC6;

/// 0xC0000056
pub const STATUS_DELETE_PENDING: NtStatus = -0x3FFF_FFAA;

/// 0xC00000BA
pub const STATUS_FILE_IS_A_DIRECTORY: NtStatus = -0x3FFF_FF46;

/// 0xC0000103
pub const STATUS_NOT_A_DIRECTORY: NtStatus = -0x3FFF_FEFD;

/// 0xC0000121
pub const STATUS_CANNOT_DELETE: NtStatus = -0x3FFF_FEDF;

pub const FILE_ATTRIBUTE_READONLY: u32 = 0x0001;

pub const FILE_ATTRIBUTE_HIDDEN: u32 = 0x0002;

pub const FILE_ATTRIBUTE_SYSTEM: u32 = 0x0004;

pub const FILE_ATTRIBUTE_DIRECTORY: u32 = 0x0010;

pub const FILE_ATTRIBUTE_ARCHIVE: u32 = 0x0020;

pub const FILE_ATTRIBUTE_NORMAL: u32 = 0x0080;

pub const FILE_ATTRIBUTE_TEMPORARY: u32 = 0x0100;

pub const FILE_ATTRIBUTE_OFFLINE: u32 = 0x1000;

pub const FILE_ATTRIBUTE_NOT_CONTENT_INDEXED: u32 = 0x2000;

pub const FILE_WRITE_DATA: u32 = 0x0002;

pub const FILE_APPEND_DATA: u32 = 0x0004;

pub const DELETE: u32 = 0x0001_0000;

pub const FILE_GENERIC_READ: u32 = 0x0012_0089;

pub const FILE_GENERIC_WRITE: u32 = 0x0012_0116;

pub const FILE_GENERIC_EXECUTE: u32 = 0x0012_00A0;

pub const FILE_ALL_ACCESS: u32 = 0x001F_01FF;

pub const FILE_SUPERSEDE: u32 = 0;

pub const FILE_OPEN: u32 = 1;

pub const FILE_CREATE: u32 = 2;

pub const FILE_OPEN_IF: u32 = 3;

pub const FILE_OVERWRITE: u32 = 4;

pub const FILE_OVERWRITE_IF: u32 = 5;

pub const FILE_MAXIMUM_DISPOSITION: u32 = 5;

pub const FILE_DIRECTORY_FILE: u32 = 0x0001;

pub const FILE_NON_DIRECTORY_FILE: u32 = 0x0040;

pub const FILE_DELETE_ON_CLOSE: u32 = 0x1000;

pub const FILE_CASE_SENSITIVE_SEARCH: u32 = 0x0001;

pub const FILE_CASE_PRESERVED_NAMES: u32 = 0x0002;

pub const FILE_UNICODE_ON_DISK: u32 = 0x0004;

pub const FILE_PERSISTENT_ACLS: u32 = 0x0008;

pub const FILE_NAMED_STREAMS: u32 = 0x0004_0000;

pub const ACL_REVISION: u32 = 2;

pub const SECURITY_DESCRIPTOR_REVISION: u32 = 1;

pub const OBJECT_INHERIT_ACE: u32 = 0x1;

pub const CONTAINER_INHERIT_ACE: u32 = 0x2;

pub const SEF_AVOID_PRIVILEGE_CHECK: u32 = 0x08;

pub const SEF_AVOID_OWNER_CHECK: u32 = 0x10;

pub const ERROR_INSUFFICIENT_BUFFER: u32 = 122;

} // verus!
