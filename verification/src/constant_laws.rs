//! The numbers and the calls that are handed to Windows, each on its own.

use crate::nt::{
    STATUS_BUFFER_OVERFLOW, STATUS_INVALID_PARAMETER, STATUS_INVALID_DEVICE_REQUEST,
    STATUS_ACCESS_DENIED, STATUS_OBJECT_NAME_INVALID, STATUS_OBJECT_NAME_NOT_FOUND,
    STATUS_OBJECT_NAME_COLLISION, STATUS_OBJECT_PATH_NOT_FOUND, STATUS_DELETE_PENDING,
    STATUS_FILE_IS_A_DIRECTORY, STATUS_NOT_A_DIRECTORY, STATUS_CANNOT_DELETE,
    FILE_ATTRIBUTE_READONLY, FILE_ATTRIBUTE_HIDDEN, FILE_ATTRIBUTE_SYSTEM,
    FILE_ATTRIBUTE_DIRECTORY, FILE_ATTRIBUTE_ARCHIVE, FILE_ATTRIBUTE_NORMAL,
    FILE_ATTRIBUTE_TEMPORARY, FILE_ATTRIBUTE_OFFLINE, FILE_ATTRIBUTE_NOT_CONTENT_INDEXED,
    FILE_WRITE_DATA, FILE_APPEND_DATA, DELETE, FILE_GENERIC_READ, FILE_GENERIC_WRITE,
    FILE_GENERIC_EXECUTE, FILE_ALL_ACCESS, FILE_SUPERSEDE, FILE_OPEN, FILE_CREATE, FILE_OPEN_IF,
    FILE_OVERWRITE, FILE_OVERWRITE_IF, FILE_MAXIMUM_DISPOSITION, FILE_DIRECTORY_FILE,
    FILE_NON_DIRECTORY_FILE, FILE_DELETE_ON_CLOSE, FILE_CASE_SENSITIVE_SEARCH,
    FILE_CASE_PRESERVED_NAMES, FILE_UNICODE_ON_DISK, FILE_PERSISTENT_ACLS, FILE_NAMED_STREAMS,
    ACL_REVISION, SECURITY_DESCRIPTOR_REVISION, OBJECT_INHERIT_ACE, CONTAINER_INHERIT_ACE,
    SEF_AVOID_PRIVILEGE_CHECK, SEF_AVOID_OWNER_CHECK, ERROR_INSUFFICIENT_BUFFER,
};
use crate::path::{COLON, MAX_COMPONENT_LENGTH, SEPARATOR};
use crate::security::{
    acl_size, call_number, default_aces, went_well, AllowedAce, CallOutcome, SecurityCall, SidUse,
    WellKnownSid, ACE_HEAD_SIZE, ACL_SIZE, CALLS, SID_BUFFER_LEN,
};
use crate::stat::SUPPORTED_ATTRS;
use crate::tree::ROOT;
use vstd::prelude::*;

verus! {

/// The numbers by which Windows knows statuses, attributes, rights, dispositions, options and
/// flags.
pub proof fn windows_numbers()
    ensures
        STATUS_BUFFER_OVERFLOW == 0x80000005int - 0x1_0000_0000,
        STATUS_INVALID_PARAMETER == 0xC000000Dint - 0x1_0000_0000,
        STATUS_INVALID_DEVICE_REQUEST == 0xC0000010int - 0x1_0000_0000,
        STATUS_ACCESS_DENIED == 0xC0000022int - 0x1_0000_0000,
        STATUS_OBJECT_NAME_INVALID == 0xC0000033int - 0x1_0000_0000,
        STATUS_OBJECT_NAME_NOT_FOUND == 0xC0000034int - 0x1_0000_0000,
        STATUS_OBJECT_NAME_COLLISION == 0xC0000035int - 0x1_0000_0000,
        STATUS_OBJECT_PATH_NOT_FOUND == 0xC000003Aint - 0x1_0000_0000,
        STATUS_DELETE_PENDING == 0xC0000056int - 0x1_0000_0000,
        STATUS_FILE_IS_A_DIRECTORY == 0xC00000BAint - 0x1_0000_0000,
        STATUS_NOT_A_DIRECTORY == 0xC0000103int - 0x1_0000_0000,
        STATUS_CANNOT_DELETE == 0xC0000121int - 0x1_0000_0000,
        FILE_ATTRIBUTE_READONLY == 0x0001,
        FILE_ATTRIBUTE_HIDDEN == 0x0002,
        FILE_ATTRIBUTE_SYSTEM == 0x0004,
        FILE_ATTRIBUTE_DIRECTORY == 0x0010,
        FILE_ATTRIBUTE_ARCHIVE == 0x0020,
        FILE_ATTRIBUTE_NORMAL == 0x0080,
        FILE_ATTRIBUTE_TEMPORARY == 0x0100,
        FILE_ATTRIBUTE_OFFLINE == 0x1000,
        FILE_ATTRIBUTE_NOT_CONTENT_INDEXED == 0x2000,
        FILE_WRITE_DATA == 0x0002,
        FILE_APPEND_DATA == 0x0004,
        DELETE == 0x0001_0000,
        FILE_GENERIC_READ == 0x0012_0089,
        FILE_GENERIC_WRITE == 0x0012_0116,
        FILE_GENERIC_EXECUTE == 0x0012_00A0,
        FILE_ALL_ACCESS == 0x001F_01FF,
        FILE_SUPERSEDE == 0,
        FILE_OPEN == 1,
        FILE_CREATE == 2,
        FILE_OPEN_IF == 3,
        FILE_OVERWRITE == 4,
        FILE_OVERWRITE_IF == 5,
        FILE_MAXIMUM_DISPOSITION == 5,
        FILE_DIRECTORY_FILE == 0x0001,
        FILE_NON_DIRECTORY_FILE == 0x0040,
        FILE_DELETE_ON_CLOSE == 0x1000,
        FILE_CASE_SENSITIVE_SEARCH == 0x0001,
        FILE_CASE_PRESERVED_NAMES == 0x0002,
        FILE_UNICODE_ON_DISK == 0x0004,
        FILE_PERSISTENT_ACLS == 0x0008,
        FILE_NAMED_STREAMS == 0x0004_0000,
        ACL_REVISION == 2,
        SECURITY_DESCRIPTOR_REVISION == 1,
        OBJECT_INHERIT_ACE == 0x1,
        CONTAINER_INHERIT_ACE == 0x2,
        SEF_AVOID_PRIVILEGE_CHECK == 0x08,
        SEF_AVOID_OWNER_CHECK == 0x10,
        ERROR_INSUFFICIENT_BUFFER == 122,
{
}

/// The limits and marks of paths, the attributes that are kept, and the key of the root.
pub proof fn own_numbers()
    ensures
        MAX_COMPONENT_LENGTH == 255,
        SEPARATOR == 0x5C,
        COLON == 0x3A,
        SUPPORTED_ATTRS == 0x3127,
        ROOT == 0,
        CALLS == 19,
        SID_BUFFER_LEN == 40,
        ACL_SIZE == 8,
        ACE_HEAD_SIZE == 8,
{
}

/// Windows knows the four identities by these numbers.
pub proof fn identity_numbers()
    ensures
        WellKnownSid::AuthenticatedUser.number() == 17,
        WellKnownSid::LocalSystem.number() == 22,
        WellKnownSid::BuiltinAdministrators.number() == 26,
        WellKnownSid::BuiltinUsers.number() == 27,
{
}

/// Administrators and the system may do everything, authenticated users may read, write, execute
/// and delete, and users may read and execute; all of it is passed on to files and directories.
pub proof fn default_permissions()
    ensures
        default_aces() == seq![
            AllowedAce { sid: WellKnownSid::BuiltinAdministrators, mask: 0x1F01FF, flags: 3 },
            AllowedAce { sid: WellKnownSid::LocalSystem, mask: 0x1F01FF, flags: 3 },
            AllowedAce { sid: WellKnownSid::AuthenticatedUser, mask: 0x1301BF, flags: 3 },
            AllowedAce { sid: WellKnownSid::BuiltinUsers, mask: 0x1200A9, flags: 3 },
        ],
        acl_size(default_aces()) == 200,
{
    reveal_with_fuel(acl_size, 5);
    assert(CONTAINER_INHERIT_ACE | OBJECT_INHERIT_ACE == 3) by (bit_vector);
    assert(FILE_GENERIC_READ | FILE_GENERIC_WRITE | FILE_GENERIC_EXECUTE | DELETE == 0x1301BF)
        by (bit_vector);
    assert(FILE_GENERIC_READ | FILE_GENERIC_EXECUTE == 0x1200A9) by (bit_vector);
}

/// The calls that make the default descriptor, one by one: six identities, the list and its four
/// permissions, the descriptor with its owner, its group and its list, and its measured copy.
pub proof fn calls_in_order(len: u32)
    ensures
        call_number(0, len) == (SecurityCall::CreateSid {
            sid_use: SidUse::Owner,
            sid: WellKnownSid::LocalSystem,
            capacity: 40,
        }),
        call_number(1, len) == (SecurityCall::CreateSid {
            sid_use: SidUse::Group,
            sid: WellKnownSid::LocalSystem,
            capacity: 40,
        }),
        call_number(2, len) == (SecurityCall::CreateSid {
            sid_use: SidUse::Ace(0),
            sid: WellKnownSid::BuiltinAdministrators,
            capacity: 40,
        }),
        call_number(3, len) == (SecurityCall::CreateSid {
            sid_use: SidUse::Ace(1),
            sid: WellKnownSid::LocalSystem,
            capacity: 40,
        }),
        call_number(4, len) == (SecurityCall::CreateSid {
            sid_use: SidUse::Ace(2),
            sid: WellKnownSid::AuthenticatedUser,
            capacity: 40,
        }),
        call_number(5, len) == (SecurityCall::CreateSid {
            sid_use: SidUse::Ace(3),
            sid: WellKnownSid::BuiltinUsers,
            capacity: 40,
        }),
        call_number(6, len) == (SecurityCall::InitializeAcl { len: 200, revision: 2 }),
        call_number(7, len) == (SecurityCall::AddAllowedAce {
            index: 0,
            revision: 2,
            flags: 3,
            mask: 0x1F01FF,
        }),
        call_number(8, len) == (SecurityCall::AddAllowedAce {
            index: 1,
            revision: 2,
            flags: 3,
            mask: 0x1F01FF,
        }),
        call_number(9, len) == (SecurityCall::AddAllowedAce {
            index: 2,
            revision: 2,
            flags: 3,
            mask: 0x1301BF,
        }),
        call_number(10, len) == (SecurityCall::AddAllowedAce {
            index: 3,
            revision: 2,
            flags: 3,
            mask: 0x1200A9,
        }),
        call_number(11, len) == (SecurityCall::InitializeDescriptor { revision: 1 }),
        call_number(12, len) == (SecurityCall::SetOwner { defaulted: false }),
        call_number(13, len) == (SecurityCall::SetGroup { defaulted: false }),
        call_number(14, len) == (SecurityCall::SetDacl { present: true, defaulted: false }),
        call_number(15, len) == SecurityCall::Measure,
        call_number(16, len) == SecurityCall::GetHeap,
        call_number(17, len) == (SecurityCall::Allocate { flags: 0, len }),
        call_number(18, len) == (SecurityCall::MakeSelfRelative { len }),
{
    default_permissions();
}

/// Only measuring has to fail, for want of a buffer; every other call has to succeed.
pub proof fn which_calls_succeed(n: int, outcome: CallOutcome)
    ensures
        n != 15 ==> went_well(n, outcome) == outcome.succeeded,
        went_well(15, outcome) <==> !outcome.succeeded && outcome.last_error == 122,
{
}

} // verus!
