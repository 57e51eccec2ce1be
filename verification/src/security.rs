//! Security descriptors, and the decisions around the Windows calls that make and change them.

use crate::nt::{
    NtStatus, ACL_REVISION, CONTAINER_INHERIT_ACE, DELETE, ERROR_INSUFFICIENT_BUFFER,
    FILE_ALL_ACCESS, FILE_GENERIC_EXECUTE, FILE_GENERIC_READ, FILE_GENERIC_WRITE,
    OBJECT_INHERIT_ACE, SECURITY_DESCRIPTOR_REVISION, SEF_AVOID_OWNER_CHECK,
    SEF_AVOID_PRIVILEGE_CHECK, STATUS_INVALID_PARAMETER,
};
use vstd::prelude::*;

verus! {

/// The identities that the default descriptor knows.
#[derive(Debug, Clone, Copy, PartialEq, Eq, Structural)]
pub enum WellKnownSid {
    AuthenticatedUser,
    LocalSystem,
    BuiltinAdministrators,
    BuiltinUsers,
}

impl WellKnownSid {
    /// The number by which Windows knows the identity.
    pub open spec fn number(self) -> u32 {
        match self {
            WellKnownSid::AuthenticatedUser => 17,
            WellKnownSid::LocalSystem => 22,
            WellKnownSid::BuiltinAdministrators => 26,
            WellKnownSid::BuiltinUsers => 27,
        }
    }

    /// The number by which Windows knows the identity.
    pub fn code(self) -> (code: u32)
        ensures
            code == self.number(),
    {
        match self {
            WellKnownSid::AuthenticatedUser => 17,
            WellKnownSid::LocalSystem => 22,
            WellKnownSid::BuiltinAdministrators => 26,
            WellKnownSid::BuiltinUsers => 27,
        }
    }
}

/// What is allowed to an identity.
#[derive(Debug, Clone, Copy, PartialEq, Eq, Structural)]
pub struct AllowedAce {
    pub sid: WellKnownSid,
    pub mask: u32,
    /// How the permission is passed on to entries below.
    pub flags: u32,
}

/// Permissions are passed on to directories and files.
pub open spec fn inherited_flags() -> u32 {
    CONTAINER_INHERIT_ACE | OBJECT_INHERIT_ACE
}

/// The permissions of the default descriptor: administrators and the system may do everything,
/// authenticated users may read, write, execute and delete, and other users may read and execute.
pub open spec fn default_aces() -> Seq<AllowedAce> {
    seq![
        AllowedAce {
            sid: WellKnownSid::BuiltinAdministrators,
            mask: FILE_ALL_ACCESS,
            flags: inherited_flags(),
        },
        AllowedAce {
            sid: WellKnownSid::LocalSystem,
            mask: FILE_ALL_ACCESS,
            flags: inherited_flags(),
        },
        AllowedAce {
            sid: WellKnownSid::AuthenticatedUser,
            mask: FILE_GENERIC_READ | FILE_GENERIC_WRITE | FILE_GENERIC_EXECUTE | DELETE,
            flags: inherited_flags(),
        },
        AllowedAce {
            sid: WellKnownSid::BuiltinUsers,
            mask: FILE_GENERIC_READ | FILE_GENERIC_EXECUTE,
            flags: inherited_flags(),
        },
    ]
}

/// The size of the fixed part of an identity, which has one authority in it.
pub const SID_SIZE: usize = 12;

/// The room that is made for an identity: the fixed part and seven authorities more.
pub const SID_BUFFER_LEN: usize = SID_SIZE + 7 * 4;

/// The size of the head of a permission list.
pub const ACL_SIZE: usize = 8;

/// The size of a permission without its identity.
pub const ACE_HEAD_SIZE: usize = 8;

/// One permission of the default descriptor.
pub fn default_ace(i: usize) -> (ace: AllowedAce)
    requires
        i < 4,
    ensures
        ace == default_aces()[i as int],
{
    let flags: u32 = CONTAINER_INHERIT_ACE | OBJECT_INHERIT_ACE;
    if i == 0 {
        AllowedAce { sid: WellKnownSid::BuiltinAdministrators, mask: FILE_ALL_ACCESS, flags }
    } else if i == 1 {
        AllowedAce { sid: WellKnownSid::LocalSystem, mask: FILE_ALL_ACCESS, flags }
    } else if i == 2 {
        AllowedAce {
            sid: WellKnownSid::AuthenticatedUser,
            mask: FILE_GENERIC_READ | FILE_GENERIC_WRITE | FILE_GENERIC_EXECUTE | DELETE,
            flags,
        }
    } else {
        AllowedAce {
            sid: WellKnownSid::BuiltinUsers,
            mask: FILE_GENERIC_READ | FILE_GENERIC_EXECUTE,
            flags,
        }
    }
}

/// The size of a permission list for the permissions `aces`, with room for any identities.
pub open spec fn acl_size(aces: Seq<AllowedAce>) -> nat
    decreases aces.len(),
{
    if aces.len() == 0 {
        ACL_SIZE as nat
    } else {
        acl_size(aces.drop_last()) + ACE_HEAD_SIZE as nat + SID_BUFFER_LEN as nat
    }
}

/// The size of the default descriptor's permission list.
pub fn default_acl_len() -> (len: u32)
    ensures
        len == acl_size(default_aces()),
        len == 200,
{
    proof {
        reveal_with_fuel(acl_size, 5);
    }
    (ACL_SIZE + ACE_HEAD_SIZE * 4 + SID_BUFFER_LEN * 4) as u32
}

/// For whom an identity is made.
#[derive(Debug, Clone, Copy, PartialEq, Eq, Structural)]
pub enum SidUse {
    Owner,
    Group,
    /// A permission of the default descriptor.
    Ace(usize),
}

/// The Windows calls that make the default descriptor.
#[derive(Debug, Clone, Copy, PartialEq, Eq, Structural)]
pub enum SecurityCall {
    /// `CreateWellKnownSid`, into a buffer of the given size.
    CreateSid { sid_use: SidUse, sid: WellKnownSid, capacity: u32 },
    /// `InitializeAcl`, of the given size.
    InitializeAcl { len: u32, revision: u32 },
    /// `AddAccessAllowedAceEx`, for the identity that was made for this permission.
    AddAllowedAce { index: usize, revision: u32, flags: u32, mask: u32 },
    /// `InitializeSecurityDescriptor`.
    InitializeDescriptor { revision: u32 },
    /// `SetSecurityDescriptorOwner`.
    SetOwner { defaulted: bool },
    /// `SetSecurityDescriptorGroup`.
    SetGroup { defaulted: bool },
    /// `SetSecurityDescriptorDacl`.
    SetDacl { present: bool, defaulted: bool },
    /// `MakeSelfRelativeSD` without a buffer, which tells how large one has to be.
    Measure,
    /// `GetProcessHeap`.
    GetHeap,
    /// `HeapAlloc`, of the given size.
    Allocate { flags: u32, len: u32 },
    /// `MakeSelfRelativeSD` into the allocated buffer.
    MakeSelfRelative { len: u32 },
}

/// How a call went.
#[derive(Debug, Clone, Copy)]
pub struct CallOutcome {
    /// Whether the call returned true, or something that is not null.
    pub succeeded: bool,
    /// What `GetLastError` says after the call.
    pub last_error: u32,
    /// The size that the call told, if it told one.
    pub len: u32,
}

/// The number of calls that it takes to make the default descriptor.
pub const CALLS: usize = 19;

/// The making of the default descriptor, between two calls.
#[derive(Debug, Clone, Copy, PartialEq, Eq, Structural)]
pub struct DescriptorBuild {
    /// How many calls went well.
    pub done: usize,
    /// The size of the descriptor, once it was measured.
    pub len: u32,
}

/// Call number `n` of those that make the default descriptor, whose size is `len`: identities for
/// the owner, the group and each permission, the permission list, the permissions in order, the
/// descriptor with its parts, and its copy in self-relative form.
pub open spec fn call_number(n: int, len: u32) -> SecurityCall {
    if n == 0 || n == 1 {
        SecurityCall::CreateSid {
            sid_use: if n == 0 {
                SidUse::Owner
            } else {
                SidUse::Group
            },
            sid: WellKnownSid::LocalSystem,
            capacity: SID_BUFFER_LEN as u32,
        }
    } else if n < 6 {
        SecurityCall::CreateSid {
            sid_use: SidUse::Ace((n - 2) as usize),
            sid: default_aces()[n - 2].sid,
            capacity: SID_BUFFER_LEN as u32,
        }
    } else if n == 6 {
        SecurityCall::InitializeAcl {
            len: acl_size(default_aces()) as u32,
            revision: ACL_REVISION,
        }
    } else if n < 11 {
        SecurityCall::AddAllowedAce {
            index: (n - 7) as usize,
            revision: ACL_REVISION,
            flags: default_aces()[n - 7].flags,
            mask: default_aces()[n - 7].mask,
        }
    } else if n == 11 {
        SecurityCall::InitializeDescriptor { revision: SECURITY_DESCRIPTOR_REVISION }
    } else if n == 12 {
        SecurityCall::SetOwner { defaulted: false }
    } else if n == 13 {
        SecurityCall::SetGroup { defaulted: false }
    } else if n == 14 {
        SecurityCall::SetDacl { present: true, defaulted: false }
    } else if n == 15 {
        SecurityCall::Measure
    } else if n == 16 {
        SecurityCall::GetHeap
    } else if n == 17 {
        SecurityCall::Allocate { flags: 0, len }
    } else {
        SecurityCall::MakeSelfRelative { len }
    }
}

/// Whether call number `n` went as it has to. Measuring has to fail for want of a buffer; every
/// other call has to succeed.
pub open spec fn went_well(n: int, outcome: CallOutcome) -> bool {
    if n == 15 {
        !outcome.succeeded && outcome.last_error == ERROR_INSUFFICIENT_BUFFER
    } else {
        outcome.succeeded
    }
}

/// What a call leaves of the making of a descriptor: one call more went well, or the Windows error
/// of the call.
pub open spec fn advanced(build: DescriptorBuild, outcome: CallOutcome) -> Result<
    DescriptorBuild,
    u32,
> {
    if went_well(build.done as int, outcome) {
        Ok(
            DescriptorBuild {
                done: (build.done + 1) as usize,
                len: if build.done == 15 {
                    outcome.len
                } else {
                    build.len
                },
            },
        )
    } else {
        Err(outcome.last_error)
    }
}

/// What the calls leave of the making of a descriptor: the first that did not go well stops it.
pub open spec fn built(outcomes: Seq<CallOutcome>) -> Result<DescriptorBuild, u32>
    decreases outcomes.len(),
{
    if outcomes.len() == 0 {
        Ok(DescriptorBuild { done: 0, len: 0 })
    } else {
        match built(outcomes.drop_last()) {
            Ok(build) => advanced(build, outcomes.last()),
            Err(error) => Err(error),
        }
    }
}

/// A descriptor is made exactly if every call went well, and is then as large as was measured; an
/// error is that of the first call that did not go well.
pub proof fn built_if_all_went_well(outcomes: Seq<CallOutcome>)
    requires
        outcomes.len() <= CALLS,
    ensures
        match built(outcomes) {
            Ok(build) => {
                &&& build.done == outcomes.len()
                &&& forall|n: int|
                    0 <= n < outcomes.len() ==> went_well(n, #[trigger] outcomes[n])
                &&& outcomes.len() > 15 ==> build.len == outcomes[15].len
            },
            Err(error) => exists|n: int|
                {
                    &&& 0 <= n < outcomes.len()
                    &&& !went_well(n, #[trigger] outcomes[n])
                    &&& error == outcomes[n].last_error
                    &&& forall|m: int| 0 <= m < n ==> went_well(m, #[trigger] outcomes[m])
                },
        },
    decreases outcomes.len(),
{
    if outcomes.len() > 0 {
        let rest = outcomes.drop_last();
        let last = outcomes.len() - 1;
        built_if_all_went_well(rest);
        assert(outcomes[last] == outcomes.last());
        match built(rest) {
            Ok(build) => {
                assert forall|m: int| 0 <= m < last implies went_well(
                    m,
                    #[trigger] outcomes[m],
                ) by {
                    assert(rest[m] == outcomes[m]);
                }
                if last > 15 {
                    assert(rest[15] == outcomes[15]);
                }
            },
            Err(error) => {
                let n = choose|n: int|
                    {
                        &&& 0 <= n < rest.len()
                        &&& !went_well(n, #[trigger] rest[n])
                        &&& error == rest[n].last_error
                        &&& forall|m: int| 0 <= m < n ==> went_well(m, #[trigger] rest[m])
                    };
                assert(outcomes[n] == rest[n]);
                assert forall|m: int| 0 <= m < n implies went_well(m, #[trigger] outcomes[m]) by {
                    assert(rest[m] == outcomes[m]);
                }
            },
        }
    }
}

impl DescriptorBuild {
    /// Whether not more calls were made than there are to make.
    pub open spec fn wf(&self) -> bool {
        self.done <= CALLS
    }

    /// Whether all calls were made.
    pub open spec fn finished(&self) -> bool {
        self.done == CALLS
    }

    /// The making of a descriptor, before the first call.
    pub fn new() -> (build: Self)
        ensures
            build.wf(),
            build == (DescriptorBuild { done: 0, len: 0 }),
    {
        DescriptorBuild { done: 0, len: 0 }
    }

    /// The call to make next, if one is left.
    pub fn next_call(&self) -> (call: Option<SecurityCall>)
        requires
            self.wf(),
        ensures
            call == (if self.finished() {
                None
            } else {
                Some(call_number(self.done as int, self.len))
            }),
    {
        let n: usize = self.done;
        if n == CALLS {
            None
        } else if n == 0 {
            Some(
                SecurityCall::CreateSid {
                    sid_use: SidUse::Owner,
                    sid: WellKnownSid::LocalSystem,
                    capacity: SID_BUFFER_LEN as u32,
                },
            )
        } else if n == 1 {
            Some(
                SecurityCall::CreateSid {
                    sid_use: SidUse::Group,
                    sid: WellKnownSid::LocalSystem,
                    capacity: SID_BUFFER_LEN as u32,
                },
            )
        } else if n < 6 {
            Some(
                SecurityCall::CreateSid {
                    sid_use: SidUse::Ace(n - 2),
                    sid: default_ace(n - 2).sid,
                    capacity: SID_BUFFER_LEN as u32,
                },
            )
        } else if n == 6 {
            Some(SecurityCall::InitializeAcl { len: default_acl_len(), revision: ACL_REVISION })
        } else if n < 11 {
            let ace: AllowedAce = default_ace(n - 7);
            Some(
                SecurityCall::AddAllowedAce {
                    index: n - 7,
                    revision: ACL_REVISION,
                    flags: ace.flags,
                    mask: ace.mask,
                },
            )
        } else if n == 11 {
            Some(SecurityCall::InitializeDescriptor { revision: SECURITY_DESCRIPTOR_REVISION })
        } else if n == 12 {
            Some(SecurityCall::SetOwner { defaulted: false })
        } else if n == 13 {
            Some(SecurityCall::SetGroup { defaulted: false })
        } else if n == 14 {
            Some(SecurityCall::SetDacl { present: true, defaulted: false })
        } else if n == 15 {
            Some(SecurityCall::Measure)
        } else if n == 16 {
            Some(SecurityCall::GetHeap)
        } else if n == 17 {
            Some(SecurityCall::Allocate { flags: 0, len: self.len })
        } else {
            Some(SecurityCall::MakeSelfRelative { len: self.len })
        }
    }

    /// Goes on after a call, or stops with the Windows error of the call that did not go well.
    pub fn advance(&mut self, outcome: CallOutcome) -> (result: Result<(), u32>)
        requires
            old(self).wf(),
            !old(self).finished(),
        ensures
            final(self).wf(),
            match advanced(*old(self), outcome) {
                Ok(build) => result == Ok::<(), u32>(()) && *final(self) == build,
                Err(error) => result == Err::<(), u32>(error) && *final(self) == *old(self),
            },
    {
        if self.done == 15 {
            if outcome.succeeded || outcome.last_error != ERROR_INSUFFICIENT_BUFFER {
                return Err(outcome.last_error);
            }
            self.len = outcome.len;
        } else if !outcome.succeeded {
            return Err(outcome.last_error);
        }
        self.done = self.done + 1;
        Ok(())
    }
}

/// A security descriptor in self-relative form.
#[derive(Debug)]
pub struct SecurityDescriptor {
    pub bytes: Vec<u8>,
}

impl Clone for SecurityDescriptor {
    fn clone(&self) -> (copy: Self)
        ensures
            copy.bytes@ == self.bytes@,
    {
        let bytes: Vec<u8> = self.bytes.clone();
        assert(bytes@ =~= self.bytes@);
        SecurityDescriptor { bytes }
    }
}

/// The rights that the generic rights stand for.
#[derive(Debug, Clone, Copy, PartialEq, Eq, Structural)]
pub struct GenericMapping {
    pub generic_read: u32,
    pub generic_write: u32,
    pub generic_execute: u32,
    pub generic_all: u32,
}

/// The rights to a file that the generic rights stand for.
pub fn file_generic_mapping() -> (mapping: GenericMapping)
    ensures
        mapping == (GenericMapping {
            generic_read: FILE_GENERIC_READ,
            generic_write: FILE_GENERIC_WRITE,
            generic_execute: FILE_GENERIC_EXECUTE,
            generic_all: FILE_ALL_ACCESS,
        }),
{
    GenericMapping {
        generic_read: FILE_GENERIC_READ,
        generic_write: FILE_GENERIC_WRITE,
        generic_execute: FILE_GENERIC_EXECUTE,
        generic_all: FILE_ALL_ACCESS,
    }
}

/// How a descriptor is changed: without checks of privileges or of the owner.
pub fn set_security_flags() -> (flags: u32)
    ensures
        flags == SEF_AVOID_PRIVILEGE_CHECK | SEF_AVOID_OWNER_CHECK,
{
    SEF_AVOID_PRIVILEGE_CHECK | SEF_AVOID_OWNER_CHECK
}

impl SecurityDescriptor {
    /// Whether the size of the descriptor is one that Windows can tell.
    pub open spec fn wf(&self) -> bool {
        self.bytes@.len() <= u32::MAX
    }

    /// The default descriptor, once all calls to make it went well: the bytes that they left.
    pub fn new_default(build: &DescriptorBuild, bytes: Vec<u8>) -> (desc: Self)
        requires
            build.finished(),
            bytes@.len() == build.len,
        ensures
            desc.wf(),
            desc.bytes == bytes,
    {
        Self { bytes }
    }

    /// Whether a descriptor is asked for with enough room for it, so that it has to be fetched.
    pub fn has_room(&self, sec_desc_len: u32) -> (yes: bool)
        requires
            self.wf(),
        ensures
            yes == (self.bytes@.len() <= sec_desc_len),
    {
        self.bytes.len() as u32 <= sec_desc_len
    }

    /// Answers a request for parts of the descriptor with the descriptor's size. Where there is
    /// enough room, `fetched` says how `GetPrivateObjectSecurity` went, whose error is passed on.
    pub fn get_security_info(&self, sec_desc_len: u32, fetched: Result<(), NtStatus>) -> (result:
        Result<u32, NtStatus>)
        requires
            self.wf(),
        ensures
            result == (if self.bytes@.len() > sec_desc_len || fetched is Ok {
                Ok::<u32, NtStatus>(self.bytes@.len() as u32)
            } else {
                Err::<u32, NtStatus>(fetched->Err_0)
            }),
    {
        let len: u32 = self.bytes.len() as u32;
        if len > sec_desc_len {
            return Ok(len);
        }
        match fetched {
            Ok(()) => Ok(len),
            Err(status) => Err(status),
        }
    }

    /// Changes the descriptor by another one, which has to be valid. `applied` says how
    /// `SetPrivateObjectSecurityEx` went: with the changed descriptor, or with an error.
    pub fn set_security_info(
        &mut self,
        valid: bool,
        applied: Result<SecurityDescriptor, NtStatus>,
    ) -> (result: Result<(), NtStatus>)
        ensures
            !valid ==> result == Err::<(), NtStatus>(STATUS_INVALID_PARAMETER) && *final(self)
                == *old(self),
            valid ==> match applied {
                Ok(desc) => result == Ok::<(), NtStatus>(()) && *final(self) == desc,
                Err(status) => result == Err::<(), NtStatus>(status) && *final(self) == *old(self),
            },
    {
        if !valid {
            return Err(STATUS_INVALID_PARAMETER);
        }
        match applied {
            Ok(desc) => {
                *self = desc;
                Ok(())
            },
            Err(status) => Err(status),
        }
    }
}

} // verus!
