use sonicdisk::nt::{
    ERROR_INSUFFICIENT_BUFFER, FILE_ALL_ACCESS, FILE_GENERIC_EXECUTE, FILE_GENERIC_READ,
    FILE_GENERIC_WRITE, STATUS_ACCESS_DENIED, STATUS_INVALID_PARAMETER,
};
use sonicdisk::security::{
    default_ace, default_acl_len, file_generic_mapping, set_security_flags, CallOutcome,
    DescriptorBuild, SecurityCall, SecurityDescriptor, SidUse, WellKnownSid, CALLS,
};

fn good() -> CallOutcome {
    CallOutcome { succeeded: true, last_error: 0, len: 0 }
}

fn measured(len: u32) -> CallOutcome {
    CallOutcome { succeeded: false, last_error: ERROR_INSUFFICIENT_BUFFER, len }
}

fn run(outcome: impl Fn(usize, SecurityCall) -> CallOutcome) -> Result<DescriptorBuild, u32> {
    let mut build = DescriptorBuild::new();
    let mut n = 0;
    while let Some(call) = build.next_call() {
        build.advance(outcome(n, call))?;
        n += 1;
    }
    Ok(build)
}

#[test]
fn a_descriptor_is_made_by_calls_that_all_go_well() {
    let build =
        run(|_, call| if call == SecurityCall::Measure { measured(96) } else { good() }).unwrap();
    assert_eq!(build.done, CALLS);
    assert_eq!(build.len, 96);
    let desc = SecurityDescriptor::new_default(&build, vec![7; 96]);
    assert_eq!(desc.bytes, vec![7; 96]);
}

#[test]
fn the_calls_come_in_order() {
    let mut calls = Vec::new();
    let mut build = DescriptorBuild::new();
    while let Some(call) = build.next_call() {
        calls.push(call);
        let outcome = if call == SecurityCall::Measure { measured(5) } else { good() };
        build.advance(outcome).unwrap();
    }
    assert_eq!(calls.len(), CALLS);
    assert_eq!(
        calls[0],
        SecurityCall::CreateSid {
            sid_use: SidUse::Owner,
            sid: WellKnownSid::LocalSystem,
            capacity: 40
        }
    );
    assert_eq!(
        calls[5],
        SecurityCall::CreateSid {
            sid_use: SidUse::Ace(3),
            sid: WellKnownSid::BuiltinUsers,
            capacity: 40
        }
    );
    assert_eq!(calls[6], SecurityCall::InitializeAcl { len: 200, revision: 2 });
    assert_eq!(
        calls[7],
        SecurityCall::AddAllowedAce { index: 0, revision: 2, flags: 3, mask: FILE_ALL_ACCESS }
    );
    assert_eq!(
        calls[10],
        SecurityCall::AddAllowedAce { index: 3, revision: 2, flags: 3, mask: 0x1200A9 }
    );
    assert_eq!(calls[14], SecurityCall::SetDacl { present: true, defaulted: false });
    assert_eq!(calls[17], SecurityCall::Allocate { flags: 0, len: 5 });
    assert_eq!(calls[18], SecurityCall::MakeSelfRelative { len: 5 });
}

#[test]
fn the_first_call_that_fails_gives_the_error() {
    for bad in 0..CALLS {
        let result = run(|n, call| {
            if n >= bad {
                CallOutcome { succeeded: false, last_error: 1000 + n as u32, len: 0 }
            } else if call == SecurityCall::Measure {
                measured(1)
            } else {
                good()
            }
        });
        assert_eq!(result, Err(1000 + bad as u32));
    }
}

#[test]
fn measuring_has_to_fail_for_want_of_room() {
    let lucky = CallOutcome { succeeded: true, last_error: 3, len: 9 };
    assert_eq!(run(|n, _| if n == 15 { lucky } else { good() }), Err(3));
}

#[test]
fn four_permissions_are_given_by_default() {
    assert_eq!(default_acl_len(), 200);
    assert_eq!(default_ace(0).sid, WellKnownSid::BuiltinAdministrators);
    assert_eq!(default_ace(1).sid, WellKnownSid::LocalSystem);
    assert_eq!(default_ace(2).sid, WellKnownSid::AuthenticatedUser);
    assert_eq!(default_ace(3).sid, WellKnownSid::BuiltinUsers);
    assert_eq!(default_ace(2).mask, 0x1301BF);
    assert_eq!(default_ace(3).mask, FILE_GENERIC_READ | FILE_GENERIC_EXECUTE);
}

#[test]
fn identities_have_their_windows_numbers() {
    assert_eq!(WellKnownSid::LocalSystem.code(), 22);
    assert_eq!(WellKnownSid::AuthenticatedUser.code(), 17);
    assert_eq!(WellKnownSid::BuiltinAdministrators.code(), 26);
    assert_eq!(WellKnownSid::BuiltinUsers.code(), 27);
}

#[test]
fn generic_rights_are_mapped_to_file_rights() {
    let mapping = file_generic_mapping();
    assert_eq!(mapping.generic_read, FILE_GENERIC_READ);
    assert_eq!(mapping.generic_write, FILE_GENERIC_WRITE);
    assert_eq!(mapping.generic_execute, FILE_GENERIC_EXECUTE);
    assert_eq!(mapping.generic_all, FILE_ALL_ACCESS);
    assert_eq!(set_security_flags(), 0x18);
}

#[test]
fn the_size_of_a_descriptor_is_told() {
    let desc = SecurityDescriptor { bytes: vec![0; 20] };
    assert!(!desc.has_room(19));
    assert!(desc.has_room(20));
    assert_eq!(desc.get_security_info(19, Err(STATUS_ACCESS_DENIED)), Ok(20));
    assert_eq!(desc.get_security_info(20, Ok(())), Ok(20));
    assert_eq!(desc.get_security_info(20, Err(STATUS_ACCESS_DENIED)), Err(STATUS_ACCESS_DENIED));
}

#[test]
fn a_descriptor_is_changed_by_a_valid_one() {
    let mut desc = SecurityDescriptor { bytes: vec![1] };
    let other = || SecurityDescriptor { bytes: vec![2, 3] };
    assert_eq!(desc.set_security_info(false, Ok(other())), Err(STATUS_INVALID_PARAMETER));
    assert_eq!(desc.bytes, vec![1]);
    assert_eq!(desc.set_security_info(true, Err(STATUS_ACCESS_DENIED)), Err(STATUS_ACCESS_DENIED));
    assert_eq!(desc.bytes, vec![1]);
    assert_eq!(desc.set_security_info(true, Ok(other())), Ok(()));
    assert_eq!(desc.bytes, vec![2, 3]);
}
