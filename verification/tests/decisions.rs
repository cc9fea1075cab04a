//! Single decisions on given values.

use sandbox_acl::error::AclError;
use sandbox_acl::explicit_dacl::{explicit_aces, explicit_dacl_matches, AceRead, AclRead};
use sandbox_acl::no_reparse_dir::{
    handle_volume_relative_name, nt_open, nt_opened, open_component, open_verified_volume_root,
    reject_name_surrogate, reject_reparse_root, require_local_disk, require_volume_root,
};
use sandbox_acl::sandbox_lock::{accept_existing_lock, assert_rejected, lock_step, LockStep};
use sandbox_acl::security_text::{security_open_flags, security_text, snapshot};
use sandbox_acl::text::{contains_text, decimal};

fn wide(text: &str) -> Vec<u16> {
    text.encode_utf16().collect()
}

fn ace(flags: u8, body: &[u8]) -> Vec<u8> {
    let mut bytes = vec![0, flags, 4 + body.len() as u8, 0];
    bytes.extend(body);
    bytes
}

fn entry(flags: u8, body: &[u8]) -> AceRead {
    AceRead::Entry { bytes: ace(flags, body) }
}

fn list(entries: Vec<AceRead>) -> AclRead {
    AclRead::Entries(entries)
}

#[test]
fn a_request_counts_its_name_in_bytes() {
    let request = nt_open(Some(12), &wide("home"), 0x80, 3, 0x1040).expect("request");
    assert_eq!(request.root_directory, 12);
    assert_eq!(request.buffer, wide("home\0"));
    assert_eq!(request.name_length, 8);
    assert_eq!(request.maximum_length, 10);
    assert_eq!(request.attributes, 0x1040);
    assert_eq!(request.desired_access, 0x80);
    assert_eq!(request.file_attributes, 0x80);
    assert_eq!(request.share_access, 7);
    assert_eq!(request.create_disposition, 3);
    assert_eq!(request.create_options, 1);
}

#[test]
fn a_request_has_a_longest_name() {
    let longest = vec![0x61u16; 32766];
    let request = nt_open(None, &longest, 0, 1, 0x40).expect("request");
    assert_eq!(request.name_length, 65532);
    assert_eq!(request.maximum_length, 65534);
    assert_eq!(nt_open(None, &vec![0x61u16; 32767], 0, 1, 0x40), Err(AclError::NameTooLong));
    assert_eq!(nt_open(None, &vec![0x61u16; 40000], 0, 1, 0x40), Err(AclError::NameTooLong));
}

#[test]
fn root_and_components_are_opened_differently() {
    let root = open_verified_volume_root(&wide("\\??\\C:\\")).expect("root");
    assert_eq!(root.root_directory, 0);
    assert_eq!(root.attributes, 0x40);
    assert_eq!(root.desired_access, 0xA0);
    assert_eq!(root.create_disposition, 1);
    let component = open_component(8, &wide("a"), 0x6_0080, 3).expect("component");
    assert_eq!(component.root_directory, 8);
    assert_eq!(component.attributes, 0x1040);
    assert_eq!(component.desired_access, 0x6_0080);
    assert_eq!(component.create_disposition, 3);
}

#[test]
fn an_open_comes_to_a_handle_or_an_error() {
    assert_eq!(nt_opened(0, 9, 24), Ok(24));
    assert_eq!(nt_opened(0x103, 9, 24), Ok(24));
    assert_eq!(nt_opened(0, 9, 0), Err(AclError::InvalidHandle));
    assert_eq!(nt_opened(0, 9, -1), Err(AclError::InvalidHandle));
    assert_eq!(nt_opened(0xC000_050B_u32 as i32, 9, 24), Err(AclError::ReparsePoint));
    assert_eq!(
        nt_opened(0xC000_0034_u32 as i32, 2, 24),
        Err(AclError::OpenFailed { os_error: 2 })
    );
}

#[test]
fn only_local_disks_are_accepted() {
    assert_eq!(require_local_disk(0, 0, 0x7, 0), Ok(()));
    assert_eq!(require_local_disk(0, 0, 0x24, 0x2_0020), Ok(()));
    assert_eq!(require_local_disk(0, 0, 0x7, 0x10), Err(AclError::NotLocalVolume));
    assert_eq!(require_local_disk(0, 0, 0x14, 0), Err(AclError::NotLocalVolume));
    assert_eq!(require_local_disk(-1, 31, 0x7, 0), Err(AclError::DeviceQueryFailed { os_error: 31 }));
}

#[test]
fn a_file_name_record_is_read() {
    let record = [4, 0, 0, 0, 0x5C, 0, 0x34, 0x12, 9, 9];
    assert_eq!(handle_volume_relative_name(1, 0, &record), Ok(vec![0x5C, 0x1234]));
    assert_eq!(handle_volume_relative_name(1, 0, &[3, 0, 0, 0, 0x5C, 0, 7]), Ok(vec![0x5C]));
    assert_eq!(handle_volume_relative_name(1, 0, &[0, 0, 0, 0]), Ok(vec![]));
    assert_eq!(
        handle_volume_relative_name(1, 0, &[3, 0, 0, 0, 0x5C, 0]),
        Err(AclError::RootNameTruncated)
    );
    assert_eq!(
        handle_volume_relative_name(1, 0, &[0, 1, 0, 0, 0x5C, 0]),
        Err(AclError::RootNameTruncated)
    );
    assert_eq!(
        handle_volume_relative_name(1, 0, &[0xFF, 0xFF, 0xFF, 0xFF, 0x5C, 0]),
        Err(AclError::RootNameTruncated)
    );
    assert_eq!(
        handle_volume_relative_name(0, 6, &record),
        Err(AclError::RootNameQueryFailed { os_error: 6 })
    );
}

#[test]
fn only_a_volume_root_is_accepted() {
    assert_eq!(require_volume_root(1, 0, &[2, 0, 0, 0, 0x5C, 0]), Ok(()));
    assert_eq!(
        require_volume_root(1, 0, &[4, 0, 0, 0, 0x5C, 0, 0x61, 0]),
        Err(AclError::NotVolumeRoot)
    );
    assert_eq!(require_volume_root(1, 0, &[0, 0, 0, 0]), Err(AclError::NotVolumeRoot));
    assert_eq!(
        require_volume_root(1, 0, &[2, 0, 0, 0, 0x2F, 0]),
        Err(AclError::NotVolumeRoot)
    );
    assert_eq!(require_volume_root(1, 0, &[2, 0, 0, 0]), Err(AclError::RootNameTruncated));
}

#[test]
fn name_surrogates_are_rejected() {
    assert_eq!(reject_name_surrogate(1, 0, 0x10, 0), Ok(()));
    assert_eq!(reject_name_surrogate(1, 0, 0x10, 0xA000_0003), Ok(()));
    assert_eq!(reject_name_surrogate(1, 0, 0x410, 0x9000_001A), Ok(()));
    assert_eq!(reject_name_surrogate(1, 0, 0x410, 0xA000_0003), Err(AclError::ReparsePoint));
    assert_eq!(
        reject_name_surrogate(0, 5, 0x10, 0),
        Err(AclError::AttributeQueryFailed { os_error: 5 })
    );
}

#[test]
fn explicit_entries_keep_their_order() {
    let acl = list(vec![entry(0x03, &[2, 2]), entry(0x13, &[9]), entry(0, &[1])]);
    assert_eq!(explicit_aces(&acl), Ok(vec![vec![0, 3, 6, 0, 2, 2], vec![0, 0, 5, 0, 1]]));
    assert_eq!(explicit_aces(&list(vec![])), Ok(vec![]));
}

#[test]
fn an_unreadable_list_has_no_entries() {
    assert_eq!(explicit_aces(&AclRead::Null), Err(AclError::NullDacl));
    assert_eq!(
        explicit_aces(&AclRead::InformationFailed { code: 87 }),
        Err(AclError::AclInformationFailed { code: 87 })
    );
    let acl = list(vec![
        entry(0, &[1]),
        AceRead::Failed { code: 5 },
        AceRead::Failed { code: 6 },
    ]);
    assert_eq!(explicit_aces(&acl), Err(AclError::GetAceFailed { code: 5 }));
}

#[test]
fn order_and_inherited_entries_do_not_matter() {
    let current = list(vec![entry(0x13, &[7]), entry(0, &[1, 2]), entry(3, &[3])]);
    let expected = list(vec![entry(3, &[3]), entry(0, &[1, 2])]);
    assert_eq!(explicit_dacl_matches(0, &current, &expected), Ok(true));
    assert_eq!(explicit_dacl_matches(0, &expected, &current), Ok(true));
}

#[test]
fn a_missing_added_or_repeated_entry_is_a_mismatch() {
    let expected = list(vec![entry(0, &[1]), entry(0, &[2])]);
    for entries in [
        vec![entry(0, &[1])],
        vec![entry(0, &[1]), entry(0, &[2]), entry(0, &[3])],
        vec![entry(0, &[1]), entry(0, &[1])],
        vec![entry(0, &[1]), entry(0, &[2, 0])],
        vec![entry(0, &[1]), entry(0x10, &[2])],
        vec![entry(0, &[1]), entry(0x03, &[2])],
        vec![],
    ] {
        assert_eq!(explicit_dacl_matches(0, &list(entries), &expected), Ok(false));
    }
}

#[test]
fn lists_without_explicit_entries_match_each_other_only() {
    let empty = list(vec![entry(0x10, &[1])]);
    assert_eq!(explicit_dacl_matches(0, &empty, &empty), Ok(true));
    assert_eq!(explicit_dacl_matches(0, &list(vec![]), &empty), Ok(true));
    assert_eq!(explicit_dacl_matches(0, &empty, &list(vec![entry(0, &[1])])), Ok(false));
    assert_eq!(explicit_dacl_matches(0, &list(vec![entry(0, &[1])]), &empty), Ok(false));
}

#[test]
fn the_first_failure_is_reported() {
    let good = list(vec![entry(0, &[1])]);
    assert_eq!(
        explicit_dacl_matches(5, &AclRead::Null, &AclRead::Null),
        Err(AclError::SecurityInfoFailed { code: 5 })
    );
    assert_eq!(
        explicit_dacl_matches(0, &AclRead::Null, &AclRead::InformationFailed { code: 1 }),
        Err(AclError::NullDacl)
    );
    assert_eq!(
        explicit_dacl_matches(0, &good, &AclRead::InformationFailed { code: 1 }),
        Err(AclError::AclInformationFailed { code: 1 })
    );
}

#[test]
fn only_a_denied_open_is_compared() {
    assert_eq!(lock_step(Ok(24)), Ok(LockStep::WriteDacl { handle: 24 }));
    assert_eq!(lock_step(Err(AclError::OpenFailed { os_error: 5 })), Ok(LockStep::CompareDacl));
    for error in [
        AclError::OpenFailed { os_error: 2 },
        AclError::ReparsePoint,
        AclError::NotVolumeRoot,
        AclError::AttributeQueryFailed { os_error: 5 },
    ] {
        assert_eq!(lock_step(Err(error)), Err(error));
    }
}

#[test]
fn an_existing_lock_is_accepted_or_not() {
    assert_eq!(accept_existing_lock(Ok(true)), Ok(()));
    assert_eq!(accept_existing_lock(Ok(false)), Err(AclError::DaclMismatch));
    assert_eq!(accept_existing_lock(Err(AclError::NullDacl)), Err(AclError::NullDacl));
}

#[test]
fn messages_name_the_path_or_the_code() {
    let path = "C:\\h\u{e4}me";
    let cases: Vec<(AclError, &str)> = vec![
        (AclError::NotAbsolute, "sandbox ACL path must be absolute: C:\\h\u{e4}me"),
        (AclError::NotLocalDisk, "sandbox ACL path must have a local disk prefix: C:\\h\u{e4}me"),
        (
            AclError::InvalidDriveLetter,
            "sandbox ACL path has an invalid drive letter: C:\\h\u{e4}me",
        ),
        (AclError::NotRooted, "sandbox ACL path must be rooted at the drive: C:\\h\u{e4}me"),
        (
            AclError::DotComponent,
            "sandbox ACL path must not contain `.` or `..` components: C:\\h\u{e4}me",
        ),
        (AclError::InvalidComponent, "sandbox ACL path has an invalid component: C:\\h\u{e4}me"),
        (
            AclError::NoDirectoryComponent,
            "sandbox ACL path has no directory component: C:\\h\u{e4}me",
        ),
        (AclError::NameTooLong, "sandbox ACL path is too long"),
        (AclError::ReparsePoint, "sandbox ACL path contains a reparse point: C:\\h\u{e4}me"),
        (AclError::OpenFailed { os_error: 2 }, "open sandbox ACL directory C:\\h\u{e4}me"),
        (
            AclError::InvalidHandle,
            "NtCreateFile returned an invalid sandbox ACL directory handle",
        ),
        (
            AclError::DeviceQueryFailed { os_error: 2 },
            "query sandbox ACL drive device C:\\h\u{e4}me",
        ),
        (
            AclError::NotLocalVolume,
            "sandbox ACL path must be on a local disk volume: C:\\h\u{e4}me",
        ),
        (AclError::RootNameQueryFailed { os_error: 2 }, "query sandbox ACL drive root name"),
        (AclError::RootNameTruncated, "sandbox ACL drive root name is truncated"),
        (
            AclError::NotVolumeRoot,
            "sandbox ACL drive letter does not resolve to a volume root: C:\\h\u{e4}me",
        ),
        (
            AclError::AttributeQueryFailed { os_error: 2 },
            "query sandbox ACL directory attributes C:\\h\u{e4}me",
        ),
        (AclError::SecurityInfoFailed { code: 5 }, "GetSecurityInfo sandbox dir failed: 5"),
        (AclError::NullDacl, "sandbox dir has a NULL DACL"),
        (
            AclError::AclInformationFailed { code: 1336 },
            "GetAclInformation sandbox dir failed: 1336",
        ),
        (AclError::GetAceFailed { code: 87 }, "GetAce sandbox dir failed: 87"),
        (
            AclError::DaclMismatch,
            "sandbox directory DACL does not match the required lock: C:\\h\u{e4}me",
        ),
    ];
    for (error, message) in cases {
        assert_eq!(error.message(path), message);
    }
}

#[test]
fn numbers_are_rendered_in_decimal() {
    assert_eq!(decimal(0), "0");
    assert_eq!(decimal(9), "9");
    assert_eq!(decimal(10), "10");
    assert_eq!(decimal(u32::MAX), "4294967295");
}

#[test]
fn text_is_found_wherever_it_stands() {
    assert!(contains_text("reparse point", "reparse"));
    assert!(contains_text("reparse point", "point"));
    assert!(contains_text("reparse point", ""));
    assert!(contains_text("", ""));
    assert!(contains_text("aab\u{e4}", "ab\u{e4}"));
    assert!(!contains_text("reparse", "reparse point"));
    assert!(!contains_text("reparse point", "points"));
}

#[test]
fn a_rejection_has_to_give_its_reason() {
    assert!(assert_rejected(&Err(AclError::ReparsePoint), "C:\\x", "", "reparse point"));
    assert!(!assert_rejected(&Err(AclError::NotVolumeRoot), "C:\\x", "", "reparse point"));
    assert!(!assert_rejected(&Ok(()), "C:\\x", "", ""));
    let failed = Err(AclError::OpenFailed { os_error: 2 });
    assert!(assert_rejected(&failed, "C:\\x", "gone (os error 2)", "(os error 2)"));
    assert!(assert_rejected(&failed, "C:\\x", "gone (os error 2)", "directory C:\\x: gone"));
    assert!(!assert_rejected(&failed, "C:\\x", "gone", "(os error 2)"));
    assert!(!assert_rejected(&Err(AclError::ReparsePoint), "C:\\x", "gone", "gone"));
    assert!(!assert_rejected(&Ok(()), "C:\\x", "gone", "gone"));
}

#[test]
fn a_report_ends_with_the_cause() {
    assert_eq!(
        AclError::OpenFailed { os_error: 2 }.report("C:\\x", "gone"),
        "open sandbox ACL directory C:\\x: gone"
    );
    assert_eq!(
        AclError::NameTooLong.report("C:\\x", "out of range"),
        "sandbox ACL path is too long: out of range"
    );
    assert_eq!(AclError::NullDacl.report("C:\\x", "gone"), "sandbox dir has a NULL DACL");
    for error in [
        AclError::DeviceQueryFailed { os_error: 1 },
        AclError::RootNameQueryFailed { os_error: 1 },
        AclError::AttributeQueryFailed { os_error: 1 },
    ] {
        assert!(error.has_cause());
    }
    assert!(!AclError::SecurityInfoFailed { code: 5 }.has_cause());
}

#[test]
fn a_volume_root_is_no_reparse_point_of_any_kind() {
    assert_eq!(reject_reparse_root(1, 0, 0x10), Ok(()));
    assert_eq!(reject_reparse_root(1, 0, 0x410), Err(AclError::ReparsePoint));
    assert_eq!(
        reject_reparse_root(0, 5, 0x410),
        Err(AclError::AttributeQueryFailed { os_error: 5 })
    );
}

#[test]
fn security_is_read_from_a_link_or_its_target() {
    assert_eq!(security_open_flags(true), 0x0200_0000);
    assert_eq!(security_open_flags(false), 0x0220_0000);
}

#[test]
fn security_text_ends_before_its_nuls() {
    assert_eq!(security_text(&wide("O:SY\0\0")), wide("O:SY"));
    assert_eq!(security_text(&wide("O:\0SY")), wide("O:\0SY"));
    assert_eq!(security_text(&[0, 0]), Vec::<u16>::new());
    assert_eq!(security_text(&[]), Vec::<u16>::new());
    assert_eq!(
        snapshot(&[wide("D:P\0"), wide("O:SY"), wide("\0")]),
        vec![wide("D:P"), wide("O:SY"), wide("")]
    );
}
