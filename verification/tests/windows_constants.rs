//! The numbers of the library are those of the system headers.

use sandbox_acl::nt;
use windows_sys::Win32::Foundation;
use windows_sys::Win32::Security;
use windows_sys::Win32::Security::Authorization;
use windows_sys::Win32::Storage::FileSystem;
use windows_sys::Win32::System::Kernel;

#[test]
fn access_rights_are_those_of_the_system() {
    assert_eq!(nt::FILE_TRAVERSE, FileSystem::FILE_TRAVERSE);
    assert_eq!(nt::FILE_READ_ATTRIBUTES, FileSystem::FILE_READ_ATTRIBUTES);
    assert_eq!(nt::DELETE, FileSystem::DELETE);
    assert_eq!(nt::READ_CONTROL, FileSystem::READ_CONTROL);
    assert_eq!(nt::WRITE_DAC, FileSystem::WRITE_DAC);
    assert_eq!(nt::FILE_GENERIC_READ, FileSystem::FILE_GENERIC_READ);
    assert_eq!(nt::FILE_GENERIC_WRITE, FileSystem::FILE_GENERIC_WRITE);
    assert_eq!(nt::FILE_GENERIC_EXECUTE, FileSystem::FILE_GENERIC_EXECUTE);
    assert_eq!(nt::GRANT_ACCESS, Authorization::GRANT_ACCESS);
    assert_eq!(u32::from(nt::INHERITED_ACE), Security::INHERITED_ACE);
}

#[test]
fn file_numbers_are_those_of_the_system() {
    assert_eq!(nt::FILE_ATTRIBUTE_NORMAL, FileSystem::FILE_ATTRIBUTE_NORMAL);
    assert_eq!(nt::FILE_ATTRIBUTE_REPARSE_POINT, FileSystem::FILE_ATTRIBUTE_REPARSE_POINT);
    assert_eq!(nt::FILE_SHARE_READ, FileSystem::FILE_SHARE_READ);
    assert_eq!(nt::FILE_SHARE_WRITE, FileSystem::FILE_SHARE_WRITE);
    assert_eq!(nt::FILE_SHARE_DELETE, FileSystem::FILE_SHARE_DELETE);
    assert_eq!(nt::FILE_FLAG_BACKUP_SEMANTICS, FileSystem::FILE_FLAG_BACKUP_SEMANTICS);
    assert_eq!(nt::FILE_FLAG_OPEN_REPARSE_POINT, FileSystem::FILE_FLAG_OPEN_REPARSE_POINT);
    assert_eq!(nt::FILE_DEVICE_DISK, FileSystem::FILE_DEVICE_DISK);
}

#[test]
fn object_numbers_are_those_of_the_system() {
    assert_eq!(nt::OBJ_CASE_INSENSITIVE, Kernel::OBJ_CASE_INSENSITIVE as u32);
    assert_eq!(nt::OBJ_DONT_REPARSE, Kernel::OBJ_DONT_REPARSE as u32);
    assert_eq!(nt::INVALID_HANDLE_VALUE, Foundation::INVALID_HANDLE_VALUE);
    assert_eq!(nt::ERROR_ACCESS_DENIED, Foundation::ERROR_ACCESS_DENIED);
    assert_eq!(
        nt::STATUS_REPARSE_POINT_ENCOUNTERED,
        Foundation::STATUS_REPARSE_POINT_ENCOUNTERED
    );
    assert_eq!(nt::STATUS_REPARSE_POINT_ENCOUNTERED, 0xC000_050B_u32 as i32);
}
