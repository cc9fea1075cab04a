//! The numbers of the Windows interfaces that the decisions are about.

use vstd::prelude::*;

verus! {

/// Open the directory, and fail if it does not exist.
pub const FILE_OPEN: u32 = 1;

/// Open the directory, and create it if it does not exist.
pub const FILE_OPEN_IF: u32 = 3;

/// The name must be that of a directory.
pub const FILE_DIRECTORY_FILE: u32 = 1;

/// The right to pass through a directory.
pub const FILE_TRAVERSE: u32 = 0x20;

/// The right to read the attributes of a file or directory.
pub const FILE_READ_ATTRIBUTES: u32 = 0x80;

/// The right to delete an object.
pub const DELETE: u32 = 0x1_0000;

/// The right to read a security descriptor.
pub const READ_CONTROL: u32 = 0x2_0000;

/// The right to change an access control list.
pub const WRITE_DAC: u32 = 0x4_0000;

/// All rights that reading a file takes.
pub const FILE_GENERIC_READ: u32 = 0x12_0089;

/// All rights that executing a file takes.
pub const FILE_GENERIC_EXECUTE: u32 = 0x12_00A0;

/// All rights that writing a file takes.
pub const FILE_GENERIC_WRITE: u32 = 0x12_0116;

/// No attribute but that of an ordinary file.
pub const FILE_ATTRIBUTE_NORMAL: u32 = 0x80;

/// The file or directory carries a reparse tag.
pub const FILE_ATTRIBUTE_REPARSE_POINT: u32 = 0x400;

/// Others may read while the handle is open.
pub const FILE_SHARE_READ: u32 = 1;

/// Others may write while the handle is open.
pub const FILE_SHARE_WRITE: u32 = 2;

/// Others may delete while the handle is open.
pub const FILE_SHARE_DELETE: u32 = 4;

/// Open a directory as well as a file.
pub const FILE_FLAG_BACKUP_SEMANTICS: u32 = 0x200_0000;

/// Open a reparse point itself, and not what it leads to.
pub const FILE_FLAG_OPEN_REPARSE_POINT: u32 = 0x20_0000;

/// Names are compared without regard to case.
pub const OBJ_CASE_INSENSITIVE: u32 = 0x40;

/// No reparse point is followed while the name is resolved.
pub const OBJ_DONT_REPARSE: u32 = 0x1000;

/// Reparse tags with this bit redirect name resolution (junctions, symlinks,
/// mount points).
pub const REPARSE_TAG_NAME_SURROGATE_BIT: u32 = 0x2000_0000;

/// `0xC000050B`: name resolution met a reparse point that it may not follow.
pub const STATUS_REPARSE_POINT_ENCOUNTERED: i32 = -1073740533;

/// A disk.
pub const FILE_DEVICE_DISK: u32 = 0x7;

/// A disk that only looks like one.
pub const FILE_DEVICE_VIRTUAL_DISK: u32 = 0x24;

/// The device stands on another machine.
pub const FILE_REMOTE_DEVICE: u32 = 0x10;

/// The handle that stands for a failed call.
pub const INVALID_HANDLE_VALUE: isize = -1;

/// The caller lacks a right that it asked for.
pub const ERROR_ACCESS_DENIED: u32 = 5;

/// The entry was inherited from a parent directory.
pub const INHERITED_ACE: u8 = 0x10;

/// Add the given rights.
pub const GRANT_ACCESS: i32 = 1;

} // verus!
