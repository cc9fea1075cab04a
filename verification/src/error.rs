//! Why a sandbox directory could not be opened, read or locked.

use vstd::prelude::*;
use vstd::string::StringExecFns;
use crate::text;
use crate::text::decimal;

verus! {

/// A refused path, a failed system call or a mismatch found on the way to a
/// locked sandbox directory.
#[derive(Clone, Copy, Debug, PartialEq, Eq, Structural)]
pub enum AclError {
    /// The path names no root, or no drive.
    NotAbsolute,
    /// The path starts with something other than a drive letter.
    NotLocalDisk,
    /// The drive is not an ASCII letter.
    InvalidDriveLetter,
    /// No root directory follows the drive.
    NotRooted,
    /// A component is `.` or `..`.
    DotComponent,
    /// A component cannot be opened as a single name.
    InvalidComponent,
    /// The path ends at the drive root.
    NoDirectoryComponent,
    /// A name does not fit a counted string.
    NameTooLong,
    /// A component redirects name resolution.
    ReparsePoint,
    /// A directory could not be opened.
    OpenFailed { os_error: u32 },
    /// An open reported success without a usable handle.
    InvalidHandle,
    /// The device behind the drive letter could not be asked for.
    DeviceQueryFailed { os_error: u32 },
    /// The drive letter leads to something other than a local disk.
    NotLocalVolume,
    /// The name of the drive root could not be asked for.
    RootNameQueryFailed { os_error: u32 },
    /// The name of the drive root did not fit its buffer.
    RootNameTruncated,
    /// The drive letter leads into a volume, not to its root.
    NotVolumeRoot,
    /// The attributes of a directory could not be asked for.
    AttributeQueryFailed { os_error: u32 },
    /// The security information of the directory could not be read.
    SecurityInfoFailed { code: u32 },
    /// The directory has no access control list at all.
    NullDacl,
    /// The size of an access control list could not be read.
    AclInformationFailed { code: u32 },
    /// An entry of an access control list could not be read.
    GetAceFailed { code: u32 },
    /// The directory is locked in another way than required.
    DaclMismatch,
}

impl AclError {
    /// The sentence that reports the error for the directory shown as `path`.
    pub open spec fn message_text(self, path: Seq<char>) -> Seq<char> {
        match self {
            AclError::NotAbsolute => "sandbox ACL path must be absolute: "@ + path,
            AclError::NotLocalDisk => "sandbox ACL path must have a local disk prefix: "@ + path,
            AclError::InvalidDriveLetter => "sandbox ACL path has an invalid drive letter: "@ + path,
            AclError::NotRooted => "sandbox ACL path must be rooted at the drive: "@ + path,
            AclError::DotComponent => {
                "sandbox ACL path must not contain `.` or `..` components: "@ + path
            },
            AclError::InvalidComponent => "sandbox ACL path has an invalid component: "@ + path,
            AclError::NoDirectoryComponent => {
                "sandbox ACL path has no directory component: "@ + path
            },
            AclError::NameTooLong => "sandbox ACL path is too long"@,
            AclError::ReparsePoint => "sandbox ACL path contains a reparse point: "@ + path,
            AclError::OpenFailed { .. } => "open sandbox ACL directory "@ + path,
            AclError::InvalidHandle => {
                "NtCreateFile returned an invalid sandbox ACL directory handle"@
            },
            AclError::DeviceQueryFailed { .. } => "query sandbox ACL drive device "@ + path,
            AclError::NotLocalVolume => {
                "sandbox ACL path must be on a local disk volume: "@ + path
            },
            AclError::RootNameQueryFailed { .. } => "query sandbox ACL drive root name"@,
            AclError::RootNameTruncated => "sandbox ACL drive root name is truncated"@,
            AclError::NotVolumeRoot => {
                "sandbox ACL drive letter does not resolve to a volume root: "@ + path
            },
            AclError::AttributeQueryFailed { .. } => {
                "query sandbox ACL directory attributes "@ + path
            },
            AclError::SecurityInfoFailed { code } => {
                "GetSecurityInfo sandbox dir failed: "@ + text::decimal_text(code as nat)
            },
            AclError::NullDacl => "sandbox dir has a NULL DACL"@,
            AclError::AclInformationFailed { code } => {
                "GetAclInformation sandbox dir failed: "@ + text::decimal_text(code as nat)
            },
            AclError::GetAceFailed { code } => {
                "GetAce sandbox dir failed: "@ + text::decimal_text(code as nat)
            },
            AclError::DaclMismatch => {
                "sandbox directory DACL does not match the required lock: "@ + path
            },
        }
    }

    /// The error wraps another one: that of a failed call, or that of a number
    /// out of range.
    pub open spec fn caused(self) -> bool {
        match self {
            AclError::NameTooLong => true,
            AclError::OpenFailed { .. } => true,
            AclError::DeviceQueryFailed { .. } => true,
            AclError::RootNameQueryFailed { .. } => true,
            AclError::AttributeQueryFailed { .. } => true,
            _ => false,
        }
    }

    /// The sentence for the directory shown as `path`, followed by the cause
    /// where there is one.
    pub open spec fn report_text(self, path: Seq<char>, cause: Seq<char>) -> Seq<char> {
        if self.caused() {
            self.message_text(path) + ": "@ + cause
        } else {
            self.message_text(path)
        }
    }

    /// Whether the error wraps another one.
    pub fn has_cause(&self) -> (caused: bool)
        ensures
            caused == self.caused(),
    {
        match *self {
            AclError::NameTooLong => true,
            AclError::OpenFailed { .. } => true,
            AclError::DeviceQueryFailed { .. } => true,
            AclError::RootNameQueryFailed { .. } => true,
            AclError::AttributeQueryFailed { .. } => true,
            _ => false,
        }
    }

    /// Reports the error for the directory shown as `path` together with its
    /// cause. The words of `cause` are those of the system, and are left out
    /// where the error has no cause.
    pub fn report(&self, path: &str, cause: &str) -> (text: String)
        ensures
            text@ == self.report_text(path@, cause@),
    {
        let mut text = self.message(path);
        if self.has_cause() {
            text.append(": ");
            text.append(cause);
        }
        text
    }

    /// Reports the error for the directory shown as `path`, without its cause.
    pub fn message(&self, path: &str) -> (text: String)
        ensures
            text@ == self.message_text(path@),
    {
        match *self {
            AclError::NotAbsolute => lead("sandbox ACL path must be absolute: ", path),
            AclError::NotLocalDisk => {
                lead("sandbox ACL path must have a local disk prefix: ", path)
            },
            AclError::InvalidDriveLetter => {
                lead("sandbox ACL path has an invalid drive letter: ", path)
            },
            AclError::NotRooted => lead("sandbox ACL path must be rooted at the drive: ", path),
            AclError::DotComponent => {
                lead("sandbox ACL path must not contain `.` or `..` components: ", path)
            },
            AclError::InvalidComponent => {
                lead("sandbox ACL path has an invalid component: ", path)
            },
            AclError::NoDirectoryComponent => {
                lead("sandbox ACL path has no directory component: ", path)
            },
            AclError::NameTooLong => String::from_str("sandbox ACL path is too long"),
            AclError::ReparsePoint => lead("sandbox ACL path contains a reparse point: ", path),
            AclError::OpenFailed { .. } => lead("open sandbox ACL directory ", path),
            AclError::InvalidHandle => {
                String::from_str("NtCreateFile returned an invalid sandbox ACL directory handle")
            },
            AclError::DeviceQueryFailed { .. } => lead("query sandbox ACL drive device ", path),
            AclError::NotLocalVolume => {
                lead("sandbox ACL path must be on a local disk volume: ", path)
            },
            AclError::RootNameQueryFailed { .. } => {
                String::from_str("query sandbox ACL drive root name")
            },
            AclError::RootNameTruncated => {
                String::from_str("sandbox ACL drive root name is truncated")
            },
            AclError::NotVolumeRoot => {
                lead("sandbox ACL drive letter does not resolve to a volume root: ", path)
            },
            AclError::AttributeQueryFailed { .. } => {
                lead("query sandbox ACL directory attributes ", path)
            },
            AclError::SecurityInfoFailed { code } => {
                lead("GetSecurityInfo sandbox dir failed: ", decimal(code).as_str())
            },
            AclError::NullDacl => String::from_str("sandbox dir has a NULL DACL"),
            AclError::AclInformationFailed { code } => {
                lead("GetAclInformation sandbox dir failed: ", decimal(code).as_str())
            },
            AclError::GetAceFailed { code } => {
                lead("GetAce sandbox dir failed: ", decimal(code).as_str())
            },
            AclError::DaclMismatch => {
                lead("sandbox directory DACL does not match the required lock: ", path)
            },
        }
    }
}

fn lead(text: &str, rest: &str) -> (whole: String)
    ensures
        whole@ == text@ + rest@,
{
    let mut whole = String::from_str(text);
    whole.append(rest);
    whole
}

} // verus!
