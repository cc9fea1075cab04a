//! Locking the directory that holds the sandbox programs.
//!
//! The access control list is written through the handle of a directory that
//! was opened without following a reparse point. A user who may not write it,
//! as in a refresh after a setup with more rights, is content with a directory
//! that is already locked in the required way, and with nothing else.

use vstd::prelude::*;
use vstd::string::StringExecFns;
use crate::error::AclError;
use crate::explicit_dacl;
use crate::no_reparse_dir;
use crate::no_reparse_dir::DirectoryWalk;
use crate::no_reparse_dir::open_or_create_no_reparse;
use crate::nt::DELETE;
use crate::nt::ERROR_ACCESS_DENIED;
use crate::nt::FILE_GENERIC_EXECUTE;
use crate::nt::FILE_GENERIC_READ;
use crate::nt::FILE_GENERIC_WRITE;
use crate::nt::GRANT_ACCESS;
use crate::report_laws;
use crate::text;
use crate::text::contains_text;

verus! {

/// The sandbox group may read and execute the sandbox programs.
pub const SANDBOX_BIN_GROUP_MASK: u32 = FILE_GENERIC_READ | FILE_GENERIC_EXECUTE;

/// The real user may do everything but change the access control list.
pub const SANDBOX_BIN_REAL_USER_MASK: u32 = FILE_GENERIC_READ | FILE_GENERIC_WRITE
    | FILE_GENERIC_EXECUTE | DELETE;

/// A lock that is to be put on a directory: the walk to the directory, and the
/// rights that the sandbox group and the real user are to have.
#[derive(Debug, PartialEq, Eq)]
pub struct SandboxLock {
    pub walk: DirectoryWalk,
    pub group_access_mode: i32,
    pub group_mask: u32,
    pub real_user_mask: u32,
}

/// The walk of a lock, the access mode and the mask of the sandbox group, and the
/// mask of the real user.
pub open spec fn lock_of(dir: Seq<u16>, group_mask: u32) -> Result<
    (no_reparse_dir::WalkView, i32, u32, u32),
    AclError,
> {
    match no_reparse_dir::walk_of(dir, no_reparse_dir::Leaf::OpenOrCreate) {
        Ok(walk) => Ok((walk, GRANT_ACCESS, group_mask, SANDBOX_BIN_REAL_USER_MASK)),
        Err(error) => Err(error),
    }
}

/// A lock, or why there is none, with its walk as sequences.
pub open spec fn lock_view(lock: Result<SandboxLock, AclError>) -> Result<
    (no_reparse_dir::WalkView, i32, u32, u32),
    AclError,
> {
    match lock {
        Ok(lock) => Ok(
            (lock.walk@, lock.group_access_mode, lock.group_mask, lock.real_user_mask),
        ),
        Err(error) => Err(error),
    }
}

/// Starts to lock the directory of the sandbox programs, granting the sandbox
/// group `group_mask`.
pub fn lock_sandbox_bin(dir: &[u16], group_mask: u32) -> (lock: Result<SandboxLock, AclError>)
    ensures
        match lock {
            Ok(lock) => {
                &&& no_reparse_dir::walk_of(
                    dir@,
                    no_reparse_dir::Leaf::OpenOrCreate,
                ) == Ok::<no_reparse_dir::WalkView, AclError>(lock.walk@)
                &&& lock.walk@.valid()
                &&& lock.group_access_mode == GRANT_ACCESS
                &&& lock.group_mask == group_mask
                &&& lock.real_user_mask == SANDBOX_BIN_REAL_USER_MASK
            },
            Err(error) => no_reparse_dir::walk_of(
                dir@,
                no_reparse_dir::Leaf::OpenOrCreate,
            ) == Err::<no_reparse_dir::WalkView, AclError>(error),
        },
        lock_view(lock) == lock_of(dir@, group_mask),
{
    match open_or_create_no_reparse(dir) {
        Ok(walk) => Ok(
            SandboxLock {
                walk,
                group_access_mode: GRANT_ACCESS,
                group_mask,
                real_user_mask: SANDBOX_BIN_REAL_USER_MASK,
            },
        ),
        Err(error) => Err(error),
    }
}

/// How a lock goes on once its directory has been looked for.
#[derive(Clone, Copy, Debug, PartialEq, Eq, Structural)]
pub enum LockStep {
    /// Write the access control list through the handle.
    WriteDacl { handle: isize },
    /// Compare the access control list that is there with the required one.
    CompareDacl,
}

/// How a lock goes on after the walk to its directory.
pub open spec fn step_after_walk(outcome: Result<isize, AclError>) -> Result<LockStep, AclError> {
    match outcome {
        Ok(handle) => Ok(LockStep::WriteDacl { handle }),
        Err(error) => if error == (AclError::OpenFailed { os_error: ERROR_ACCESS_DENIED }) {
            Ok(LockStep::CompareDacl)
        } else {
            Err(error)
        },
    }
}

/// Decides how a lock goes on after the walk to its directory has come to a
/// handle or an error. Only a denied open leaves the existing lock to be
/// looked at; any other error stands.
pub fn lock_step(outcome: Result<isize, AclError>) -> (step: Result<LockStep, AclError>)
    ensures
        step == step_after_walk(outcome),
{
    match outcome {
        Ok(handle) => Ok(LockStep::WriteDacl { handle }),
        Err(AclError::OpenFailed { os_error }) => {
            if os_error == ERROR_ACCESS_DENIED {
                Ok(LockStep::CompareDacl)
            } else {
                Err(AclError::OpenFailed { os_error })
            }
        },
        Err(error) => Err(error),
    }
}

/// What a comparison with the required lock comes to.
pub open spec fn accepted_lock(answer: Result<bool, AclError>) -> Result<(), AclError> {
    match answer {
        Ok(true) => Ok(()),
        Ok(false) => Err(AclError::DaclMismatch),
        Err(error) => Err(error),
    }
}

/// Accepts an existing lock that matches the required one.
pub fn accept_existing_lock(answer: Result<bool, AclError>) -> (outcome: Result<(), AclError>)
    ensures
        outcome == accepted_lock(answer),
{
    match answer {
        Ok(same) => {
            if same {
                Ok(())
            } else {
                Err(AclError::DaclMismatch)
            }
        },
        Err(error) => Err(error),
    }
}

/// The protected access control list that keeps the user with the given
/// identifier, and the owner, from changing access control lists.
pub open spec fn protected_list(user_sid: Seq<char>) -> Seq<char> {
    "D:P(A;OICI;0x1301bf;;;OW)(A;OICI;0x1301bf;;;"@ + user_sid + ")(A;OICI;FA;;;SY)"@
}

/// The protected access control list, in the security descriptor definition
/// language, that takes away from the real user the ability to change access
/// control lists below a directory.
///
/// `OW`, the rights of the owner, replace the implicit right of the owner to
/// read and change the list, and a protected list drops inherited full
/// control.
pub fn remove_write_dac_below(user_sid: &str) -> (sddl: String)
    ensures
        sddl@ == "D:P(A;OICI;0x1301bf;;;OW)(A;OICI;0x1301bf;;;"@ + user_sid@
            + ")(A;OICI;FA;;;SY)"@,
        sddl@ == protected_list(user_sid@),
{
    let mut sddl = String::from_str("D:P(A;OICI;0x1301bf;;;OW)(A;OICI;0x1301bf;;;");
    sddl.append(user_sid);
    sddl.append(")(A;OICI;FA;;;SY)");
    sddl
}

/// A lock was rejected with an error whose report mentions `reason`.
pub open spec fn rejected_for(
    result: Result<(), AclError>,
    path: Seq<char>,
    cause: Seq<char>,
    reason: Seq<char>,
) -> bool {
    match result {
        Ok(_) => false,
        Err(error) => text::mentions(error.report_text(path, cause), reason),
    }
}

/// Whether a lock was rejected with an error that mentions `reason`, in its own
/// sentence for the directory shown as `path` or in its cause.
pub fn assert_rejected(
    result: &Result<(), AclError>,
    path: &str,
    cause: &str,
    reason: &str,
) -> (rejected: bool)
    ensures
        rejected == (result is Err && text::mentions(
            result->Err_0.report_text(path@, cause@),
            reason@,
        )),
        rejected == rejected_for(*result, path@, cause@, reason@),
{
    match result {
        Ok(_) => false,
        Err(error) => contains_text(error.report(path, cause).as_str(), reason),
    }
}

/// A directory that its user may not write passes for locked exactly if the
/// access control list that is there could be read and has the explicit
/// entries of the required one, each as many times.
pub proof fn law_denied_lock_is_accepted_only_if_it_is_the_required_one(
    security_info_code: u32,
    current: explicit_dacl::AclRead,
    expected: explicit_dacl::AclRead,
)
    ensures
        accepted_lock(explicit_dacl::matches_of(security_info_code, current, expected))
            == Ok::<(), AclError>(()) <==> {
            &&& security_info_code == 0
            &&& explicit_dacl::explicit_of(current) is Ok
            &&& explicit_dacl::explicit_of(expected) is Ok
            &&& explicit_dacl::same_lock(
                explicit_dacl::explicit_of(current)->Ok_0,
                explicit_dacl::explicit_of(expected)->Ok_0,
            )
        },
{
}

/// A lock that was put on once is accepted again: where a later open of the
/// directory is denied, the list that is there is compared, and it passes if its
/// explicit entries are still those of the required list. Entries that it has
/// inherited since do not count.
pub proof fn law_lock_put_on_once_is_accepted_when_denied(acl: explicit_dacl::AclRead)
    requires
        explicit_dacl::explicit_of(acl) is Ok,
    ensures
        step_after_walk(Err(AclError::OpenFailed { os_error: ERROR_ACCESS_DENIED })) == Ok::<
            LockStep,
            AclError,
        >(LockStep::CompareDacl),
        accepted_lock(explicit_dacl::matches_of(0, acl, acl)) == Ok::<(), AclError>(()),
        forall|current: explicit_dacl::AclRead|
            explicit_dacl::explicit_of(current) == explicit_dacl::explicit_of(acl)
                ==> accepted_lock(#[trigger] explicit_dacl::matches_of(0, current, acl)) == Ok::<
                (),
                AclError,
            >(()),
{
}

/// A failed walk never leads to a write. The existing lock is looked at where
/// the open was denied; after any other error (a reparse point, a drive letter
/// that leads elsewhere, a missing directory) that error is the outcome.
pub proof fn law_failed_walk_writes_nothing(error: AclError)
    ensures
        step_after_walk(Err(error)) == if error == (AclError::OpenFailed {
            os_error: ERROR_ACCESS_DENIED,
        }) {
            Ok::<LockStep, AclError>(LockStep::CompareDacl)
        } else {
            Err::<LockStep, AclError>(error)
        },
{
}

/// Every handle, whatever its value, is written through: a walk that came to a
/// directory is never answered by a comparison. The list is compared after the one
/// error that says the open was denied, and any other error stands as it is.
pub proof fn law_every_handle_is_written_through(outcome: Result<isize, AclError>)
    ensures
        outcome matches Ok(handle) ==> step_after_walk(outcome) == Ok::<LockStep, AclError>(
            LockStep::WriteDacl { handle },
        ),
        step_after_walk(outcome) == Ok::<LockStep, AclError>(LockStep::CompareDacl) <==> (
        outcome matches Err(AclError::OpenFailed { os_error }) && os_error == 5),
        step_after_walk(outcome) is Err <==> outcome is Err && !(outcome matches Err(
            AclError::OpenFailed { os_error },
        ) && os_error == 5),
        step_after_walk(outcome) is Err ==> step_after_walk(outcome)->Err_0 == outcome->Err_0,
{
}

/// A write goes through the handle that the walk came to, and through no other.
pub proof fn law_write_goes_through_the_handle_of_the_walk(
    outcome: Result<isize, AclError>,
    handle: isize,
)
    requires
        step_after_walk(outcome) == Ok::<LockStep, AclError>(LockStep::WriteDacl { handle }),
    ensures
        outcome == Ok::<isize, AclError>(handle),
{
}

/// A comparison that says yes is accepted, one that says no is a mismatch, and one
/// that failed keeps its error.
pub proof fn law_comparison_decides(answer: Result<bool, AclError>)
    ensures
        accepted_lock(answer) is Ok <==> answer is Ok && answer->Ok_0,
        answer is Ok && !answer->Ok_0 ==> accepted_lock(answer) == Err::<(), AclError>(
            AclError::DaclMismatch,
        ),
        answer is Err ==> accepted_lock(answer) == Err::<(), AclError>(answer->Err_0),
{
}

/// A lock grants the sandbox group exactly the rights asked for. The real user gets
/// everything but the rights to change the access control list or the owner. The
/// directory is walked to in order to be locked.
pub proof fn law_lock_grants_what_was_asked_for(dir: Seq<u16>, group_mask: u32)
    ensures
        match no_reparse_dir::walk_of(dir, no_reparse_dir::Leaf::OpenOrCreate) {
            Ok(walk) => {
                let lock = lock_of(dir, group_mask);
                &&& lock is Ok
                &&& lock->Ok_0.0 == walk
                &&& lock->Ok_0.1 == 1
                &&& lock->Ok_0.2 == group_mask
                &&& lock->Ok_0.3 == 0x13_01BF
                &&& lock->Ok_0.3 & 0xC_0000 == 0
            },
            Err(error) => lock_of(dir, group_mask) == Err::<
                (no_reparse_dir::WalkView, i32, u32, u32),
                AclError,
            >(error),
        },
        SANDBOX_BIN_GROUP_MASK == 0x12_00A9,
        SANDBOX_BIN_REAL_USER_MASK == 0x13_01BF,
{
    assert(0x12_0089u32 | 0x12_00A0u32 == 0x12_00A9u32) by (bit_vector);
    assert(0x12_0089u32 | 0x12_0116u32 | 0x12_00A0u32 | 0x1_0000u32 == 0x13_01BFu32) by (bit_vector);
    assert(0x13_01BFu32 & 0xC_0000u32 == 0) by (bit_vector);
}

/// The view of a lock keeps every part of it.
pub proof fn law_lock_view_keeps_everything(lock: SandboxLock, error: AclError)
    ensures
        lock_view(Ok(lock)) is Ok,
        lock_view(Ok(lock))->Ok_0.0 == lock.walk@,
        lock_view(Ok(lock))->Ok_0.1 == lock.group_access_mode,
        lock_view(Ok(lock))->Ok_0.2 == lock.group_mask,
        lock_view(Ok(lock))->Ok_0.3 == lock.real_user_mask,
        lock_view(Err(error)) == Err::<(no_reparse_dir::WalkView, i32, u32, u32), AclError>(error),
{
}

/// A protected list differs from another one only by the identifier of its user,
/// which stands in it in full, between a part for the owner and a part for the
/// system.
pub proof fn law_protected_list_names_its_user(user_sid: Seq<char>, other: Seq<char>)
    ensures
        protected_list(user_sid) == "D:P"@ + "(A;OICI;0x1301bf;;;OW)"@ + "(A;OICI;0x1301bf;;;"@
            + user_sid + ")"@ + "(A;OICI;FA;;;SY)"@,
        protected_list(user_sid) == protected_list(other) ==> user_sid == other,
{
    reveal_strlit("D:P(A;OICI;0x1301bf;;;OW)(A;OICI;0x1301bf;;;");
    reveal_strlit(")(A;OICI;FA;;;SY)");
    reveal_strlit("D:P");
    reveal_strlit("(A;OICI;0x1301bf;;;OW)");
    reveal_strlit("(A;OICI;0x1301bf;;;");
    reveal_strlit(")");
    reveal_strlit("(A;OICI;FA;;;SY)");
    let head = "D:P(A;OICI;0x1301bf;;;OW)(A;OICI;0x1301bf;;;"@;
    let tail = ")(A;OICI;FA;;;SY)"@;
    assert(head =~= "D:P"@ + "(A;OICI;0x1301bf;;;OW)"@ + "(A;OICI;0x1301bf;;;"@);
    assert(tail =~= ")"@ + "(A;OICI;FA;;;SY)"@);
    assert(head + user_sid + tail =~= head + user_sid + ")"@ + "(A;OICI;FA;;;SY)"@);
    if protected_list(user_sid) == protected_list(other) {
        let list = protected_list(user_sid);
        let start = head.len() as int;
        assert(list.len() == start + user_sid.len() + tail.len());
        assert(list.len() == start + other.len() + tail.len());
        assert(list.subrange(start, start + user_sid.len()) =~= user_sid);
        assert(list.subrange(start, start + other.len()) =~= other);
    }
}

/// A lock that was put on was not rejected for any reason. One that was not put on
/// was rejected for every part of the report of its error, and for nothing else.
pub proof fn law_rejection_is_for_what_the_report_says(
    error: AclError,
    path: Seq<char>,
    cause: Seq<char>,
    before: Seq<char>,
    reason: Seq<char>,
    after: Seq<char>,
)
    ensures
        !rejected_for(Ok(()), path, cause, reason),
        error.report_text(path, cause) == before + reason + after ==> rejected_for(
            Err(error),
            path,
            cause,
            reason,
        ),
        rejected_for(Err(error), path, cause, reason) ==> exists|head: Seq<char>, tail: Seq<char>|
            error.report_text(path, cause) == #[trigger] (head + reason + tail),
{
    report_laws::law_text_mentions_its_parts(before, reason, after);
    if rejected_for(Err(error), path, cause, reason) {
        report_laws::law_mentioned_text_is_a_part(error.report_text(path, cause), reason);
    }
}

} // verus!
