//! Reading the owner and the access control list of a directory as text.

use vstd::prelude::*;
use vstd::slice::slice_subrange;
use vstd::slice::slice_to_vec;
use crate::nt::FILE_FLAG_BACKUP_SEMANTICS;
use crate::nt::FILE_FLAG_OPEN_REPARSE_POINT;

verus! {

/// The flags that open a directory in order to read its security.
pub open spec fn open_flags(follow: bool) -> u32 {
    if follow {
        FILE_FLAG_BACKUP_SEMANTICS
    } else {
        FILE_FLAG_BACKUP_SEMANTICS | FILE_FLAG_OPEN_REPARSE_POINT
    }
}

/// The flags that open a directory in order to read its security. A reparse
/// point is read in place of its target unless it is to be followed.
pub fn security_open_flags(follow: bool) -> (flags: u32)
    ensures
        flags == if follow {
            FILE_FLAG_BACKUP_SEMANTICS
        } else {
            FILE_FLAG_BACKUP_SEMANTICS | FILE_FLAG_OPEN_REPARSE_POINT
        },
        flags == open_flags(follow),
{
    if follow {
        FILE_FLAG_BACKUP_SEMANTICS
    } else {
        FILE_FLAG_BACKUP_SEMANTICS | FILE_FLAG_OPEN_REPARSE_POINT
    }
}

/// `text` is what is left of `units` without the NULs at the end.
pub open spec fn is_trimmed(text: Seq<u16>, units: Seq<u16>) -> bool {
    &&& text.len() <= units.len()
    &&& text == units.take(text.len() as int)
    &&& text.len() > 0 ==> text.last() != 0
    &&& forall|i: int| text.len() <= i < units.len() ==> #[trigger] units[i] == 0
}

/// The text in a buffer that may end in NULs.
pub fn security_text(units: &[u16]) -> (text: Vec<u16>)
    ensures
        is_trimmed(text@, units@),
{
    let mut end: usize = units.len();
    while end > 0 && units[end - 1] == 0
        invariant
            end <= units@.len(),
            forall|i: int| end <= i < units@.len() ==> #[trigger] units@[i] == 0,
        decreases end,
    {
        end -= 1;
    }
    let text: Vec<u16> = slice_to_vec(slice_subrange(units, 0, end));
    assert(text@ =~= units@.take(end as int));
    text
}

/// The texts of several directories, in order.
pub fn snapshot(texts: &[Vec<u16>]) -> (trimmed: Vec<Vec<u16>>)
    ensures
        trimmed@.len() == texts@.len(),
        forall|i: int|
            0 <= i < texts@.len() ==> is_trimmed(#[trigger] trimmed@[i]@, texts@[i]@),
{
    let mut trimmed: Vec<Vec<u16>> = Vec::new();
    let mut index: usize = 0;
    while index < texts.len()
        invariant
            index <= texts@.len(),
            trimmed@.len() == index,
            forall|i: int|
                0 <= i < index ==> is_trimmed(#[trigger] trimmed@[i]@, texts@[i]@),
        decreases texts@.len() - index,
    {
        trimmed.push(security_text(texts[index].as_slice()));
        index += 1;
    }
    trimmed
}

} // verus!
