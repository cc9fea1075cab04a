//! Comparing the explicit entries of two access control lists.

use vstd::prelude::*;
use vstd::slice::slice_to_vec;
use crate::error::AclError;
use crate::nt::INHERITED_ACE;

verus! {

/// What came back when one entry of an access control list was asked for.
#[derive(Debug, PartialEq, Eq)]
pub enum AceRead {
    /// All bytes of the entry, its header first.
    Entry { bytes: Vec<u8> },
    /// The error code of the failed call.
    Failed { code: u32 },
}

/// An [`AceRead`] with its bytes as a sequence.
pub enum AceReadView {
    Entry { bytes: Seq<u8> },
    Failed { code: u32 },
}

impl View for AceRead {
    type V = AceReadView;

    open spec fn view(&self) -> AceReadView {
        match *self {
            AceRead::Entry { bytes } => AceReadView::Entry { bytes: bytes@ },
            AceRead::Failed { code } => AceReadView::Failed { code },
        }
    }
}

/// What came back when an access control list was read.
#[derive(Debug, PartialEq, Eq)]
pub enum AclRead {
    /// There is no list.
    Null,
    /// The error code of the failed call for the number of entries.
    InformationFailed { code: u32 },
    /// The entries, in the order of the list.
    Entries(Vec<AceRead>),
}

/// The length of the header that every entry starts with: its type, its flags,
/// and its size in two bytes.
pub const ACE_HEADER_LEN: usize = 4;

/// Every entry that was read holds its header, as in any valid list.
pub open spec fn valid_acl(acl: AclRead) -> bool {
    acl matches AclRead::Entries(entries) ==> forall|i: int|
        0 <= i < entries@.len() ==> (#[trigger] entries@[i] matches AceRead::Entry { bytes }
            ==> bytes@.len() >= ACE_HEADER_LEN)
}

/// The flags in the header of an entry.
pub open spec fn ace_flags(bytes: Seq<u8>) -> u8 {
    bytes[1]
}

/// The views of a list of entries.
pub open spec fn entry_views(entries: Seq<AceRead>) -> Seq<AceReadView> {
    entries.map_values(|entry: AceRead| entry@)
}

/// The bytes of a list of entries.
pub open spec fn byte_views(entries: Seq<Vec<u8>>) -> Seq<Seq<u8>> {
    entries.map_values(|entry: Vec<u8>| entry@)
}

/// The entry stands in the list itself, and was not handed down by a parent.
pub open spec fn is_explicit(entry: AceReadView) -> bool {
    entry matches AceReadView::Entry { bytes } && ace_flags(bytes) & INHERITED_ACE == 0
}

/// The bytes of the explicit entries, in order.
pub open spec fn explicit_bytes(entries: Seq<AceReadView>) -> Seq<Seq<u8>>
    decreases entries.len(),
{
    if entries.len() == 0 {
        Seq::empty()
    } else if is_explicit(entries.last()) {
        explicit_bytes(entries.drop_last()).push(entries.last()->bytes)
    } else {
        explicit_bytes(entries.drop_last())
    }
}

/// The error code of the first entry that could not be read.
pub open spec fn first_failure(entries: Seq<AceReadView>) -> Option<u32>
    decreases entries.len(),
{
    if entries.len() == 0 {
        None
    } else {
        match first_failure(entries.drop_last()) {
            Some(code) => Some(code),
            None => match entries.last() {
                AceReadView::Failed { code } => Some(code),
                AceReadView::Entry { .. } => None,
            },
        }
    }
}

/// The bytes of the explicit entries, if all entries could be read.
pub open spec fn explicit_entries(entries: Seq<AceReadView>) -> Result<Seq<Seq<u8>>, AclError> {
    match first_failure(entries) {
        Some(code) => Err(AclError::GetAceFailed { code }),
        None => Ok(explicit_bytes(entries)),
    }
}

/// The bytes of the explicit entries of a list that could be read.
pub open spec fn explicit_of(acl: AclRead) -> Result<Seq<Seq<u8>>, AclError> {
    match acl {
        AclRead::Null => Err(AclError::NullDacl),
        AclRead::InformationFailed { code } => Err(AclError::AclInformationFailed { code }),
        AclRead::Entries(entries) => explicit_entries(entry_views(entries@)),
    }
}

/// `current` holds exactly the explicit entries of `expected`, each as many
/// times.
pub open spec fn same_lock(current: Seq<Seq<u8>>, expected: Seq<Seq<u8>>) -> bool {
    current.to_multiset() == expected.to_multiset()
}

/// Whether a directory carries exactly the explicit entries of `expected`.
pub open spec fn matches_of(
    security_info_code: u32,
    current: AclRead,
    expected: AclRead,
) -> Result<bool, AclError> {
    if security_info_code != 0 {
        Err(AclError::SecurityInfoFailed { code: security_info_code })
    } else {
        match (explicit_of(current), explicit_of(expected)) {
            (Err(error), _) => Err(error),
            (_, Err(error)) => Err(error),
            (Ok(current), Ok(expected)) => Ok(same_lock(current, expected)),
        }
    }
}

/// Copies the raw bytes of every entry that is not inherited.
pub fn explicit_aces(acl: &AclRead) -> (aces: Result<Vec<Vec<u8>>, AclError>)
    requires
        valid_acl(*acl),
    ensures
        match aces {
            Ok(aces) => explicit_of(*acl) == Ok::<Seq<Seq<u8>>, AclError>(byte_views(aces@)),
            Err(error) => explicit_of(*acl) == Err::<Seq<Seq<u8>>, AclError>(error),
        },
{
    let entries: &Vec<AceRead> = match acl {
        AclRead::Null => return Err(AclError::NullDacl),
        AclRead::InformationFailed { code } => {
            return Err(AclError::AclInformationFailed { code: *code });
        },
        AclRead::Entries(entries) => entries,
    };
    let ghost views = entry_views(entries@);
    let mut aces: Vec<Vec<u8>> = Vec::new();
    let mut index: usize = 0;
    assert(views.take(0) =~= Seq::empty());
    assert(byte_views(aces@) =~= Seq::<Seq<u8>>::empty());
    while index < entries.len()
        invariant
            index <= entries@.len(),
            views == entry_views(entries@),
            valid_acl(*acl),
            *acl == AclRead::Entries(*entries),
            explicit_of(*acl) == explicit_entries(views),
            first_failure(views.take(index as int)) is None,
            byte_views(aces@) == explicit_bytes(views.take(index as int)),
        decreases entries@.len() - index,
    {
        let ghost seen = views.take(index + 1);
        assert(seen.drop_last() =~= views.take(index as int));
        assert(seen.last() == entries@[index as int]@);
        match &entries[index] {
            AceRead::Failed { code } => {
                proof {
                    assert(first_failure(seen) == Some(*code));
                    lemma_first_failure_stays(seen, views.skip(index + 1));
                    assert(seen + views.skip(index + 1) =~= views);
                }
                return Err(AclError::GetAceFailed { code: *code });
            },
            AceRead::Entry { bytes } => {
                assert(entries@[index as int] matches AceRead::Entry { bytes } && bytes@.len()
                    >= ACE_HEADER_LEN);
                if bytes[1] & INHERITED_ACE == 0 {
                    let ghost before = byte_views(aces@);
                    aces.push(slice_to_vec(bytes.as_slice()));
                    assert(byte_views(aces@) =~= before.push(bytes@));
                }
            },
        }
        index += 1;
    }
    assert(views.take(index as int) =~= views);
    Ok(aces)
}

proof fn lemma_first_failure_stays(first: Seq<AceReadView>, rest: Seq<AceReadView>)
    requires
        first_failure(first) is Some,
    ensures
        first_failure(first + rest) == first_failure(first),
    decreases rest.len(),
{
    let whole = first + rest;
    if rest.len() == 0 {
        assert(whole =~= first);
    } else {
        assert(whole.drop_last() =~= first + rest.drop_last());
        lemma_first_failure_stays(first, rest.drop_last());
    }
}

fn same_bytes(left: &Vec<u8>, right: &Vec<u8>) -> (same: bool)
    ensures
        same == (left@ == right@),
{
    if left.len() != right.len() {
        return false;
    }
    let mut index: usize = 0;
    while index < left.len()
        invariant
            index <= left@.len(),
            left@.len() == right@.len(),
            forall|i: int| 0 <= i < index ==> left@[i] == right@[i],
        decreases left@.len() - index,
    {
        if left[index] != right[index] {
            return false;
        }
        index += 1;
    }
    assert(left@ =~= right@);
    true
}

fn position_of(entries: &Vec<Vec<u8>>, entry: &Vec<u8>) -> (position: Option<usize>)
    ensures
        match position {
            Some(index) => index < entries@.len() && byte_views(entries@)[index as int] == entry@,
            None => !byte_views(entries@).contains(entry@),
        },
{
    let mut index: usize = 0;
    while index < entries.len()
        invariant
            index <= entries@.len(),
            forall|i: int| 0 <= i < index ==> #[trigger] byte_views(entries@)[i] != entry@,
        decreases entries@.len() - index,
    {
        if same_bytes(&entries[index], entry) {
            return Some(index);
        }
        assert(byte_views(entries@)[index as int] != entry@);
        index += 1;
    }
    None
}

/// An entry that nothing is left to pair with tells two lists apart.
proof fn lemma_no_partner(
    lefts: Seq<Seq<u8>>,
    rights: Seq<Seq<u8>>,
    remaining: Seq<Seq<u8>>,
    index: int,
)
    requires
        0 <= index < lefts.len(),
        rights.to_multiset() == remaining.to_multiset().add(lefts.take(index).to_multiset()),
        !remaining.contains(lefts[index]),
    ensures
        lefts.to_multiset() != rights.to_multiset(),
{
    broadcast use vstd::seq_lib::group_to_multiset_ensures;
    broadcast use vstd::multiset::group_multiset_axioms;

    let entry = lefts[index];
    let rest = lefts.skip(index + 1);
    assert(lefts.take(index + 1) =~= lefts.take(index).push(entry));
    assert(lefts =~= lefts.take(index + 1) + rest);
    vstd::seq_lib::lemma_multiset_commutative(lefts.take(index + 1), rest);
    assert(lefts.to_multiset().count(entry) > rights.to_multiset().count(entry));
}

/// Taking the partner of an entry away keeps the account.
proof fn lemma_partner_taken(
    lefts: Seq<Seq<u8>>,
    rights: Seq<Seq<u8>>,
    remaining: Seq<Seq<u8>>,
    index: int,
    at: int,
)
    requires
        0 <= index < lefts.len(),
        rights.to_multiset() == remaining.to_multiset().add(lefts.take(index).to_multiset()),
        0 <= at < remaining.len(),
        remaining[at] == lefts[index],
    ensures
        rights.to_multiset() == remaining.remove(at).to_multiset().add(
            lefts.take(index + 1).to_multiset(),
        ),
{
    broadcast use vstd::seq_lib::group_to_multiset_ensures;
    broadcast use vstd::multiset::group_multiset_axioms;

    assert(lefts.take(index + 1) =~= lefts.take(index).push(lefts[index]));
    assert(remaining.contains(lefts[index]));
    assert(rights.to_multiset() =~= remaining.remove(at).to_multiset().add(
        lefts.take(index + 1).to_multiset(),
    ));
}

/// Whether two lists hold the same entries, each as many times. The order of
/// entries is not significant: every entry in the lock is an explicit allow or
/// deny for a distinct trustee.
fn same_entries(left: &Vec<Vec<u8>>, right: Vec<Vec<u8>>) -> (same: bool)
    ensures
        same == (byte_views(left@).to_multiset() == byte_views(right@).to_multiset()),
{
    broadcast use vstd::seq_lib::group_to_multiset_ensures;
    broadcast use vstd::multiset::group_multiset_axioms;

    let ghost lefts = byte_views(left@);
    let ghost rights = byte_views(right@);
    if left.len() != right.len() {
        assert(lefts.to_multiset().len() != rights.to_multiset().len());
        return false;
    }
    let mut remaining: Vec<Vec<u8>> = right;
    let mut index: usize = 0;
    assert(lefts.take(0) =~= Seq::empty());
    assert(rights.to_multiset() =~= byte_views(remaining@).to_multiset().add(
        lefts.take(0).to_multiset(),
    ));
    while index < left.len()
        invariant
            index <= left@.len(),
            lefts == byte_views(left@),
            rights == byte_views(right@),
            remaining@.len() == left@.len() - index,
            rights.to_multiset() == byte_views(remaining@).to_multiset().add(
                lefts.take(index as int).to_multiset(),
            ),
        decreases left@.len() - index,
    {
        let ghost before = byte_views(remaining@);
        match position_of(&remaining, &left[index]) {
            None => {
                proof {
                    lemma_no_partner(lefts, rights, before, index as int);
                }
                return false;
            },
            Some(at) => {
                let _entry = remaining.remove(at);
                proof {
                    assert(byte_views(remaining@) =~= before.remove(at as int));
                    lemma_partner_taken(lefts, rights, before, index as int, at as int);
                }
            },
        }
        index += 1;
    }
    proof {
        assert(byte_views(remaining@) =~= Seq::empty());
        assert(lefts.take(index as int) =~= lefts);
        assert(rights.to_multiset() =~= lefts.to_multiset());
    }
    true
}

/// Returns whether a directory already carries exactly the explicit entries of
/// `expected`, given the error code of reading its security information (0 for
/// none) and its access control list as it was read.
///
/// Inherited entries are ignored because writing an access control list only
/// controls the explicit entries.
pub fn explicit_dacl_matches(
    security_info_code: u32,
    current: &AclRead,
    expected: &AclRead,
) -> (answer: Result<bool, AclError>)
    requires
        valid_acl(*current),
        valid_acl(*expected),
    ensures
        answer == matches_of(security_info_code, *current, *expected),
{
    if security_info_code != 0 {
        return Err(AclError::SecurityInfoFailed { code: security_info_code });
    }
    let current: Vec<Vec<u8>> = match explicit_aces(current) {
        Ok(aces) => aces,
        Err(error) => return Err(error),
    };
    let expected: Vec<Vec<u8>> = match explicit_aces(expected) {
        Ok(aces) => aces,
        Err(error) => return Err(error),
    };
    Ok(same_entries(&current, expected))
}

} // verus!
