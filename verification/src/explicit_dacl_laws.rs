//! What holds of comparing explicit entries, whatever the lists.

use vstd::prelude::*;
use crate::error::AclError;
use crate::explicit_dacl;
use crate::explicit_dacl::AceRead;
use crate::explicit_dacl::AceReadView;
use crate::explicit_dacl::AclRead;
use crate::nt::INHERITED_ACE;

verus! {

/// An inherited entry changes nothing, wherever it stands in a list.
pub proof fn law_inherited_entries_do_not_matter(
    before: Seq<AceReadView>,
    inherited: AceReadView,
    after: Seq<AceReadView>,
)
    requires
        inherited matches AceReadView::Entry { bytes } && explicit_dacl::ace_flags(bytes)
            & INHERITED_ACE != 0,
    ensures
        explicit_dacl::explicit_entries(before + seq![inherited] + after)
            == explicit_dacl::explicit_entries(before + after),
{
    lemma_inherited_entry_adds_nothing(before, inherited, after);
}

proof fn lemma_inherited_entry_adds_nothing(
    before: Seq<AceReadView>,
    inherited: AceReadView,
    after: Seq<AceReadView>,
)
    requires
        inherited matches AceReadView::Entry { bytes } && explicit_dacl::ace_flags(bytes)
            & INHERITED_ACE != 0,
    ensures
        explicit_dacl::first_failure(before + seq![inherited] + after)
            == explicit_dacl::first_failure(before + after),
        explicit_dacl::explicit_bytes(before + seq![inherited] + after)
            == explicit_dacl::explicit_bytes(before + after),
    decreases after.len(),
{
    let with = before + seq![inherited] + after;
    let without = before + after;
    if after.len() == 0 {
        assert(with.drop_last() =~= before);
        assert(with.last() == inherited);
        assert(without =~= before);
    } else {
        lemma_inherited_entry_adds_nothing(before, inherited, after.drop_last());
        assert(with.drop_last() =~= before + seq![inherited] + after.drop_last());
        assert(without.drop_last() =~= before + after.drop_last());
        assert(with.last() == after.last());
        assert(without.last() == after.last());
    }
}

proof fn lemma_no_failure(entries: Seq<AceReadView>)
    ensures
        explicit_dacl::first_failure(entries) is None <==> forall|i: int|
            0 <= i < entries.len() ==> !(#[trigger] entries[i] is Failed),
    decreases entries.len(),
{
    if entries.len() > 0 {
        let fewer = entries.drop_last();
        lemma_no_failure(fewer);
        assert(forall|i: int| 0 <= i < fewer.len() ==> fewer[i] == entries[i]);
        assert(entries[entries.len() - 1] == entries.last());
        if explicit_dacl::first_failure(fewer) is Some {
            let i = choose|i: int| 0 <= i < fewer.len() && #[trigger] fewer[i] is Failed;
            assert(entries[i] is Failed);
        }
        if explicit_dacl::first_failure(entries) is None {
            assert forall|i: int| 0 <= i < entries.len() implies !(#[trigger] entries[i] is Failed)
                by {
                if i < fewer.len() {
                    assert(!(fewer[i] is Failed));
                }
            }
        }
    }
}

/// What an entry contributes to a list.
spec fn contribution(entry: AceReadView) -> vstd::multiset::Multiset<Seq<u8>> {
    if explicit_dacl::is_explicit(entry) {
        vstd::multiset::Multiset::singleton(entry->bytes)
    } else {
        vstd::multiset::Multiset::empty()
    }
}

proof fn lemma_entry_taken_out(entries: Seq<AceReadView>, at: int)
    requires
        0 <= at < entries.len(),
    ensures
        explicit_dacl::explicit_bytes(entries).to_multiset() == explicit_dacl::explicit_bytes(
            entries.remove(at),
        ).to_multiset().add(contribution(entries[at])),
    decreases entries.len(),
{
    broadcast use vstd::seq_lib::group_to_multiset_ensures;
    broadcast use vstd::multiset::group_multiset_axioms;

    let fewer = entries.remove(at);
    if at == entries.len() - 1 {
        assert(fewer =~= entries.drop_last());
    } else {
        lemma_entry_taken_out(entries.drop_last(), at);
        assert(fewer.drop_last() =~= entries.drop_last().remove(at));
        assert(fewer.last() == entries.last());
        assert(entries.drop_last()[at] == entries[at]);
    }
    assert(explicit_dacl::explicit_bytes(entries).to_multiset()
        =~= explicit_dacl::explicit_bytes(fewer).to_multiset().add(contribution(entries[at])));
}

proof fn lemma_same_contributions(entries: Seq<AceReadView>, reordered: Seq<AceReadView>)
    requires
        entries.to_multiset() == reordered.to_multiset(),
    ensures
        explicit_dacl::explicit_bytes(entries).to_multiset() == explicit_dacl::explicit_bytes(
            reordered,
        ).to_multiset(),
    decreases entries.len(),
{
    broadcast use vstd::seq_lib::group_to_multiset_ensures;
    broadcast use vstd::multiset::group_multiset_axioms;

    assert(entries.to_multiset().len() == entries.len());
    assert(reordered.to_multiset().len() == reordered.len());
    if entries.len() == 0 {
        assert(entries =~= reordered);
    } else {
        let last = entries.len() - 1;
        let entry = entries[last];
        assert(entries.contains(entry));
        assert(entries.to_multiset().count(entry) > 0);
        assert(reordered.contains(entry));
        let at = choose|at: int| 0 <= at < reordered.len() && reordered[at] == entry;
        assert(entries.remove(last).to_multiset() == reordered.remove(at).to_multiset());
        lemma_same_contributions(entries.remove(last), reordered.remove(at));
        lemma_entry_taken_out(entries, last);
        lemma_entry_taken_out(reordered, at);
    }
}

/// The order of entries does not matter: a list that could be read matches the
/// same lists after its entries have been put in another order.
pub proof fn law_order_of_entries_does_not_matter(
    entries: Seq<AceReadView>,
    reordered: Seq<AceReadView>,
    expected: Seq<Seq<u8>>,
)
    requires
        explicit_dacl::explicit_entries(entries) is Ok,
        entries.to_multiset() == reordered.to_multiset(),
    ensures
        explicit_dacl::explicit_entries(reordered) is Ok,
        explicit_dacl::same_lock(explicit_dacl::explicit_entries(reordered)->Ok_0, expected)
            == explicit_dacl::same_lock(explicit_dacl::explicit_entries(entries)->Ok_0, expected),
{
    broadcast use vstd::seq_lib::group_to_multiset_ensures;

    lemma_no_failure(entries);
    lemma_no_failure(reordered);
    assert forall|i: int| 0 <= i < reordered.len() implies !(#[trigger] reordered[i] is Failed) by {
        assert(reordered.contains(reordered[i]));
        assert(reordered.to_multiset().count(reordered[i]) > 0);
        assert(entries.contains(reordered[i]));
    }
    lemma_same_contributions(entries, reordered);
}

/// A list that could be read matches itself, so a directory that carries the
/// required list passes for locked.
pub proof fn law_list_matches_itself(acl: AclRead)
    requires
        explicit_dacl::explicit_of(acl) is Ok,
    ensures
        explicit_dacl::matches_of(0, acl, acl) == Ok::<bool, AclError>(true),
{
}

/// A match holds both ways.
pub proof fn law_matching_is_symmetric(left: AclRead, right: AclRead)
    requires
        explicit_dacl::matches_of(0, left, right) == Ok::<bool, AclError>(true),
    ensures
        explicit_dacl::matches_of(0, right, left) == Ok::<bool, AclError>(true),
{
}

/// The flag of an inherited entry is bit 4 of its second byte; nothing else about
/// an entry tells whether it was inherited.
pub open spec fn own(bytes: Seq<u8>) -> bool {
    bytes[1] & 0x10 == 0
}

/// An entry at the end of a list is added to the explicit entries exactly if it
/// was not inherited, whatever its type, its other flags and the entries before
/// it. One that could not be read is reported, unless an earlier one was.
pub proof fn law_explicit_entries_grow_one_by_one(
    entries: Seq<AceReadView>,
    entry: AceReadView,
)
    ensures
        explicit_dacl::explicit_entries(Seq::empty()) == Ok::<Seq<Seq<u8>>, AclError>(
            Seq::empty(),
        ),
        explicit_dacl::explicit_entries(entries.push(entry))
            == match explicit_dacl::explicit_entries(entries) {
            Err(error) => Err::<Seq<Seq<u8>>, AclError>(error),
            Ok(aces) => match entry {
                AceReadView::Failed { code } => Err::<Seq<Seq<u8>>, AclError>(
                    AclError::GetAceFailed { code },
                ),
                AceReadView::Entry { bytes } => if own(bytes) {
                    Ok::<Seq<Seq<u8>>, AclError>(aces.push(bytes))
                } else {
                    Ok::<Seq<Seq<u8>>, AclError>(aces)
                },
            },
        },
{
    assert(entries.push(entry).drop_last() =~= entries);
    assert(entries.push(entry).last() == entry);
}

/// Two lists one behind the other have the explicit entries of the first and then
/// those of the second.
pub proof fn law_explicit_entries_of_two_lists(
    first: Seq<AceReadView>,
    second: Seq<AceReadView>,
)
    ensures
        explicit_dacl::explicit_entries(first + second) == match (
            explicit_dacl::explicit_entries(first),
            explicit_dacl::explicit_entries(second),
        ) {
            (Err(error), _) => Err::<Seq<Seq<u8>>, AclError>(error),
            (_, Err(error)) => Err::<Seq<Seq<u8>>, AclError>(error),
            (Ok(aces), Ok(more)) => Ok::<Seq<Seq<u8>>, AclError>(aces + more),
        },
    decreases second.len(),
{
    if second.len() == 0 {
        assert(first + second =~= first);
        assert(second =~= Seq::empty());
        law_explicit_entries_grow_one_by_one(first, AceReadView::Failed { code: 0 });
        match explicit_dacl::explicit_entries(first) {
            Ok(aces) => {
                assert(aces + Seq::<Seq<u8>>::empty() =~= aces);
            },
            Err(_) => {},
        }
    } else {
        let fewer = second.drop_last();
        let entry = second.last();
        law_explicit_entries_of_two_lists(first, fewer);
        law_explicit_entries_grow_one_by_one(fewer, entry);
        law_explicit_entries_grow_one_by_one(first + fewer, entry);
        assert(fewer.push(entry) =~= second);
        assert((first + fewer).push(entry) =~= first + second);
        match (
            explicit_dacl::explicit_entries(first),
            explicit_dacl::explicit_entries(fewer),
        ) {
            (Ok(aces), Ok(more)) => {
                if entry is Entry {
                    assert((aces + more).push(entry->bytes) =~= aces + more.push(entry->bytes));
                }
            },
            _ => {},
        }
    }
}

/// The explicit entries of a list that could be read are exactly those without the
/// flag of an inherited entry: each occurs as often as in the list.
pub proof fn law_own_entries_are_kept_as_often_as_they_occur(
    entries: Seq<AceReadView>,
    bytes: Seq<u8>,
)
    requires
        explicit_dacl::explicit_entries(entries) is Ok,
    ensures
        explicit_dacl::explicit_entries(entries)->Ok_0.to_multiset().count(bytes) == if own(bytes) {
            entries.to_multiset().count(AceReadView::Entry { bytes })
        } else {
            0
        },
    decreases entries.len(),
{
    broadcast use vstd::seq_lib::group_to_multiset_ensures;
    broadcast use vstd::multiset::group_multiset_axioms;

    if entries.len() == 0 {
        assert(entries =~= Seq::empty());
        law_explicit_entries_grow_one_by_one(entries, AceReadView::Failed { code: 0 });
    } else {
        let fewer = entries.drop_last();
        let entry = entries.last();
        law_explicit_entries_grow_one_by_one(fewer, entry);
        assert(fewer.push(entry) =~= entries);
        law_own_entries_are_kept_as_often_as_they_occur(fewer, bytes);
        let aces = explicit_dacl::explicit_entries(fewer)->Ok_0;
        assert(entries.to_multiset() =~= fewer.to_multiset().insert(entry));
        assert(aces.push(entry->bytes).to_multiset() =~= aces.to_multiset().insert(entry->bytes));
        if entry->bytes == bytes {
            assert(entry == (AceReadView::Entry { bytes }));
        }
    }
}

/// A list is read in full exactly if every entry could be read; otherwise the
/// error is that of the first one that could not.
pub proof fn law_first_unreadable_entry_is_reported(
    before: Seq<AceReadView>,
    code: u32,
    after: Seq<AceReadView>,
)
    requires
        forall|i: int| 0 <= i < before.len() ==> #[trigger] before[i] is Entry,
    ensures
        explicit_dacl::explicit_entries(before) is Ok,
        explicit_dacl::explicit_entries(before.push(AceReadView::Failed { code }) + after) == Err::<
            Seq<Seq<u8>>,
            AclError,
        >(AclError::GetAceFailed { code }),
{
    lemma_no_failure(before);
    law_explicit_entries_grow_one_by_one(before, AceReadView::Failed { code });
    law_explicit_entries_of_two_lists(before.push(AceReadView::Failed { code }), after);
}

/// Two lists that could be read match exactly if every entry that is not inherited
/// occurs in both of them equally often.
pub proof fn law_matching_lists_hold_the_same_own_entries(
    left: Seq<AceReadView>,
    right: Seq<AceReadView>,
)
    requires
        explicit_dacl::explicit_entries(left) is Ok,
        explicit_dacl::explicit_entries(right) is Ok,
    ensures
        explicit_dacl::same_lock(
            explicit_dacl::explicit_entries(left)->Ok_0,
            explicit_dacl::explicit_entries(right)->Ok_0,
        ) <==> forall|bytes: Seq<u8>|
            #![trigger own(bytes)]
            own(bytes) ==> left.to_multiset().count(AceReadView::Entry { bytes })
                == right.to_multiset().count(AceReadView::Entry { bytes }),
{
    broadcast use vstd::multiset::group_multiset_axioms;

    let lefts = explicit_dacl::explicit_entries(left)->Ok_0;
    let rights = explicit_dacl::explicit_entries(right)->Ok_0;
    if explicit_dacl::same_lock(lefts, rights) {
        assert forall|bytes: Seq<u8>|
            #![trigger own(bytes)]
            own(bytes) implies left.to_multiset().count(AceReadView::Entry { bytes })
            == right.to_multiset().count(AceReadView::Entry { bytes }) by {
            law_own_entries_are_kept_as_often_as_they_occur(left, bytes);
            law_own_entries_are_kept_as_often_as_they_occur(right, bytes);
        }
    }
    if forall|bytes: Seq<u8>|
        #![trigger own(bytes)]
        own(bytes) ==> left.to_multiset().count(AceReadView::Entry { bytes })
            == right.to_multiset().count(AceReadView::Entry { bytes }) {
        assert forall|bytes: Seq<u8>| #[trigger]
            lefts.to_multiset().count(bytes) == rights.to_multiset().count(bytes) by {
            law_own_entries_are_kept_as_often_as_they_occur(left, bytes);
            law_own_entries_are_kept_as_often_as_they_occur(right, bytes);
            assert(own(bytes) || !own(bytes));
        }
        assert(lefts.to_multiset() =~= rights.to_multiset());
    }
}

/// One entry more that is not inherited, whatever its type, makes a list that
/// matched another one differ from it, on either side.
pub proof fn law_one_more_own_entry_breaks_the_match(
    current: Vec<AceRead>,
    expected: AclRead,
    bytes: Vec<u8>,
    longer: Vec<AceRead>,
)
    requires
        explicit_dacl::matches_of(0, AclRead::Entries(current), expected) == Ok::<bool, AclError>(
            true,
        ),
        own(bytes@),
        longer@ == current@.push(AceRead::Entry { bytes }),
    ensures
        explicit_dacl::matches_of(0, AclRead::Entries(longer), expected) == Ok::<bool, AclError>(
            false,
        ),
        explicit_dacl::matches_of(0, expected, AclRead::Entries(longer)) == Ok::<bool, AclError>(
            false,
        ),
{
    broadcast use vstd::seq_lib::group_to_multiset_ensures;
    broadcast use vstd::multiset::group_multiset_axioms;

    let views = explicit_dacl::entry_views(current@);
    let entry = AceReadView::Entry { bytes: bytes@ };
    assert(explicit_dacl::entry_views(longer@) =~= views.push(entry));
    law_explicit_entries_grow_one_by_one(views, entry);
    let aces = explicit_dacl::explicit_entries(views)->Ok_0;
    assert(aces.push(bytes@).to_multiset() =~= aces.to_multiset().insert(bytes@));
    assert(aces.push(bytes@).to_multiset().count(bytes@) == aces.to_multiset().count(bytes@) + 1);
}

/// What goes wrong first is reported: the security information, then the current
/// list, then the expected one. Only where nothing does are the lists compared.
pub proof fn law_first_problem_is_reported(code: u32, current: AclRead, expected: AclRead)
    ensures
        code != 0 ==> explicit_dacl::matches_of(code, current, expected) == Err::<bool, AclError>(
            AclError::SecurityInfoFailed { code },
        ),
        explicit_dacl::explicit_of(current) is Err ==> explicit_dacl::matches_of(
            0,
            current,
            expected,
        ) == Err::<bool, AclError>(explicit_dacl::explicit_of(current)->Err_0),
        explicit_dacl::explicit_of(current) is Ok && explicit_dacl::explicit_of(expected) is Err
            ==> explicit_dacl::matches_of(0, current, expected) == Err::<bool, AclError>(
            explicit_dacl::explicit_of(expected)->Err_0,
        ),
        explicit_dacl::explicit_of(current) is Ok && explicit_dacl::explicit_of(expected) is Ok
            ==> explicit_dacl::matches_of(0, current, expected) == Ok::<bool, AclError>(
            explicit_dacl::same_lock(
                explicit_dacl::explicit_of(current)->Ok_0,
                explicit_dacl::explicit_of(expected)->Ok_0,
            ),
        ),
{
}

/// A missing list and a list of unknown size have no explicit entries; any other
/// list has those of its entries, in order.
pub proof fn law_list_that_could_not_be_read(code: u32, entries: Vec<AceRead>)
    ensures
        explicit_dacl::explicit_of(AclRead::Null) == Err::<Seq<Seq<u8>>, AclError>(
            AclError::NullDacl,
        ),
        explicit_dacl::explicit_of(AclRead::InformationFailed { code }) == Err::<
            Seq<Seq<u8>>,
            AclError,
        >(AclError::AclInformationFailed { code }),
        explicit_dacl::explicit_of(AclRead::Entries(entries)) == explicit_dacl::explicit_entries(
            explicit_dacl::entry_views(entries@),
        ),
{
}

/// The views of entries keep every entry, in its place and in full.
pub proof fn law_entry_views_keep_everything(entries: Seq<AceRead>, aces: Seq<Vec<u8>>)
    ensures
        explicit_dacl::entry_views(entries).len() == entries.len(),
        forall|i: int|
            0 <= i < entries.len() ==> #[trigger] explicit_dacl::entry_views(entries)[i]
                == match entries[i] {
                AceRead::Entry { bytes } => AceReadView::Entry { bytes: bytes@ },
                AceRead::Failed { code } => AceReadView::Failed { code },
            },
        explicit_dacl::byte_views(aces).len() == aces.len(),
        forall|i: int|
            0 <= i < aces.len() ==> #[trigger] explicit_dacl::byte_views(aces)[i] == aces[i]@,
{
}

/// A list of which every entry that was read has its four bytes of header is valid,
/// and so is a list that could not be read.
pub proof fn law_lists_with_whole_headers_are_valid(acl: AclRead)
    ensures
        explicit_dacl::valid_acl(acl) <==> match acl {
            AclRead::Entries(entries) => forall|i: int|
                0 <= i < entries@.len() ==> match #[trigger] entries@[i] {
                    AceRead::Entry { bytes } => bytes@.len() >= 4,
                    AceRead::Failed { .. } => true,
                },
            _ => true,
        },
{
}

} // verus!
