//! What holds of the texts of errors and of the texts of directories, whatever
//! they are made from.

use vstd::prelude::*;
use crate::error::AclError;
use crate::security_text;
use crate::text;

verus! {

/// Errors that tell the code of a failed call in their own sentence.
pub open spec fn tells_its_code(error: AclError) -> bool {
    error is SecurityInfoFailed || error is AclInformationFailed || error is GetAceFailed
}

/// Errors whose sentence is complete without a path.
pub open spec fn leaves_out_the_path(error: AclError) -> bool {
    tells_its_code(error) || error is NameTooLong || error is InvalidHandle
        || error is RootNameQueryFailed || error is RootNameTruncated || error is NullDacl
}

/// A sentence either ends with the path, with all of it, or does not depend on the
/// path.
pub proof fn law_sentence_ends_with_the_path(error: AclError, path: Seq<char>)
    ensures
        !leaves_out_the_path(error) ==> error.message_text(path) == error.message_text(Seq::empty())
            + path,
        leaves_out_the_path(error) ==> error.message_text(path) == error.message_text(Seq::empty()),
{
    assert forall|text: Seq<char>| #[trigger] (text + Seq::<char>::empty()) == text by {
        assert(text + Seq::<char>::empty() =~= text);
    }
}

/// Two errors of the same kind differ in their sentences only by the code, which
/// stands at the end in decimal. The system error of a failed call is not told.
pub proof fn law_sentence_ends_with_the_code(code: u32, path: Seq<char>, os_error: u32)
    ensures
        (AclError::SecurityInfoFailed { code }).message_text(path)
            == (AclError::SecurityInfoFailed { code: 0 }).message_text(path).drop_last()
            + text::decimal_text(code as nat),
        (AclError::AclInformationFailed { code }).message_text(path)
            == (AclError::AclInformationFailed { code: 0 }).message_text(path).drop_last()
            + text::decimal_text(code as nat),
        (AclError::GetAceFailed { code }).message_text(path) == (AclError::GetAceFailed {
            code: 0,
        }).message_text(path).drop_last() + text::decimal_text(code as nat),
        (AclError::OpenFailed { os_error }).message_text(path) == (AclError::OpenFailed {
            os_error: 0,
        }).message_text(path),
        (AclError::DeviceQueryFailed { os_error }).message_text(path)
            == (AclError::DeviceQueryFailed { os_error: 0 }).message_text(path),
        (AclError::RootNameQueryFailed { os_error }).message_text(path)
            == (AclError::RootNameQueryFailed { os_error: 0 }).message_text(path),
        (AclError::AttributeQueryFailed { os_error }).message_text(path)
            == (AclError::AttributeQueryFailed { os_error: 0 }).message_text(path),
{
    assert(text::decimal_text(0).len() == 1);
    assert forall|head: Seq<char>|
        #[trigger] (head + text::decimal_text(0)).drop_last() == head by {
        assert((head + text::decimal_text(0)).drop_last() =~= head);
    }
}

/// The report of an error that a failed call or a number out of range brought about
/// is its sentence, a colon, a space and the cause in full. The report of any other
/// error is its sentence.
pub proof fn law_report_adds_the_cause(error: AclError, path: Seq<char>, cause: Seq<char>)
    ensures
        error.report_text(path, cause) == if error is NameTooLong || error is OpenFailed
            || error is DeviceQueryFailed || error is RootNameQueryFailed
            || error is AttributeQueryFailed {
            error.message_text(path) + seq![':', ' '] + cause
        } else {
            error.message_text(path)
        },
        error.caused() <==> error is NameTooLong || error is OpenFailed || error is DeviceQueryFailed
            || error is RootNameQueryFailed || error is AttributeQueryFailed,
{
    reveal_strlit(": ");
    assert(": "@ =~= seq![':', ' ']);
}

/// The number that digits stand for, read from left to right.
pub open spec fn read_number(digits: Seq<char>) -> int
    decreases digits.len(),
{
    if digits.len() == 0 {
        0
    } else {
        10 * read_number(digits.drop_last()) + (digits.last() as int - 48)
    }
}

/// A number is written in the digits `0` to `9`, without a zero in front of other
/// digits, and reading them gives the number back.
pub proof fn law_decimal_text_reads_back(value: nat)
    ensures
        ({
            let digits = text::decimal_text(value);
            &&& read_number(digits) == value
            &&& digits.len() > 0
            &&& digits.len() > 1 ==> digits[0] as int != 48
            &&& forall|i: int| 0 <= i < digits.len() ==> 48 <= #[trigger] digits[i] as int <= 57
        }),
    decreases value,
{
    let digits = text::decimal_text(value);
    if value < 10 {
        assert(digits.drop_last() =~= Seq::empty());
        assert(read_number(digits.drop_last()) == 0);
        assert(digits.last() as int == 48 + value);
    } else {
        law_decimal_text_reads_back(value / 10);
        let fewer = text::decimal_text(value / 10);
        assert(digits.drop_last() =~= fewer);
        assert(digits.last() as int == 48 + value % 10);
        assert forall|i: int| 0 <= i < digits.len() implies 48 <= #[trigger] digits[i] as int
            <= 57 by {
            if i < fewer.len() {
                assert(digits[i] == fewer[i]);
            }
        }
        assert(digits[0] == fewer[0]);
        if fewer.len() == 1 {
            assert(fewer.drop_last() =~= Seq::empty());
            assert(read_number(fewer.drop_last()) == 0);
            assert(fewer[0] == fewer.last());
        }
    }
}

/// A text mentions whatever was put into it, wherever it was put.
pub proof fn law_text_mentions_its_parts(
    before: Seq<char>,
    needle: Seq<char>,
    after: Seq<char>,
)
    ensures
        text::mentions(before + needle + after, needle),
{
    let whole = before + needle + after;
    let at = before.len() as int;
    assert(whole.subrange(at, at + needle.len()) =~= needle);
}

/// A text that mentions something consists of what stands before it, of the thing
/// itself and of what stands behind it.
pub proof fn law_mentioned_text_is_a_part(whole: Seq<char>, needle: Seq<char>)
    requires
        text::mentions(whole, needle),
    ensures
        exists|before: Seq<char>, after: Seq<char>|
            whole == #[trigger] (before + needle + after),
{
    let at = choose|at: int|
        0 <= at <= whole.len() - needle.len() && #[trigger] whole.subrange(at, at + needle.len())
            =~= needle;
    let before = whole.take(at);
    let after = whole.skip(at + needle.len());
    assert(whole =~= before + needle + after);
}

/// NULs.
pub open spec fn nuls(count: nat) -> Seq<u16> {
    Seq::new(count, |i: int| 0u16)
}

/// A text that does not end in a NUL is what is left once the NULs behind it have
/// been taken away, however many there are.
pub proof fn law_nuls_behind_a_text_are_taken_away(units: Seq<u16>, count: nat)
    requires
        units.len() == 0 || units.last() != 0,
    ensures
        security_text::is_trimmed(units, units + nuls(count)),
{
    assert((units + nuls(count)).take(units.len() as int) =~= units);
}

/// Nothing but NULs is taken away, no NUL is left at the end, and so there is one
/// trimmed text for every buffer.
pub proof fn law_only_nuls_are_taken_away(first: Seq<u16>, second: Seq<u16>, units: Seq<u16>)
    requires
        security_text::is_trimmed(first, units),
    ensures
        first.len() <= units.len(),
        units == first + nuls((units.len() - first.len()) as nat),
        first.len() == 0 || first.last() != 0,
        security_text::is_trimmed(second, units) ==> first == second,
{
    assert(units =~= first + nuls((units.len() - first.len()) as nat));
    if security_text::is_trimmed(second, units) {
        if first.len() < second.len() {
            assert(second.last() == units[second.len() - 1]);
        } else if second.len() < first.len() {
            assert(first.last() == units[first.len() - 1]);
        }
        assert(first =~= second);
    }
}

/// A directory is opened with backup semantics, and as itself unless a reparse
/// point is to be followed.
pub proof fn law_security_open_flags()
    ensures
        security_text::open_flags(true) == 0x200_0000,
        security_text::open_flags(false) == 0x220_0000,
{
    assert(0x200_0000u32 | 0x20_0000u32 == 0x220_0000u32) by (bit_vector);
}

} // verus!
