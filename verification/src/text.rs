//! Small pieces of text handling that the error messages need.

use vstd::prelude::*;
use vstd::string::StrSliceExecFns;
use vstd::string::StringExecFns;

verus! {

/// The character of a single decimal digit.
pub open spec fn digit_char(digit: nat) -> char {
    (48 + digit) as char
}

/// `value` in decimal, without leading zeros.
pub open spec fn decimal_text(value: nat) -> Seq<char>
    decreases value,
{
    if value < 10 {
        seq![digit_char(value)]
    } else {
        decimal_text(value / 10).push(digit_char(value % 10))
    }
}

/// `needle` stands somewhere in `text`.
pub open spec fn mentions(text: Seq<char>, needle: Seq<char>) -> bool {
    exists|at: int|
        0 <= at <= text.len() - needle.len() && #[trigger] text.subrange(at, at + needle.len())
            =~= needle
}

fn digit_str(digit: u32) -> (text: &'static str)
    requires
        digit < 10,
    ensures
        text@ == seq![digit_char(digit as nat)],
{
    proof {
        reveal_strlit("0");
        reveal_strlit("1");
        reveal_strlit("2");
        reveal_strlit("3");
        reveal_strlit("4");
        reveal_strlit("5");
        reveal_strlit("6");
        reveal_strlit("7");
        reveal_strlit("8");
        reveal_strlit("9");
    }
    let text = match digit {
        0 => "0",
        1 => "1",
        2 => "2",
        3 => "3",
        4 => "4",
        5 => "5",
        6 => "6",
        7 => "7",
        8 => "8",
        _ => "9",
    };
    assert(text@ =~= seq![digit_char(digit as nat)]);
    text
}

/// Renders a number in decimal.
pub fn decimal(value: u32) -> (text: String)
    ensures
        text@ == decimal_text(value as nat),
    decreases value,
{
    if value < 10 {
        String::from_str(digit_str(value))
    } else {
        let mut text = decimal(value / 10);
        text.append(digit_str(value % 10));
        assert(text@ =~= decimal_text(value as nat));
        text
    }
}

/// Whether `needle` stands in `text` at position `at`.
fn stands_at(text: &str, needle: &str, at: usize) -> (found: bool)
    requires
        at + needle@.len() <= text@.len() <= usize::MAX,
    ensures
        found == (text@.subrange(at as int, at + needle@.len()) =~= needle@),
{
    let len: usize = needle.unicode_len();
    let mut offset: usize = 0;
    while offset < len
        invariant
            len == needle@.len(),
            offset <= len,
            at + len <= text@.len(),
            text@.len() <= usize::MAX,
            forall|i: int| 0 <= i < offset ==> text@[at + i] == needle@[i],
        decreases len - offset,
    {
        if text.get_char(at + offset) != needle.get_char(offset) {
            assert(text@.subrange(at as int, at + len)[offset as int] != needle@[offset as int]);
            return false;
        }
        offset += 1;
    }
    true
}

/// Whether `needle` stands somewhere in `text`.
pub fn contains_text(text: &str, needle: &str) -> (found: bool)
    ensures
        found == mentions(text@, needle@),
{
    let text_len: usize = text.unicode_len();
    let needle_len: usize = needle.unicode_len();
    if needle_len > text_len {
        return false;
    }
    let last: usize = text_len - needle_len;
    let mut at: usize = 0;
    while at <= last
        invariant
            text_len == text@.len(),
            needle_len == needle@.len(),
            last == text_len - needle_len,
            at <= last + 1,
            forall|i: int| 0 <= i < at ==> !(#[trigger] text@.subrange(i, i + needle@.len()) =~= needle@),
        decreases last + 1 - at,
    {
        if stands_at(text, needle, at) {
            return true;
        }
        if at == last {
            return false;
        }
        at += 1;
    }
    false
}

} // verus!
