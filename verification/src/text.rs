//! Passing between strings and sequences of characters.

use vstd::prelude::*;
use vstd::string::StringExecFns;

verus! {

/// `String::push` of the standard library, which appends one character to
/// the end of the string.
pub assume_specification[ String::push ](text: &mut String, ch: char)
    ensures
        final(text)@ == old(text)@.push(ch),
;

/// The characters of `text`, in order.
pub fn chars_of(text: &str) -> (chars: Vec<char>)
    ensures
        chars@ == text@,
{
    let mut chars: Vec<char> = Vec::new();
    let count = text.unicode_len();
    let mut i: usize = 0;
    while i < count
        invariant
            count == text@.len(),
            i <= count,
            chars@ == text@.subrange(0, i as int),
        decreases count - i,
    {
        chars.push(text.get_char(i));
        i += 1;
        assert(text@.subrange(0, i as int) == text@.subrange(0, i - 1).push(text@[i - 1]));
    }
    assert(text@.subrange(0, i as int) == text@);
    chars
}

/// The string made of the characters of `chars` from `start` up to `end`.
pub fn string_of(chars: &Vec<char>, start: usize, end: usize) -> (text: String)
    requires
        start <= end <= chars.len(),
    ensures
        text@ == chars@.subrange(start as int, end as int),
{
    let mut text = String::new();
    let mut i: usize = start;
    while i < end
        invariant
            start <= i <= end <= chars.len(),
            text@ == chars@.subrange(start as int, i as int),
        decreases end - i,
    {
        text.push(chars[i]);
        i += 1;
        assert(chars@.subrange(start as int, i as int) == chars@.subrange(
            start as int,
            i - 1,
        ).push(chars@[i - 1]));
    }
    text
}

/// The character that writes the digit `digit`, which is less than ten.
pub open spec fn digit_char(digit: nat) -> char {
    (48 + digit) as char
}

/// `value` as written in base ten, with no leading zero.
pub open spec fn decimal_text(value: nat) -> Seq<char>
    decreases value,
{
    if value < 10 {
        seq![digit_char(value)]
    } else {
        decimal_text(value / 10).push(digit_char(value % 10))
    }
}

/// Appends `value`, written in base ten, to `text`.
pub fn push_decimal(text: &mut String, value: u128)
    ensures
        final(text)@ == old(text)@ + decimal_text(value as nat),
    decreases value,
{
    if value >= 10 {
        push_decimal(text, value / 10);
    }
    let digit = (value % 10) as u8;
    text.push((48u8 + digit) as char);
    proof {
        let last = digit_char((value % 10) as nat);
        if value >= 10 {
            assert(old(text)@ + decimal_text(value as nat) =~= (old(text)@ + decimal_text(
                (value / 10) as nat,
            )).push(last));
        } else {
            assert(old(text)@ + decimal_text(value as nat) =~= old(text)@.push(last));
        }
    }
}

/// Appends the characters of `more` to `text`.
pub fn push_text(text: &mut String, more: &str)
    ensures
        final(text)@ == old(text)@ + more@,
{
    text.append(more);
}

} // verus!
