use std::time::Duration;
use vstd::prelude::*;

verus! {

/// `Duration::as_secs` hands back the whole seconds of a duration. Nothing
/// is claimed of their number.
pub assume_specification[ Duration::as_secs ](duration: &Duration) -> (secs: u64)
;

/// `Duration::subsec_millis` hands back what a duration holds beyond its
/// whole seconds, in whole milliseconds: less than a second.
pub assume_specification[ Duration::subsec_millis ](duration: &Duration) -> (millis: u32)
    ensures
        millis < 1000,
;

/// `String::push` appends one character to a string.
pub assume_specification[ String::push ](text: &mut String, ch: char)
    ensures
        final(text)@ == old(text)@.push(ch),
;

/// The character that stands for the digit `digit`.
pub open spec fn spec_digit(digit: int) -> char {
    if digit == 0 {
        '0'
    } else if digit == 1 {
        '1'
    } else if digit == 2 {
        '2'
    } else if digit == 3 {
        '3'
    } else if digit == 4 {
        '4'
    } else if digit == 5 {
        '5'
    } else if digit == 6 {
        '6'
    } else if digit == 7 {
        '7'
    } else if digit == 8 {
        '8'
    } else {
        '9'
    }
}

/// The digits of `number`, the first of them not zero unless the number
/// is.
pub open spec fn spec_digits(number: nat) -> Seq<char>
    decreases number,
{
    if number < 10 {
        seq![spec_digit(number as int)]
    } else {
        spec_digits(number / 10).push(spec_digit((number % 10) as int))
    }
}

/// The digits of `number`, with zeros before them where they are fewer
/// than `width`.
pub open spec fn spec_padded(number: nat, width: nat) -> Seq<char> {
    let digits = spec_digits(number);
    if digits.len() < width {
        Seq::new((width - digits.len()) as nat, |i: int| '0') + digits
    } else {
        digits
    }
}

/// A time of `secs` seconds and `millis` milliseconds as text: hours,
/// minutes and seconds in two digits each, or more where the hours need
/// them, and milliseconds in three.
pub open spec fn spec_timestamp(secs: u64, millis: u32) -> Seq<char> {
    spec_padded((secs / 3600) as nat, 2) + seq![':'] + spec_padded((secs / 60 % 60) as nat, 2)
        + seq![':'] + spec_padded((secs % 60) as nat, 2) + seq!['.'] + spec_padded(
        millis as nat,
        3,
    )
}

/// The character that stands for the digit `digit`.
fn digit_char(digit: u128) -> (ch: char)
    requires
        digit < 10,
    ensures
        ch == spec_digit(digit as int),
{
    if digit == 0 {
        '0'
    } else if digit == 1 {
        '1'
    } else if digit == 2 {
        '2'
    } else if digit == 3 {
        '3'
    } else if digit == 4 {
        '4'
    } else if digit == 5 {
        '5'
    } else if digit == 6 {
        '6'
    } else if digit == 7 {
        '7'
    } else if digit == 8 {
        '8'
    } else {
        '9'
    }
}

/// Appends the digits of `number` to `text`.
pub fn push_digits(text: &mut String, number: u128)
    ensures
        final(text)@ == old(text)@ + spec_digits(number as nat),
    decreases number,
{
    if number < 10 {
        text.push(digit_char(number));
        assert(text@ =~= old(text)@ + spec_digits(number as nat));
    } else {
        push_digits(text, number / 10);
        text.push(digit_char(number % 10));
        assert(text@ =~= old(text)@ + spec_digits(number as nat));
    }
}

/// A number of two digits or more has more than one digit, and one of
/// three digits or more has more than two.
proof fn lemma_digits_len(number: nat)
    ensures
        spec_digits(number).len() >= 1,
        number >= 10 ==> spec_digits(number).len() >= 2,
        number >= 100 ==> spec_digits(number).len() >= 3,
        number < 10 ==> spec_digits(number).len() == 1,
        10 <= number < 100 ==> spec_digits(number).len() == 2,
    decreases number,
{
    if number >= 10 {
        lemma_digits_len(number / 10);
    }
}

/// Appends the digits of `number` to `text`, after as many zeros as they
/// are fewer than `width`, which is two or three.
fn push_padded(text: &mut String, number: u64, width: usize)
    requires
        width == 2 || width == 3,
    ensures
        final(text)@ == old(text)@ + spec_padded(number as nat, width as nat),
{
    proof {
        lemma_digits_len(number as nat);
    }
    let ghost digits = spec_digits(number as nat);
    if width == 3 && number < 100 {
        text.push('0');
    }
    if number < 10 {
        text.push('0');
    }
    let ghost zeros = text@;
    push_digits(text, number as u128);
    proof {
        let padding = Seq::new((width - digits.len()) as nat, |i: int| '0');
        if digits.len() < width {
            assert(zeros =~= old(text)@ + padding);
            assert(text@ =~= old(text)@ + (padding + digits));
        } else {
            assert(zeros == old(text)@);
        }
    }
}

/// A time of `secs` seconds and `millis` milliseconds as text, such as
/// `01:02:03.004`.
pub fn format_timestamp(secs: u64, millis: u32) -> (text: String)
    ensures
        text@ == spec_timestamp(secs, millis),
{
    let mut text = String::new();
    push_padded(&mut text, secs / 3600, 2);
    text.push(':');
    push_padded(&mut text, secs / 60 % 60, 2);
    text.push(':');
    push_padded(&mut text, secs % 60, 2);
    text.push('.');
    push_padded(&mut text, millis as u64, 3);
    assert(text@ =~= spec_timestamp(secs, millis));
    text
}

/// The time `elapsed` as text: its whole seconds as hours, minutes and
/// seconds, and what is left of it in milliseconds.
pub fn timestamp_format(elapsed: Duration) -> (text: String)
    ensures
        exists|secs: u64, millis: u32| millis < 1000 && text@ == spec_timestamp(secs, millis),
{
    let secs = elapsed.as_secs();
    let millis = elapsed.subsec_millis();
    format_timestamp(secs, millis)
}

} // verus!
