use vstd::prelude::*;
use vstd::string::*;

verus! {

/// The ASCII digit for a value below ten.
pub open spec fn digit_char(d: nat) -> char {
    (48 + d) as char
}

/// Decimal notation of a natural number, most significant digit first.
pub open spec fn nat_decimal(n: nat) -> Seq<char>
    decreases n,
{
    if n < 10 {
        seq![digit_char(n)]
    } else {
        nat_decimal(n / 10).push(digit_char(n % 10))
    }
}

/// Decimal notation of an integer, with a leading minus sign when negative.
pub open spec fn int_decimal(i: int) -> Seq<char> {
    if i < 0 {
        seq!['-'] + nat_decimal((-i) as nat)
    } else {
        nat_decimal(i as nat)
    }
}

/// Whether a character has the Unicode `White_Space` property: tab, line feed, line
/// tabulation, form feed, carriage return, space, next line, no-break space, ogham space mark,
/// the spaces from en quad to hair space, line separator, paragraph separator, narrow no-break
/// space, medium mathematical space and ideographic space.
pub open spec fn white_space(c: char) -> bool {
    let u = c as u32;
    ||| 0x09 <= u <= 0x0d
    ||| u == 0x20
    ||| u == 0x85
    ||| u == 0xa0
    ||| u == 0x1680
    ||| 0x2000 <= u <= 0x200a
    ||| u == 0x2028
    ||| u == 0x2029
    ||| u == 0x202f
    ||| u == 0x205f
    ||| u == 0x3000
}

/// Whether a character is whitespace (what `char::is_whitespace` answers).
pub(crate) fn char_is_whitespace(c: char) -> (r: bool)
    ensures
        r == white_space(c),
{
    let u = c as u32;
    (0x09 <= u && u <= 0x0d) || u == 0x20 || u == 0x85 || u == 0xa0 || u == 0x1680
        || (0x2000 <= u && u <= 0x200a) || u == 0x2028 || u == 0x2029 || u == 0x202f
        || u == 0x205f || u == 0x3000
}

/// Text with the whitespace at its end removed (what `str::trim_end` leaves).
pub open spec fn trim_end(text: Seq<char>) -> Seq<char>
    decreases text.len(),
{
    if text.len() > 0 && white_space(text.last()) {
        trim_end(text.drop_last())
    } else {
        text
    }
}

/// Whether the text is whitespace only (what `str::trim` leaves empty).
pub open spec fn all_white_space(text: Seq<char>) -> bool {
    forall|i: int| 0 <= i < text.len() ==> white_space(#[trigger] text[i])
}

/// The length of the text once the whitespace at its end is removed.
pub fn trimmed_end_len(text: &Vec<char>) -> (n: usize)
    ensures
        n <= text@.len(),
        text@.take(n as int) == trim_end(text@),
{
    let mut n = text.len();
    assert(text@.take(n as int) =~= text@);
    while n > 0 && char_is_whitespace(text[n - 1])
        invariant
            n <= text@.len(),
            trim_end(text@.take(n as int)) == trim_end(text@),
        decreases n,
    {
        assert(text@.take(n as int).drop_last() =~= text@.take(n - 1));
        n -= 1;
    }
    assert(trim_end(text@.take(n as int)) == text@.take(n as int));
    n
}

/// Appends one character to a string (`String::push`).
#[verifier::external_body]
pub(crate) fn string_push(s: &mut String, c: char)
    ensures
        final(s)@ == old(s)@.push(c),
{
    s.push(c);
}

fn push_digit(s: &mut String, d: usize)
    requires
        d < 10,
    ensures
        final(s)@ == old(s)@.push(digit_char(d as nat)),
{
    let byte: u8 = 48u8 + d as u8;
    let c: char = byte as char;
    assert(c == digit_char(d as nat));
    string_push(s, c);
}

/// Appends the decimal notation of `n`.
pub fn push_decimal_usize(s: &mut String, n: usize)
    ensures
        final(s)@ == old(s)@ + nat_decimal(n as nat),
    decreases n,
{
    if n < 10 {
        push_digit(s, n);
        assert(old(s)@ + nat_decimal(n as nat) =~= old(s)@.push(digit_char(n as nat)));
    } else {
        push_decimal_usize(s, n / 10);
        push_digit(s, n % 10);
        assert(old(s)@ + nat_decimal(n as nat) =~= (old(s)@ + nat_decimal((n / 10) as nat)).push(
            digit_char((n % 10) as nat),
        ));
    }
}

/// Appends the decimal notation of `i`, with a minus sign when it is negative.
pub fn push_decimal_isize(s: &mut String, i: isize)
    ensures
        final(s)@ == old(s)@ + int_decimal(i as int),
{
    if i < 0 {
        string_push(s, '-');
        let magnitude: usize = ((-(i + 1)) as usize) + 1;
        assert(magnitude == -i);
        push_decimal_usize(s, magnitude);
        assert(old(s)@ + int_decimal(i as int) =~= old(s)@.push('-') + nat_decimal(
            magnitude as nat,
        ));
    } else {
        push_decimal_usize(s, i as usize);
    }
}

} // verus!
