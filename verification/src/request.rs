//! What arrives from a viewer: the text of a request, read before anything
//! reaches the repository.

use vstd::prelude::*;
use vstd::utf8::encode_utf8;
use crate::repository::Post;

verus! {

/// The largest number that a request can name.
pub const INDEX_MAX: usize = 0x7fff_ffff;

/// `byte` is the character of a decimal digit.
pub open spec fn is_digit_byte(byte: u8) -> bool {
    0x30 <= byte <= 0x39
}

/// Every byte of `bytes` is the character of a decimal digit.
pub open spec fn all_digit_bytes(bytes: Seq<u8>) -> bool {
    forall|i: int| 0 <= i < bytes.len() ==> is_digit_byte(#[trigger] bytes[i])
}

/// The number that the digits `digits` write in decimal.
pub open spec fn digits_value(digits: Seq<u8>) -> nat
    decreases digits.len(),
{
    if digits.len() == 0 {
        0
    } else {
        (10 * digits_value(digits.drop_last()) + (digits.last() - 0x30)) as nat
    }
}

/// `bytes` without its sign, if it begins with a plus or a minus.
pub open spec fn unsigned_part(bytes: Seq<u8>) -> Seq<u8> {
    if bytes.len() > 0 && (bytes[0] == 0x2b || bytes[0] == 0x2d) {
        bytes.drop_first()
    } else {
        bytes
    }
}

/// The number that a request names: the text is an optional sign and one
/// decimal digit or more, and the number is none below zero and none above
/// `INDEX_MAX`. Any other text names no number.
pub open spec fn index_of(bytes: Seq<u8>) -> Option<nat> {
    let digits = unsigned_part(bytes);
    let value = digits_value(digits);
    if digits.len() == 0 || !all_digit_bytes(digits) {
        None
    } else if value > INDEX_MAX {
        None
    } else if bytes[0] == 0x2d && value > 0 {
        None
    } else {
        Some(value)
    }
}

/// More digits do not make a number smaller.
proof fn lemma_digits_value_grows(digits: Seq<u8>, shorter: int)
    requires
        0 <= shorter <= digits.len(),
        all_digit_bytes(digits),
    ensures
        digits_value(digits.take(shorter)) <= digits_value(digits),
    decreases digits.len(),
{
    if shorter < digits.len() {
        assert(digits.drop_last().take(shorter) =~= digits.take(shorter));
        lemma_digits_value_grows(digits.drop_last(), shorter);
    } else {
        assert(digits.take(shorter) =~= digits);
    }
}

/// Reads the number that the text of a request names.
pub fn parse_index(text: &str) -> (index: Option<usize>)
    ensures
        index is Some <==> index_of(encode_utf8(text@)) is Some,
        index matches Some(n) ==> index_of(encode_utf8(text@)) == Some(n as nat),
{
    let bytes = text.as_bytes();
    let total = bytes.len();
    let start: usize = if total > 0 && (bytes[0] == 0x2b || bytes[0] == 0x2d) {
        1
    } else {
        0
    };
    if start == total {
        return None;
    }
    let ghost digits = unsigned_part(bytes@);
    assert(digits =~= bytes@.skip(start as int));
    let mut value: usize = 0;
    let mut i: usize = start;
    while i < total
        invariant
            start <= i <= total,
            total == bytes@.len(),
            bytes@ == encode_utf8(text@),
            digits == unsigned_part(bytes@),
            digits == bytes@.skip(start as int),
            all_digit_bytes(digits.take(i - start)),
            value == digits_value(digits.take(i - start)),
            value <= INDEX_MAX,
        decreases total - i,
    {
        let byte = bytes[i];
        proof {
            assert(digits[i - start] == byte);
            assert(digits.take(i - start + 1).drop_last() =~= digits.take(i - start));
            assert(digits.take(i - start + 1).last() == byte);
        }
        if byte < 0x30 || byte > 0x39 {
            assert(!all_digit_bytes(digits));
            return None;
        }
        let digit = (byte - 0x30) as usize;
        if value > (INDEX_MAX - digit) / 10 {
            proof {
                assert(digits_value(digits.take(i - start + 1)) > INDEX_MAX);
                if all_digit_bytes(digits) {
                    lemma_digits_value_grows(digits, i - start + 1);
                }
            }
            return None;
        }
        value = 10 * value + digit;
        i = i + 1;
        assert(all_digit_bytes(digits.take(i - start))) by {
            assert forall|j: int| 0 <= j < i - start implies is_digit_byte(
                #[trigger] digits.take(i - start)[j],
            ) by {
                if j < i - start - 1 {
                    assert(digits.take(i - start - 1)[j] == digits[j]);
                }
            }
        }
    }
    proof {
        assert(digits.take(total - start) =~= digits);
    }
    if bytes[0] == 0x2d && value > 0 {
        None
    } else {
        Some(value)
    }
}

/// The post that a request's number picks among `available`: the posts are
/// counted from 0 in their order, and a number past the last picks none.
pub fn select_post(available: &Vec<Post>, index: usize) -> (picked: Option<&Post>)
    ensures
        index < available@.len() ==> picked == Some(&available@[index as int]),
        index >= available@.len() ==> picked is None,
{
    if index < available.len() {
        Some(&available[index])
    } else {
        None
    }
}

} // verus!
