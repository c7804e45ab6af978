//! Plain text: fields between separators, and decimal integers.
//!
//! Play records are lines of fields. The functions here work on sequences of
//! characters and say exactly which fields a line has and which integer a
//! field denotes.

use vstd::prelude::*;
use vstd::string::*;
use crate::taxonomy::is_decimal_digit;

verus! {

/// The fields of `text` between occurrences of `separator`, read left to
/// right: a separator closes the current field and opens an empty one, any
/// other character joins the current field. There is always at least one
/// field, and `k` separators make `k + 1` fields.
pub open spec fn fields_of(text: Seq<char>, separator: char) -> Seq<Seq<char>>
    decreases text.len(),
{
    if text.len() == 0 {
        seq![Seq::<char>::empty()]
    } else {
        let before = fields_of(text.drop_last(), separator);
        if text.last() == separator {
            before.push(Seq::<char>::empty())
        } else {
            before.drop_last().push(before.last().push(text.last()))
        }
    }
}

/// The fields of a vector of character vectors, each by its view.
pub open spec fn field_views(fields: Seq<Vec<char>>) -> Seq<Seq<char>> {
    Seq::new(fields.len(), |i: int| fields[i]@)
}

/// A vector of fields whose views are `expected` has as many fields, and
/// each field is the one expected at its place.
pub proof fn lemma_field_views(fields: Seq<Vec<char>>, expected: Seq<Seq<char>>)
    requires
        field_views(fields) == expected,
    ensures
        fields.len() == expected.len(),
        forall|i: int| 0 <= i < fields.len() ==> (#[trigger] fields[i])@ == expected[i],
{
    assert(forall|i: int| 0 <= i < fields.len() ==> field_views(fields)[i] == (#[trigger] fields[i])@);
}

/// The value of a decimal digit.
pub open spec fn digit_value(c: char) -> int {
    c as int - '0' as int
}

/// The number that a run of decimal digits denotes, most significant digit
/// first. The empty run denotes zero.
pub open spec fn decimal_value(digits: Seq<char>) -> int
    decreases digits.len(),
{
    if digits.len() == 0 {
        0
    } else {
        decimal_value(digits.drop_last()) * 10 + digit_value(digits.last())
    }
}

/// Whether every character of `text` is a decimal digit.
pub open spec fn all_digits(text: Seq<char>) -> bool {
    forall|i: int| 0 <= i < text.len() ==> is_decimal_digit(#[trigger] text[i])
}

/// Whether `text` starts with a sign.
pub open spec fn has_sign(text: Seq<char>) -> bool {
    text.len() > 0 && (text[0] == '-' || text[0] == '+')
}

/// The digits of `text`: all of it but a leading sign.
pub open spec fn digits_of(text: Seq<char>) -> Seq<char> {
    if has_sign(text) {
        text.skip(1)
    } else {
        text
    }
}

/// The integer that `text` denotes: an optional sign, then one or more decimal
/// digits and nothing else. `None` for any other text.
pub open spec fn signed_decimal(text: Seq<char>) -> Option<int> {
    let digits = digits_of(text);
    if digits.len() == 0 || !all_digits(digits) {
        None
    } else if text[0] == '-' {
        Some(-decimal_value(digits))
    } else {
        Some(decimal_value(digits))
    }
}

/// The 32-bit integer that `text` denotes, if it denotes an integer that fits.
pub open spec fn decimal_i32(text: Seq<char>) -> Option<i32> {
    match signed_decimal(text) {
        Some(value) => if i32::MIN <= value <= i32::MAX {
            Some(value as i32)
        } else {
            None
        },
        None => None,
    }
}

/// A run of digits denotes a number that is not negative.
pub proof fn lemma_decimal_value_nonnegative(digits: Seq<char>)
    requires
        all_digits(digits),
    ensures
        decimal_value(digits) >= 0,
    decreases digits.len(),
{
    if digits.len() > 0 {
        lemma_decimal_value_nonnegative(digits.drop_last());
    }
}

/// The characters of a string slice, one by one.
pub fn chars_of(text: &str) -> (chars: Vec<char>)
    ensures
        chars@ == text@,
{
    let mut chars: Vec<char> = Vec::new();
    for c in it: text.chars()
        invariant
            it.seq() == text@,
            chars@ == it.seq().take(it.index() as int),
    {
        chars.push(c);
    }
    proof {
        assert(text@.take(text@.len() as int) == text@);
    }
    chars
}

/// Splits `text` at every occurrence of `separator`. No field holds the
/// separator, and the fields joined by it are the text again.
pub fn split_fields(text: &Vec<char>, separator: char) -> (fields: Vec<Vec<char>>)
    ensures
        field_views(fields@) == fields_of(text@, separator),
        fields@.len() >= 1,
        joined(field_views(fields@), separator) == text@,
        forall|k: int, i: int|
            0 <= k < fields@.len() && 0 <= i < fields@[k]@.len() ==> #[trigger] fields@[k]@[i]
                != separator,
{
    let mut fields: Vec<Vec<char>> = Vec::new();
    let mut current: Vec<char> = Vec::new();
    let mut i: usize = 0;
    while i < text.len()
        invariant
            i <= text.len(),
            field_views(fields@).push(current@) == fields_of(text@.take(i as int), separator),
        decreases text.len() - i,
    {
        let c = text[i];
        proof {
            assert(text@.take(i as int + 1).drop_last() == text@.take(i as int));
            assert(text@.take(i as int + 1).last() == c);
            assert(field_views(fields@).push(current@).drop_last() == field_views(fields@));
        }
        if c == separator {
            let ghost closed = field_views(fields@).push(current@);
            fields.push(current);
            current = Vec::new();
            proof {
                assert(field_views(fields@) == closed);
            }
        } else {
            current.push(c);
        }
        i += 1;
    }
    proof {
        assert(text@.take(i as int) == text@);
    }
    let ghost all = field_views(fields@).push(current@);
    fields.push(current);
    proof {
        assert(field_views(fields@) == all);
        lemma_fields_join_back(text@, separator);
        lemma_field_views(fields@, fields_of(text@, separator));
    }
    fields
}

/// Reads `text` as a 32-bit integer in decimal notation: an optional `+` or
/// `-`, then digits only. Text that is empty, holds anything else, or denotes
/// a number outside the 32-bit range is refused.
pub fn parse_i32(text: &Vec<char>) -> (value: Option<i32>)
    ensures
        value == decimal_i32(text@),
{
    let n = text.len();
    if n == 0 {
        return None;
    }
    let negative = text[0] == '-';
    let start: usize = if text[0] == '-' || text[0] == '+' {
        1
    } else {
        0
    };
    if start == n {
        return None;
    }
    let ghost digits = digits_of(text@);
    // One more than the largest magnitude a 32-bit integer can have.
    let cap: i64 = 2147483649;
    let mut magnitude: i64 = 0;
    let mut i: usize = start;
    while i < n
        invariant
            start <= i <= n,
            n == text@.len(),
            digits == text@.skip(start as int),
            digits == digits_of(text@),
            cap == 2147483649,
            all_digits(digits.take(i - start)),
            0 <= magnitude <= cap,
            magnitude == if decimal_value(digits.take(i - start)) < cap {
                decimal_value(digits.take(i - start))
            } else {
                cap as int
            },
        decreases n - i,
    {
        let c = text[i];
        proof {
            assert(digits[i - start] == c);
            assert(digits.take(i - start + 1).drop_last() == digits.take(i - start));
            assert(digits.take(i - start + 1).last() == c);
            lemma_decimal_value_nonnegative(digits.take(i - start));
        }
        if c < '0' || c > '9' {
            proof {
                assert(!is_decimal_digit(digits[i - start]));
            }
            return None;
        }
        let digit: i64 = (c as u32 - '0' as u32) as i64;
        let next: i64 = magnitude * 10 + digit;
        magnitude = if next < cap {
            next
        } else {
            cap
        };
        i += 1;
    }
    proof {
        assert(digits.take(n - start) == digits);
    }
    if negative {
        if magnitude <= 2147483648 {
            Some((-magnitude) as i32)
        } else {
            None
        }
    } else {
        if magnitude <= 2147483647 {
            Some(magnitude as i32)
        } else {
            None
        }
    }
}

/// The fields put together again with `separator` between them.
pub open spec fn joined(fields: Seq<Seq<char>>, separator: char) -> Seq<char>
    decreases fields.len(),
{
    if fields.len() == 0 {
        Seq::<char>::empty()
    } else if fields.len() == 1 {
        fields[0]
    } else {
        joined(fields.drop_last(), separator).push(separator) + fields.last()
    }
}

/// `text` without its last character, if it has one.
pub open spec fn without_last(text: Seq<char>) -> Seq<char> {
    if text.len() > 0 {
        text.drop_last()
    } else {
        text
    }
}

/// Splitting loses nothing: there is at least one field, no field holds the
/// separator, and the fields joined by the separator are the text again.
pub proof fn lemma_fields_join_back(text: Seq<char>, separator: char)
    ensures
        fields_of(text, separator).len() >= 1,
        joined(fields_of(text, separator), separator) == text,
        forall|k: int, i: int|
            0 <= k < fields_of(text, separator).len() && 0 <= i < fields_of(
                text,
                separator,
            )[k].len() ==> #[trigger] fields_of(text, separator)[k][i] != separator,
    decreases text.len(),
{
    if text.len() > 0 {
        let before = fields_of(text.drop_last(), separator);
        let fields = fields_of(text, separator);
        lemma_fields_join_back(text.drop_last(), separator);
        if text.last() == separator {
            assert(fields.drop_last() == before);
            assert(joined(fields, separator) == text.drop_last().push(separator)
                + Seq::<char>::empty());
            assert(text.drop_last().push(separator) + Seq::<char>::empty() == text);
        } else {
            let grown = before.last().push(text.last());
            assert(fields.last() == grown);
            if before.len() == 1 {
                assert(before[0] == text.drop_last());
                assert(fields[0] == grown);
                assert(grown == text);
            } else {
                assert(fields.drop_last() == before.drop_last());
                let head = joined(before.drop_last(), separator).push(separator);
                assert(joined(before, separator) == head + before.last());
                assert(joined(fields, separator) == head + grown);
                assert(head + grown == (head + before.last()).push(text.last()));
                assert(text.drop_last().push(text.last()) == text);
            }
            assert forall|k: int, i: int|
                0 <= k < fields.len() && 0 <= i < fields[k].len() implies #[trigger] fields[k][i]
                != separator by {
                if k < fields.len() - 1 {
                    assert(fields[k] == before[k]);
                } else if i < before.last().len() {
                    assert(fields[k][i] == before.last()[i]);
                }
            }
        }
    }
}

/// `String::push` of the standard library: the string afterwards holds what
/// it held, and the character appended behind it.
pub assume_specification[ String::push ](text: &mut String, c: char)
    ensures
        final(text)@ == old(text)@.push(c),
;

/// The string that holds `chars`.
pub fn string_of(chars: &Vec<char>) -> (text: String)
    ensures
        text@ == chars@,
{
    let mut text = String::new();
    let mut i: usize = 0;
    while i < chars.len()
        invariant
            i <= chars.len(),
            text@ == chars@.take(i as int),
        decreases chars.len() - i,
    {
        text.push(chars[i]);
        proof {
            assert(chars@.take(i as int).push(chars@[i as int]) == chars@.take(i as int + 1));
        }
        i += 1;
    }
    proof {
        assert(chars@.take(i as int) == chars@);
    }
    text
}

/// Whether two vectors hold the same characters.
pub fn same_chars(left: &Vec<char>, right: &Vec<char>) -> (same: bool)
    ensures
        same == (left@ == right@),
{
    if left.len() != right.len() {
        return false;
    }
    let mut i: usize = 0;
    while i < left.len()
        invariant
            i <= left.len() == right.len(),
            left@.take(i as int) == right@.take(i as int),
        decreases left.len() - i,
    {
        if left[i] != right[i] {
            return false;
        }
        proof {
            assert(left@.take(i as int + 1) == left@.take(i as int).push(left@[i as int]));
            assert(right@.take(i as int + 1) == right@.take(i as int).push(right@[i as int]));
        }
        i += 1;
    }
    proof {
        assert(left@.take(i as int) == left@);
        assert(right@.take(i as int) == right@);
    }
    true
}

/// A copy of `text` without its last character, if it has one.
pub fn drop_last_char(text: &Vec<char>) -> (shorter: Vec<char>)
    ensures
        shorter@ == without_last(text@),
{
    let mut shorter: Vec<char> = Vec::new();
    if text.len() == 0 {
        return shorter;
    }
    let mut i: usize = 0;
    while i < text.len() - 1
        invariant
            i <= text.len() - 1,
            shorter@ == text@.take(i as int),
        decreases text.len() - i,
    {
        shorter.push(text[i]);
        proof {
            assert(text@.take(i as int).push(text@[i as int]) == text@.take(i as int + 1));
        }
        i += 1;
    }
    proof {
        assert(text@.take(text@.len() - 1) == text@.drop_last());
    }
    shorter
}

} // verus!
