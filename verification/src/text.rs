//! The boundary to the string functions of the standard library for which
//! the verifier's own library has no contract.
//!
//! The first half says in sequences of characters what the functions
//! compute. The second half holds the calls: each function marked
//! `external_body` makes one, and its contract, which is taken on trust,
//! states what the standard library's documentation says of that call.

use vstd::prelude::*;
use vstd::utf8::*;

verus! {

/// Whether `needle` stands in `haystack` from index `at` on.
pub open spec fn occurs_at(haystack: Seq<char>, needle: Seq<char>, at: int) -> bool {
    0 <= at && at + needle.len() <= haystack.len() && haystack.subrange(
        at,
        at + needle.len(),
    ) == needle
}

/// Whether `needle` stands somewhere in `haystack`.
pub open spec fn occurs_in(haystack: Seq<char>, needle: Seq<char>) -> bool {
    exists|at: int| occurs_at(haystack, needle, at)
}

/// The least index from which `pattern` stands in `text`, if it stands in
/// it at all.
pub open spec fn first_match(text: Seq<char>, pattern: Seq<char>) -> Option<nat>
    decreases text.len(),
{
    if pattern.len() == 0 {
        Some(0)
    } else if text.len() < pattern.len() {
        None
    } else if text.take(pattern.len() as int) == pattern {
        Some(0)
    } else {
        match first_match(text.skip(1), pattern) {
            Some(at) => Some(at + 1),
            None => None,
        }
    }
}

/// A match lies inside the text.
pub proof fn lemma_first_match_inside(text: Seq<char>, pattern: Seq<char>)
    requires
        first_match(text, pattern) is Some,
    ensures
        first_match(text, pattern)->0 + pattern.len() <= text.len(),
    decreases text.len(),
{
    if pattern.len() > 0 && text.len() >= pattern.len() && text.take(pattern.len() as int)
        != pattern {
        lemma_first_match_inside(text.skip(1), pattern);
    }
}

/// The first match is an occurrence, and the leftmost; where there is no
/// match there is no occurrence.
pub proof fn lemma_first_match_is_leftmost(text: Seq<char>, pattern: Seq<char>)
    requires
        pattern.len() > 0,
    ensures
        match first_match(text, pattern) {
            Some(at) => occurs_at(text, pattern, at as int) && forall|before: int|
                0 <= before < at ==> !occurs_at(text, pattern, before),
            None => !occurs_in(text, pattern),
        },
    decreases text.len(),
{
    let len = pattern.len() as int;
    if text.len() >= pattern.len() && text.take(len) != pattern {
        let rest = text.skip(1);
        lemma_first_match_is_leftmost(rest, pattern);
        assert forall|at: int| 1 <= at implies occurs_at(text, pattern, at) == occurs_at(
            rest,
            pattern,
            at - 1,
        ) by {
            if at + len <= text.len() {
                assert(text.subrange(at, at + len) =~= rest.subrange(at - 1, at - 1 + len));
            }
        }
        assert(!occurs_at(text, pattern, 0));
    }
}

/// `text` with every occurrence of `from` exchanged for `to`. Occurrences
/// are found from the left and do not overlap: the search goes on behind
/// each one found.
pub open spec fn replace_all(text: Seq<char>, from: Seq<char>, to: Seq<char>) -> Seq<char>
    recommends
        from.len() > 0,
    decreases text.len(),
    when from.len() > 0
    via replace_all_decreases
{
    match first_match(text, from) {
        None => text,
        Some(at) => text.take(at as int) + to + replace_all(
            text.skip((at + from.len()) as int),
            from,
            to,
        ),
    }
}

#[via_fn]
proof fn replace_all_decreases(text: Seq<char>, from: Seq<char>, to: Seq<char>) {
    if first_match(text, from) is Some {
        lemma_first_match_inside(text, from);
    }
}

/// A text in which `from` does not occur is left as it is.
pub proof fn lemma_replace_without_occurrence(text: Seq<char>, from: Seq<char>, to: Seq<char>)
    requires
        from.len() > 0,
        !occurs_in(text, from),
    ensures
        replace_all(text, from, to) == text,
{
    lemma_first_match_is_leftmost(text, from);
}

/// The pieces into which the occurrences of `separator` cut `text`, in
/// their order. Occurrences are found from the left and do not overlap. A
/// text without any is one piece, and a separator at either end has an
/// empty piece beside it.
pub open spec fn split_on(text: Seq<char>, separator: Seq<char>) -> Seq<Seq<char>>
    recommends
        separator.len() > 0,
    decreases text.len(),
    when separator.len() > 0
    via split_on_decreases
{
    match first_match(text, separator) {
        None => seq![text],
        Some(at) => seq![text.take(at as int)] + split_on(
            text.skip((at + separator.len()) as int),
            separator,
        ),
    }
}

#[via_fn]
proof fn split_on_decreases(text: Seq<char>, separator: Seq<char>) {
    if first_match(text, separator) is Some {
        lemma_first_match_inside(text, separator);
    }
}

/// The character for a digit's value.
pub open spec fn digit_char(value: nat) -> char
    recommends
        value < 10,
{
    (48 + value) as char
}

/// `n` in decimal, without sign or leading zeros.
pub open spec fn decimal_digits(n: nat) -> Seq<char>
    decreases n,
{
    if n < 10 {
        seq![digit_char(n)]
    } else {
        decimal_digits(n / 10).push(digit_char(n % 10))
    }
}

/// Whether the character is one of the ten digits.
pub open spec fn is_digit(c: char) -> bool {
    '0' <= c <= '9'
}

/// The number that a run of digits spells in decimal.
pub open spec fn digits_value(digits: Seq<char>) -> nat
    decreases digits.len(),
{
    if digits.len() == 0 {
        0
    } else {
        (10 * digits_value(digits.drop_last()) + (digits.last() as nat - 48)) as nat
    }
}

/// Whether `digits` is a run of one digit or more.
pub open spec fn is_digits(digits: Seq<char>) -> bool {
    digits.len() > 0 && forall|i: int| 0 <= i < digits.len() ==> is_digit(#[trigger] digits[i])
}

/// The number that a run of digits spells, where it fits in 32 bits.
pub open spec fn digits_to_u32(digits: Seq<char>) -> Option<u32> {
    if is_digits(digits) && digits_value(digits) <= u32::MAX {
        Some(digits_value(digits) as u32)
    } else {
        None
    }
}

/// The number that `s` spells: digits only, at least one, after at most one
/// `+`; and no more than fits in 32 bits.
pub open spec fn parse_decimal_u32(s: Seq<char>) -> Option<u32> {
    if s.len() > 0 && s[0] == '+' {
        digits_to_u32(s.skip(1))
    } else {
        digits_to_u32(s)
    }
}

#[verifier::external_type_specification]
#[verifier::external_body]
pub struct ExFromUtf8Error(std::string::FromUtf8Error);

#[verifier::external_type_specification]
#[verifier::external_body]
pub struct ExParseIntError(std::num::ParseIntError);

/// `String::from_utf8`: the string that the bytes encode, or an error when
/// they are not UTF-8.
#[verifier::external_body]
pub(crate) fn string_from_utf8(bytes: Vec<u8>) -> (r: Result<String, std::string::FromUtf8Error>)
    ensures
        match r {
            Ok(s) => valid_utf8(bytes@) && s@ == decode_utf8(bytes@),
            Err(_) => !valid_utf8(bytes@),
        },
{
    String::from_utf8(bytes)
}

/// `str::starts_with` with a string as the pattern: whether the text begins
/// with it.
#[verifier::external_body]
pub(crate) fn str_starts_with(text: &str, prefix: &str) -> (begins: bool)
    ensures
        begins == (prefix@.len() <= text@.len() && text@.take(prefix@.len() as int) == prefix@),
{
    text.starts_with(prefix)
}

/// `str::parse` to a `u32`: the number that the text spells in decimal, or
/// an error where it spells none that fits.
#[verifier::external_body]
pub(crate) fn str_parse_u32(text: &str) -> (r: Result<u32, std::num::ParseIntError>)
    ensures
        match r {
            Ok(n) => parse_decimal_u32(text@) == Some(n),
            Err(_) => parse_decimal_u32(text@) is None,
        },
{
    text.parse::<u32>()
}

/// `str::contains` with a string as the pattern: whether the pattern
/// occurs.
#[verifier::external_body]
pub(crate) fn str_contains(haystack: &str, needle: &str) -> (found: bool)
    ensures
        found == occurs_in(haystack@, needle@),
{
    haystack.contains(needle)
}

/// `str::replace` with a string as the pattern: a new string in which every
/// match of the pattern is exchanged. The matches of a pattern are disjoint
/// and found from the left. An empty pattern is left out here.
#[verifier::external_body]
pub(crate) fn str_replace(text: &str, from: &str, to: &str) -> (replaced: String)
    requires
        from@.len() > 0,
    ensures
        replaced@ == replace_all(text@, from@, to@),
{
    text.replace(from, to)
}

/// `str::split` with a string as the pattern: the substrings between the
/// matches of the pattern, each as a string of its own. An empty pattern is
/// left out here.
#[verifier::external_body]
pub(crate) fn str_split(text: &str, separator: &str) -> (pieces: Vec<String>)
    requires
        separator@.len() > 0,
    ensures
        pieces@.len() == split_on(text@, separator@).len(),
        forall|i: int|
            0 <= i < pieces@.len() ==> (#[trigger] pieces@[i])@ == split_on(text@, separator@)[i],
{
    text.split(separator).map(String::from).collect()
}

/// `ToString::to_string` of a `u32`: the number in decimal.
#[verifier::external_body]
pub(crate) fn u32_to_decimal(n: u32) -> (digits: String)
    ensures
        digits@ == decimal_digits(n as nat),
{
    n.to_string()
}

} // verus!
