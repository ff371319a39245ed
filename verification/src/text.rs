//! Text primitives shared by the rest of the crate.
//!
//! Strings are modelled by their view, a `Seq<char>`. Executable code walks a
//! string once into a `Vec<char>`, works on positions, and cuts the answer back
//! out of the original string.

use vstd::prelude::*;
use vstd::std_specs::iter::IteratorSpec;

verus! {

/// `String::push` appends one character.
pub assume_specification[ std::string::String::push ](
    text: &mut std::string::String,
    character: char,
)
    ensures
        final(text)@ == old(text)@.push(character),
;

/// Whether a character carries the Unicode `White_Space` property.
pub uninterp spec fn is_white_space(character: char) -> bool;

/// `char::is_whitespace` decides the Unicode `White_Space` property. Of the
/// ASCII characters, the space and the five from the tab to the carriage
/// return carry it, and no other.
pub assume_specification[ char::is_whitespace ](character: char) -> (result: bool)
    ensures
        result == is_white_space(character),
        character <= '\u{7f}' ==> result == (character == ' ' || '\t' <= character <= '\r'),
;

/// The characters of `string`, in order.
pub fn to_chars(string: &str) -> (chars: Vec<char>)
    ensures
        chars@ == string@,
{
    broadcast use vstd::string::group_string_axioms;

    let mut iterator = string.chars();
    let mut chars: Vec<char> = Vec::new();
    loop
        invariant
            chars@ + iterator.remaining() == string@,
            iterator.obeys_prophetic_iter_laws(),
            iterator.decrease() is Some,
        decreases iterator.decrease()->0,
    {
        match iterator.next() {
            Some(character) => {
                chars.push(character);
            },
            None => {
                assert(chars@ =~= string@);
                return chars;
            },
        }
    }
}

/// The string made of `chars`.
pub fn from_chars(chars: &Vec<char>) -> (string: String)
    ensures
        string@ == chars@,
{
    let string = substring(chars, 0, chars.len());
    assert(chars@.subrange(0, chars@.len() as int) =~= chars@);
    string
}

/// The string made of `chars[from..to]`.
pub(crate) fn substring(chars: &Vec<char>, from: usize, to: usize) -> (string: String)
    requires
        from <= to <= chars.len(),
    ensures
        string@ == chars@.subrange(from as int, to as int),
{
    let mut string = String::new();
    let mut index: usize = from;
    while index < to
        invariant
            from <= index <= to <= chars.len(),
            string@ =~= chars@.subrange(from as int, index as int),
        decreases to - index,
    {
        string.push(chars[index]);
        index += 1;
    }
    string
}

// SEARCHING

/// Whether `needle` stands in `haystack` at position `at`.
pub open spec fn occurs_at(haystack: Seq<char>, needle: Seq<char>, at: int) -> bool {
    &&& 0 <= at
    &&& at + needle.len() <= haystack.len()
    &&& forall|offset: int|
        0 <= offset < needle.len() ==> #[trigger] haystack[at + offset] == needle[offset]
}

/// The first position at or after `from` where `needle` stands in `haystack`.
pub open spec fn first_occurrence_from(haystack: Seq<char>, needle: Seq<char>, from: int) -> Option<
    int,
>
    decreases haystack.len() - from,
{
    if from < 0 || from + needle.len() > haystack.len() {
        None
    } else if occurs_at(haystack, needle, from) {
        Some(from)
    } else {
        first_occurrence_from(haystack, needle, from + 1)
    }
}

/// The first position where `needle` stands in `haystack`.
pub open spec fn first_occurrence(haystack: Seq<char>, needle: Seq<char>) -> Option<int> {
    first_occurrence_from(haystack, needle, 0)
}

/// The first occurrence is an occurrence, and no occurrence comes before it;
/// where there is none, the needle stands nowhere.
pub proof fn lemma_first_occurrence(haystack: Seq<char>, needle: Seq<char>, from: int)
    requires
        0 <= from,
    ensures
        match first_occurrence_from(haystack, needle, from) {
            Some(at) => {
                &&& from <= at
                &&& occurs_at(haystack, needle, at)
                &&& forall|earlier: int|
                    from <= earlier < at ==> !occurs_at(haystack, needle, earlier)
            },
            None => forall|at: int| from <= at ==> !occurs_at(haystack, needle, at),
        },
    decreases haystack.len() - from,
{
    if from + needle.len() > haystack.len() {
    } else if occurs_at(haystack, needle, from) {
    } else {
        lemma_first_occurrence(haystack, needle, from + 1);
    }
}

/// Whether `needle` stands in `haystack` at position `at`.
fn matches_at(haystack: &Vec<char>, needle: &Vec<char>, at: usize) -> (result: bool)
    requires
        at + needle.len() <= haystack.len(),
    ensures
        result == occurs_at(haystack@, needle@, at as int),
{
    let mut offset: usize = 0;
    while offset < needle.len()
        invariant
            at + needle.len() <= haystack.len(),
            offset <= needle.len(),
            forall|earlier: int|
                0 <= earlier < offset ==> #[trigger] haystack@[at + earlier] == needle@[earlier],
        decreases needle.len() - offset,
    {
        if haystack[at + offset] != needle[offset] {
            return false;
        }
        offset += 1;
    }
    true
}

/// Finds the first position where `needle` stands in `haystack`.
pub fn find(haystack: &Vec<char>, needle: &Vec<char>) -> (result: Option<usize>)
    ensures
        match result {
            Some(at) => first_occurrence(haystack@, needle@) == Some(at as int),
            None => first_occurrence(haystack@, needle@) is None,
        },
{
    if needle.len() > haystack.len() {
        return None;
    }
    let last: usize = haystack.len() - needle.len();
    let mut at: usize = 0;
    while at <= last
        invariant
            last == haystack.len() - needle.len(),
            at <= last + 1,
            first_occurrence(haystack@, needle@) == first_occurrence_from(
                haystack@,
                needle@,
                at as int,
            ),
        decreases last + 1 - at,
    {
        if matches_at(haystack, needle, at) {
            return Some(at);
        }
        at += 1;
    }
    None
}

// TRIMMING

/// How many white-space characters `text` starts with.
pub open spec fn leading_white_space(text: Seq<char>) -> nat
    decreases text.len(),
{
    if text.len() > 0 && is_white_space(text[0]) {
        1 + leading_white_space(text.drop_first())
    } else {
        0
    }
}

/// How many white-space characters `text` ends with.
pub open spec fn trailing_white_space(text: Seq<char>) -> nat
    decreases text.len(),
{
    if text.len() > 0 && is_white_space(text.last()) {
        1 + trailing_white_space(text.drop_last())
    } else {
        0
    }
}

/// `text` without the white space it starts with.
pub open spec fn trimmed_start(text: Seq<char>) -> Seq<char> {
    text.skip(leading_white_space(text) as int)
}

/// `text` without the white space it ends with.
pub open spec fn trimmed_end(text: Seq<char>) -> Seq<char> {
    text.take(text.len() - trailing_white_space(text))
}

/// `text` without the white space at either end.
pub open spec fn trimmed(text: Seq<char>) -> Seq<char> {
    trimmed_end(trimmed_start(text))
}

/// A run of white space from the start that stops at another character, or at
/// the end, is the leading white space.
pub proof fn lemma_leading_white_space_is(text: Seq<char>, count: int)
    requires
        0 <= count <= text.len(),
        forall|index: int| 0 <= index < count ==> is_white_space(#[trigger] text[index]),
        count < text.len() ==> !is_white_space(text[count]),
    ensures
        leading_white_space(text) == count,
    decreases text.len(),
{
    if count > 0 {
        let rest = text.drop_first();
        assert(is_white_space(text[0]));
        assert forall|index: int| 0 <= index < count - 1 implies is_white_space(
            #[trigger] rest[index],
        ) by {
            assert(rest[index] == text[index + 1]);
        }
        lemma_leading_white_space_is(rest, count - 1);
    }
}

/// A run of white space up to the end that starts after another character,
/// or at the start, is the trailing white space.
pub proof fn lemma_trailing_white_space_is(text: Seq<char>, count: int)
    requires
        0 <= count <= text.len(),
        forall|index: int|
            text.len() - count <= index < text.len() ==> is_white_space(#[trigger] text[index]),
        count < text.len() ==> !is_white_space(text[text.len() - count - 1]),
    ensures
        trailing_white_space(text) == count,
    decreases text.len(),
{
    if count > 0 {
        let rest = text.drop_last();
        assert(is_white_space(text[text.len() - 1]));
        assert forall|index: int| rest.len() - (count - 1) <= index < rest.len() implies is_white_space(
            #[trigger] rest[index],
        ) by {
            assert(rest[index] == text[index]);
        }
        lemma_trailing_white_space_is(rest, count - 1);
    }
}

/// The position of the first character of `chars[from..to]` that is not
/// white space, or `to`.
pub(crate) fn skip_white_space(chars: &Vec<char>, from: usize, to: usize) -> (result: usize)
    requires
        from <= to <= chars.len(),
    ensures
        result == from + leading_white_space(chars@.subrange(from as int, to as int)),
        from <= result <= to,
{
    let mut index: usize = from;
    while index < to && chars[index].is_whitespace()
        invariant
            from <= index <= to <= chars.len(),
            forall|earlier: int| from <= earlier < index ==> is_white_space(#[trigger] chars@[earlier]),
        decreases to - index,
    {
        index += 1;
    }
    proof {
        let part = chars@.subrange(from as int, to as int);
        assert forall|offset: int| 0 <= offset < index - from implies is_white_space(
            #[trigger] part[offset],
        ) by {
            assert(part[offset] == chars@[from + offset]);
        }
        lemma_leading_white_space_is(part, index - from);
    }
    index
}

/// The position after the last character of `chars[from..to]` that is not
/// white space, or `from`.
fn skip_white_space_back(chars: &Vec<char>, from: usize, to: usize) -> (result: usize)
    requires
        from <= to <= chars.len(),
    ensures
        result == to - trailing_white_space(chars@.subrange(from as int, to as int)),
        from <= result <= to,
{
    let mut index: usize = to;
    while index > from && chars[index - 1].is_whitespace()
        invariant
            from <= index <= to <= chars.len(),
            forall|later: int| index <= later < to ==> is_white_space(#[trigger] chars@[later]),
        decreases index - from,
    {
        index -= 1;
    }
    proof {
        let part = chars@.subrange(from as int, to as int);
        assert forall|offset: int| part.len() - (to - index) <= offset < part.len() implies is_white_space(
            #[trigger] part[offset],
        ) by {
            assert(part[offset] == chars@[from + offset]);
        }
        lemma_trailing_white_space_is(part, to - index);
    }
    index
}

/// Removes the white space that `string` starts with.
pub fn trim_start(string: &str) -> (result: &str)
    ensures
        result@ == trimmed_start(string@),
{
    let chars = to_chars(string);
    let start = skip_white_space(&chars, 0, chars.len());
    let result = string.substring_char(start, chars.len());
    proof {
        assert(chars@.subrange(0, chars@.len() as int) =~= chars@);
        assert(result@ =~= trimmed_start(string@));
    }
    result
}

/// Removes the white space at both ends of `string`.
pub fn trim(string: &str) -> (result: &str)
    ensures
        result@ == trimmed(string@),
{
    let chars = to_chars(string);
    let start = skip_white_space(&chars, 0, chars.len());
    let end = skip_white_space_back(&chars, start, chars.len());
    let result = string.substring_char(start, end);
    proof {
        assert(chars@.subrange(0, chars@.len() as int) =~= chars@);
        assert(chars@.subrange(start as int, chars@.len() as int) =~= trimmed_start(string@));
        assert(result@ =~= trimmed(string@));
    }
    result
}

// ORDERING

/// Whether `left` and `right` hold the same characters up to position `count`.
pub open spec fn agree_until(left: Seq<char>, right: Seq<char>, count: int) -> bool {
    &&& 0 <= count <= left.len()
    &&& count <= right.len()
    &&& forall|index: int| 0 <= index < count ==> left[index] == right[index]
}

/// Whether position `count` shows that `left` does not come after `right`:
/// they agree up to it, and there `left` ends or holds the smaller character.
pub open spec fn decides_at(left: Seq<char>, right: Seq<char>, count: int) -> bool {
    &&& agree_until(left, right, count)
    &&& count == left.len() || (count < right.len() && left[count] < right[count])
}

/// Dictionary order by code point: `left` is a prefix of `right`, or the
/// first character in which they differ is the smaller one in `left`.
pub open spec fn text_le(left: Seq<char>, right: Seq<char>) -> bool {
    exists|count: int| decides_at(left, right, count)
}

/// Dictionary order is reflexive.
pub proof fn lemma_text_le_reflexive(text: Seq<char>)
    ensures
        text_le(text, text),
{
    assert(decides_at(text, text, text.len() as int));
}

/// Of two texts one comes first.
pub proof fn lemma_text_le_total(left: Seq<char>, right: Seq<char>)
    ensures
        text_le(left, right) || text_le(right, left),
{
    lemma_text_le_total_from(left, right, 0);
}

proof fn lemma_text_le_total_from(left: Seq<char>, right: Seq<char>, count: int)
    requires
        agree_until(left, right, count),
    ensures
        text_le(left, right) || text_le(right, left),
    decreases left.len() - count,
{
    assert(agree_until(right, left, count));
    if count == left.len() {
        assert(decides_at(left, right, count));
    } else if count == right.len() {
        assert(decides_at(right, left, count));
    } else if left[count] == right[count] {
        lemma_text_le_total_from(left, right, count + 1);
    } else if left[count] < right[count] {
        assert(decides_at(left, right, count));
    } else {
        assert(decides_at(right, left, count));
    }
}

/// Two texts that come before each other are the same text.
pub proof fn lemma_text_le_antisymmetric(left: Seq<char>, right: Seq<char>)
    requires
        text_le(left, right),
        text_le(right, left),
    ensures
        left == right,
{
    let first = choose|count: int| decides_at(left, right, count);
    let second = choose|count: int| decides_at(right, left, count);
    if first < left.len() {
        // `left` and `right` differ at `first`, where `left` is smaller
        if second > first {
            assert(right[first] == left[first]);
        } else if second < first {
            assert(left[second] == right[second]);
        }
        assert(false);
    }
    if second < right.len() {
        if first > second {
            assert(left[second] == right[second]);
        } else if first < second {
            assert(right[first] == left[first]);
        }
        assert(false);
    }
    assert(left =~= right);
}

/// Dictionary order is transitive.
pub proof fn lemma_text_le_transitive(first: Seq<char>, second: Seq<char>, third: Seq<char>)
    requires
        text_le(first, second),
        text_le(second, third),
    ensures
        text_le(first, third),
{
    let low = choose|count: int| decides_at(first, second, count);
    let high = choose|count: int| decides_at(second, third, count);
    if low <= high {
        assert(agree_until(first, third, low));
        if low < first.len() && low < high {
            assert(second[low] == third[low]);
        }
        assert(decides_at(first, third, low));
    } else {
        assert(agree_until(first, third, high));
        assert(first[high] == second[high]);
        assert(decides_at(first, third, high));
    }
}

/// Whether `left` comes before `right` in dictionary order, or is equal to it.
pub fn precedes(left: &Vec<char>, right: &Vec<char>) -> (result: bool)
    ensures
        result == text_le(left@, right@),
{
    let mut count: usize = 0;
    while count < left.len() && count < right.len() && left[count] == right[count]
        invariant
            agree_until(left@, right@, count as int),
        decreases left.len() - count,
    {
        count += 1;
    }
    let result = count == left.len() || (count < right.len() && left[count] < right[count]);
    proof {
        if result {
            assert(decides_at(left@, right@, count as int));
        } else {
            assert forall|other: int| !decides_at(left@, right@, other) by {
                if other > count && agree_until(left@, right@, other) {
                    assert(left@[count as int] == right@[count as int]);
                }
            }
        }
    }
    result
}

// NUMBERS

/// Whether `character` is one of `0` to `9`.
pub open spec fn is_digit(character: char) -> bool {
    '0' <= character <= '9'
}

/// The number that the decimal digits `digits` write.
pub open spec fn decimal_value(digits: Seq<char>) -> nat
    decreases digits.len(),
{
    if digits.len() == 0 {
        0
    } else {
        (10 * decimal_value(digits.drop_last()) + (digits.last() as u32 - '0' as u32)) as nat
    }
}

/// The digits of a number written with an optional `+` in front.
pub open spec fn unsigned_digits(text: Seq<char>) -> Seq<char> {
    if text.len() > 0 && text[0] == '+' {
        text.drop_first()
    } else {
        text
    }
}

/// Whether `digits` holds digits only.
pub open spec fn all_digits(digits: Seq<char>) -> bool {
    forall|index: int| 0 <= index < digits.len() ==> is_digit(#[trigger] digits[index])
}

/// The 32-bit unsigned integer that `text` writes in decimal: an optional `+`,
/// then at least one digit and nothing else, with a value that fits.
pub open spec fn parsed_integer(text: Seq<char>) -> Option<u32> {
    let digits = unsigned_digits(text);
    if digits.len() > 0 && all_digits(digits) && decimal_value(digits) <= u32::MAX {
        Some(decimal_value(digits) as u32)
    } else {
        None
    }
}

/// A number is at least the number that its leading digits write.
proof fn lemma_decimal_value_grows(digits: Seq<char>, count: int)
    requires
        0 <= count <= digits.len(),
        all_digits(digits),
    ensures
        decimal_value(digits.take(count)) <= decimal_value(digits),
    decreases digits.len() - count,
{
    if count < digits.len() {
        lemma_decimal_value_grows(digits, count + 1);
        let longer = digits.take(count + 1);
        assert(longer.drop_last() =~= digits.take(count));
        assert(is_digit(longer.last()));
    } else {
        assert(digits.take(count) =~= digits);
    }
}

/// Reads the 32-bit unsigned integer that `text` writes in decimal.
pub fn parse_integer(text: &str) -> (result: Option<u32>)
    ensures
        result == parsed_integer(text@),
{
    let chars = to_chars(text);
    assert(chars@.subrange(0, chars@.len() as int) =~= text@);
    parse_integer_in(&chars, 0, chars.len())
}

/// Reads the 32-bit unsigned integer that `chars[from..to]` writes in decimal.
pub(crate) fn parse_integer_in(chars: &Vec<char>, from: usize, to: usize) -> (result: Option<u32>)
    requires
        from <= to <= chars.len(),
    ensures
        result == parsed_integer(chars@.subrange(from as int, to as int)),
{
    let ghost text = chars@.subrange(from as int, to as int);
    let start: usize = if from < to && chars[from] == '+' {
        from + 1
    } else {
        from
    };
    let ghost digits = unsigned_digits(text);
    assert(digits =~= chars@.subrange(start as int, to as int));
    if start == to {
        return None;
    }
    let mut value: u32 = 0;
    let mut index: usize = start;
    while index < to
        invariant
            start <= index <= to <= chars.len(),
            text == chars@.subrange(from as int, to as int),
            digits == unsigned_digits(text),
            digits == chars@.subrange(start as int, to as int),
            forall|earlier: int|
                0 <= earlier < index - start ==> is_digit(#[trigger] digits[earlier]),
            value == decimal_value(digits.take(index - start)),
        decreases to - index,
    {
        let character = chars[index];
        assert(digits[index - start] == character);
        if character < '0' || character > '9' {
            assert(!is_digit(digits[index - start]));
            assert(parsed_integer(text) is None);
            return None;
        }
        let digit: u32 = character as u32 - '0' as u32;
        proof {
            let longer = digits.take(index - start + 1);
            assert(longer.drop_last() =~= digits.take(index - start));
            assert(longer.last() == character);
            assert(decimal_value(longer) == 10 * value + digit);
        }
        if value > (u32::MAX - digit) / 10 {
            proof {
                if all_digits(digits) {
                    lemma_decimal_value_grows(digits, index - start + 1);
                }
                assert(parsed_integer(text) is None);
            }
            return None;
        }
        value = value * 10 + digit;
        index += 1;
    }
    assert(digits.take(index - start) =~= digits);
    Some(value)
}

} // verus!
