//! Searching a text for a number that stands before a unit.

use vstd::prelude::*;

verus! {

/// Whether a text can stand in a pattern for itself: a short text of letters, spaces and slashes.
pub open spec fn is_unit(unit: Seq<char>) -> bool {
    &&& 0 < unit.len() <= 64
    &&& forall|i: int|
        0 <= i < unit.len() ==> {
            let c = #[trigger] unit[i];
            c == ' ' || c == '/' || 'A' <= c <= 'Z' || 'a' <= c <= 'z'
        }
}

/// The pattern for digits, in a group, before a unit.
pub open spec fn number_pattern(unit: Seq<char>) -> Seq<char> {
    seq!['(', '\\', 'd', '+', ')'] + unit
}

/// The number of ASCII digits from an index on.
pub open spec fn digits_at(text: Seq<char>, index: int) -> nat
    decreases text.len() - index,
{
    if 0 <= index < text.len() && crate::text::is_digit(text[index]) {
        1 + digits_at(text, index + 1)
    } else {
        0
    }
}

/// Whether a unit stands at an index.
pub open spec fn unit_at(text: Seq<char>, unit: Seq<char>, index: int) -> bool {
    0 <= index && index + unit.len() <= text.len() && text.subrange(index, index + unit.len())
        == unit
}

/// The first number before a unit from an index on, with all its digits from where it starts.
pub open spec fn number_from(text: Seq<char>, unit: Seq<char>, index: int) -> Option<Seq<char>>
    decreases text.len() - index,
{
    if index < 0 || index >= text.len() {
        None
    } else {
        let n = digits_at(text, index);
        if n > 0 && unit_at(text, unit, index + n) {
            Some(text.subrange(index, index + n))
        } else {
            number_from(text, unit, index + 1)
        }
    }
}

/// What `regex::Regex::captures` finds of the first group of a pattern in a text.
pub uninterp spec fn regex_group(pattern: Seq<char>, text: Seq<char>) -> Option<Seq<char>>;

/// The first number before a unit in a text. In a text beyond ASCII a number may have digits of
/// other scripts.
pub open spec fn number_before(text: Seq<char>, unit: Seq<char>) -> Option<Seq<char>> {
    if vstd::utf8::is_ascii_chars(text) {
        number_from(text, unit, 0)
    } else {
        regex_group(number_pattern(unit), text)
    }
}

/// `regex::Regex::new` and `Regex::captures`: the text of the first group where the pattern first
/// matches. Digits before a unit are a pattern that compiles, whose match always has the group. In
/// an ASCII text its leftmost match is the first number before the unit, with all its digits, as a
/// unit does not start with a digit. What is found in other texts depends on the pattern and the
/// text alone and is named, not described.
#[verifier::external_body]
pub(crate) fn first_group(pattern: &str, text: &str) -> (group: Option<String>)
    requires
        pattern@.len() >= 5,
        pattern@ == number_pattern(pattern@.skip(5)),
        is_unit(pattern@.skip(5)),
    ensures
        vstd::utf8::is_ascii_chars(text@) ==> crate::text::text_of(group) == number_from(
            text@,
            pattern@.skip(5),
            0,
        ),
        !vstd::utf8::is_ascii_chars(text@) ==> crate::text::text_of(group) == regex_group(
            pattern@,
            text@,
        ),
{
    regex::Regex::new(pattern).unwrap().captures(text).map(
        |captures| captures.get(1).unwrap().as_str().to_string(),
    )
}

/// The digits at an index are digits, and what follows them is not one.
pub proof fn lemma_digits_at(text: Seq<char>, index: int)
    requires
        0 <= index <= text.len(),
    ensures
        index + digits_at(text, index) <= text.len(),
        forall|i: int|
            index <= i < index + digits_at(text, index) ==> crate::text::is_digit(
                #[trigger] text[i],
            ),
        index + digits_at(text, index) < text.len() ==> !crate::text::is_digit(
            text[index + digits_at(text, index)],
        ),
    decreases text.len() - index,
{
    if index < text.len() && crate::text::is_digit(text[index]) {
        lemma_digits_at(text, index + 1);
    }
}

proof fn lemma_number_from(text: Seq<char>, unit: Seq<char>, index: int) -> (first: int)
    requires
        unit.len() > 0,
        !crate::text::is_digit(unit[0]),
        0 <= index <= text.len(),
    ensures
        match number_from(text, unit, index) {
            Some(number) => {
                &&& index <= first
                &&& number.len() > 0
                &&& first + number.len() + unit.len() <= text.len()
                &&& number == text.subrange(first, (first + number.len()) as int)
                &&& forall|i: int|
                    first <= i < first + number.len() ==> crate::text::is_digit(#[trigger] text[i])
                &&& unit_at(text, unit, (first + number.len()) as int)
                &&& first == index || !crate::text::is_digit(text[first - 1])
                &&& forall|e: int|
                    index < e <= first && #[trigger] unit_at(text, unit, e)
                        ==> !crate::text::is_digit(text[e - 1])
            },
            None => forall|e: int|
                index < e && #[trigger] unit_at(text, unit, e) ==> !crate::text::is_digit(
                    text[e - 1],
                ),
        },
    decreases text.len() - index,
{
    if index == text.len() {
        index
    } else {
        let n = digits_at(text, index);
        lemma_digits_at(text, index);
        if n > 0 && unit_at(text, unit, index + n) {
            index
        } else {
            let first = lemma_number_from(text, unit, index + 1);
            if crate::text::is_digit(text[index]) {
                assert(digits_at(text, index + 1) == n - 1);
                if unit_at(text, unit, index + 1) {
                    assert(text.subrange(index + 1, index + 1 + unit.len())[0] == text[index + 1]);
                    assert(n == 1);
                }
                if number_from(text, unit, index + 1) is Some && first == index + 1 {
                    let number = number_from(text, unit, index + 1)->Some_0;
                    let end = first + number.len();
                    assert(text.subrange(end, end + unit.len())[0] == text[end]);
                    if end < index + n {
                        assert(crate::text::is_digit(text[end]));
                    }
                    if end > index + n {
                        assert(crate::text::is_digit(text[index + n]));
                    }
                }
            }
            first
        }
    }
}

/// The number that is found before a unit in an ASCII text is the first: it stands in the text, is
/// made of digits with no digit before them and with the unit right behind them, and the unit stands
/// behind no digit before it. Where none is found the unit stands behind no digit at all.
pub proof fn law_number_is_the_first(text: Seq<char>, unit: Seq<char>) -> (first: int)
    requires
        vstd::utf8::is_ascii_chars(text),
        unit.len() > 0,
        !('0' <= unit[0] <= '9'),
    ensures
        match number_before(text, unit) {
            Some(number) => {
                &&& 0 <= first
                &&& number.len() > 0
                &&& first + number.len() + unit.len() <= text.len()
                &&& number == text.subrange(first, (first + number.len()) as int)
                &&& forall|i: int| 0 <= i < number.len() ==> '0' <= #[trigger] number[i] <= '9'
                &&& text.subrange(
                    (first + number.len()) as int,
                    (first + number.len() + unit.len()) as int,
                ) == unit
                &&& first == 0 || !('0' <= text[first - 1] <= '9')
                &&& forall|e: int|
                    0 < e <= first && e + unit.len() <= text.len() && #[trigger] text.subrange(
                        e,
                        (e + unit.len()) as int,
                    ) == unit ==> !('0' <= text[e - 1] <= '9')
            },
            None => forall|e: int|
                0 < e && e + unit.len() <= text.len() && #[trigger] text.subrange(
                    e,
                    (e + unit.len()) as int,
                ) == unit ==> !('0' <= text[e - 1] <= '9'),
        },
{
    let first = lemma_number_from(text, unit, 0);
    if let Some(number) = number_before(text, unit) {
        assert forall|i: int| 0 <= i < number.len() implies '0' <= #[trigger] number[i] <= '9' by {
            assert(crate::text::is_digit(text[first + i]));
        }
    }
    assert forall|e: int|
        0 < e && e + unit.len() <= text.len() && #[trigger] text.subrange(e, (e + unit.len()) as int)
            == unit implies unit_at(text, unit, e) by {
    }
    first
}

} // verus!
