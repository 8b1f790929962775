//! What the operations on texts and JSON values do, told by single characters and
//! fields.
use crate::json::{self, JsonFieldView, JsonView};
use crate::text;
use vstd::prelude::*;

verus! {

/// One text comes before another exactly where, at the first place at which they
/// differ, it has the lesser character or has ended.
pub proof fn lemma_order_is_that_of_the_first_difference(
    left: Seq<char>,
    right: Seq<char>,
    common: int,
)
    requires
        0 <= common <= left.len(),
        common <= right.len(),
        forall|i: int| 0 <= i < common ==> left[i] == right[i],
    ensures
        common == left.len() && common < right.len() ==> text::text_before(left, right),
        common == right.len() ==> !text::text_before(left, right),
        common < left.len() && common < right.len() && left[common] < right[common]
            ==> text::text_before(left, right),
        common < left.len() && common < right.len() && left[common] > right[common]
            ==> !text::text_before(left, right),
    decreases common,
{
    if common > 0 {
        let a = left.drop_first();
        let b = right.drop_first();
        assert forall|i: int| 0 <= i < common - 1 implies a[i] == b[i] by {
            assert(left[i + 1] == right[i + 1]);
        }
        lemma_order_is_that_of_the_first_difference(a, b, common - 1);
        assert(left[0] == right[0]);
    }
}

/// White space is made of these twenty-five characters: the five controls from the tab to
/// the carriage return, the space, the next line, and the spaces and separators of Unicode.
pub proof fn lemma_which_characters_are_white_space(c: char)
    ensures
        text::white_space(c) <==> seq![
            9u32, 10, 11, 12, 13, 32, 133, 160, 5760, 8192, 8193, 8194, 8195, 8196, 8197, 8198,
            8199, 8200, 8201, 8202, 8232, 8233, 8239, 8287, 12288,
        ].contains(c as u32),
{
    let all = seq![
        9u32, 10, 11, 12, 13, 32, 133, 160, 5760, 8192, 8193, 8194, 8195, 8196, 8197, 8198, 8199,
        8200, 8201, 8202, 8232, 8233, 8239, 8287, 12288,
    ];
    let n = c as u32;
    if text::white_space(c) {
        let i: int = if n <= 13 {
            n - 9
        } else if n == 32 {
            5
        } else if n == 133 {
            6
        } else if n == 160 {
            7
        } else if n == 5760 {
            8
        } else if n <= 8202 {
            n - 8192 + 9
        } else if n == 8232 {
            20
        } else if n == 8233 {
            21
        } else if n == 8239 {
            22
        } else if n == 8287 {
            23
        } else {
            24
        };
        assert(all[i] == n);
    }
    if all.contains(n) {
        let i = choose|i: int| 0 <= i < all.len() && all[i] == n;
        assert(all.len() == 25);
    }
}

/// Nothing but white space.
pub open spec fn all_white(part: Seq<char>) -> bool {
    forall|i: int| 0 <= i < part.len() ==> text::white_space(#[trigger] part[i])
}

proof fn lemma_trimmed_start(content: Seq<char>) -> (lead: Seq<char>)
    ensures
        all_white(lead),
        content == lead + text::trim_start(content),
        text::trim_start(content).len() > 0 ==> !text::white_space(text::trim_start(content)[0]),
    decreases content.len(),
{
    if content.len() > 0 && text::white_space(content[0]) {
        let rest = lemma_trimmed_start(content.drop_first());
        let lead = seq![content[0]] + rest;
        let kept = text::trim_start(content);
        assert(kept == text::trim_start(content.drop_first()));
        assert(content =~= seq![content[0]] + content.drop_first());
        assert(seq![content[0]] + (rest + kept) =~= lead + kept);
        lead
    } else {
        assert(content =~= Seq::<char>::empty() + text::trim_start(content));
        Seq::empty()
    }
}

proof fn lemma_trimmed_end(content: Seq<char>) -> (tail: Seq<char>)
    ensures
        all_white(tail),
        content == text::trim_end(content) + tail,
        text::trim_end(content).len() > 0 ==> !text::white_space(text::trim_end(content).last()),
    decreases content.len(),
{
    if content.len() > 0 && text::white_space(content.last()) {
        let rest = lemma_trimmed_end(content.drop_last());
        let tail = rest.push(content.last());
        let kept = text::trim_end(content);
        assert(kept == text::trim_end(content.drop_last()));
        assert(content =~= content.drop_last().push(content.last()));
        assert((kept + rest).push(content.last()) =~= kept + tail);
        tail
    } else {
        assert(content =~= text::trim_end(content) + Seq::<char>::empty());
        Seq::empty()
    }
}

/// Trimming takes white space off both ends and nothing else, and leaves none there.
pub proof fn lemma_what_trimming_takes_off(content: Seq<char>)
    ensures
        exists|lead: Seq<char>, tail: Seq<char>|
            all_white(lead) && all_white(tail) && content == #[trigger] (lead + text::trimmed(
                content,
            ) + tail),
        text::trimmed(content).len() > 0 ==> !text::white_space(text::trimmed(content)[0])
            && !text::white_space(text::trimmed(content).last()),
{
    let lead = lemma_trimmed_start(content);
    let middle = text::trim_start(content);
    let tail = lemma_trimmed_end(middle);
    let kept = text::trimmed(content);
    assert(content =~= lead + kept + tail);
    if kept.len() > 0 {
        assert(middle[0] == kept[0]);
    }
}

/// The number that decimal digits denote.
pub open spec fn denoted(digits: Seq<char>) -> int
    decreases digits.len(),
{
    if digits.len() == 0 {
        0
    } else {
        10 * denoted(digits.drop_last()) + (digits.last() as int - '0' as int)
    }
}

/// Decimal notation denotes the number, has no zero in front of other digits, and of
/// a negative number is that of its opposite behind a minus sign.
pub proof fn lemma_decimal_denotes_the_number(number: nat)
    ensures
        denoted(text::decimal(number)) == number,
        text::decimal(number).len() > 1 ==> text::decimal(number)[0] != '0',
        number > 0 ==> text::signed_decimal(-number) == seq!['-'] + text::decimal(number),
        text::signed_decimal(number as int) == text::decimal(number),
    decreases number,
{
    reveal_with_fuel(denoted, 2);
    if number >= 10 {
        lemma_decimal_denotes_the_number(number / 10);
        let digits = text::decimal(number);
        let rest = text::decimal(number / 10);
        text::lemma_decimal_digits(number / 10);
        assert(digits.drop_last() =~= rest);
        assert(digits[0] == rest[0]);
        if rest.len() == 1 {
            assert(denoted(rest) == rest[0] as int - '0' as int) by {
                assert(rest.drop_last().len() == 0);
            }
        }
    }
}

/// The digit of a value below sixteen is the character at that place of the row of
/// digits.
pub proof fn lemma_digits_in_a_row(value: int)
    requires
        0 <= value < 16,
    ensures
        text::digit(value) == seq![
            '0',
            '1',
            '2',
            '3',
            '4',
            '5',
            '6',
            '7',
            '8',
            '9',
            'a',
            'b',
            'c',
            'd',
            'e',
            'f',
        ][value],
{
}

/// Characters beyond the first 65536 take two code units of UTF-16, the others one.
pub proof fn lemma_length_in_code_units(content: Seq<char>)
    ensures
        text::utf16_len(content) == content.len() + content.filter(
            |c: char| c as u32 > 0xffff,
        ).len(),
    decreases content.len(),
{
    reveal(Seq::filter);
    if content.len() > 0 {
        lemma_length_in_code_units(content.drop_last());
    }
}

/// In small letters, a capital of ASCII becomes the character thirty-two places on, and
/// every other character stays.
pub proof fn lemma_small_letters(content: Seq<char>, i: int)
    requires
        0 <= i < content.len(),
    ensures
        text::ascii_lowered(content).len() == content.len(),
        'A' <= content[i] <= 'Z' ==> text::ascii_lowered(content)[i] as u32 == content[i] as u32
            + 32,
        !('A' <= content[i] <= 'Z') ==> text::ascii_lowered(content)[i] == content[i],
        text::ascii_lowered(text::ascii_lowered(content)) == text::ascii_lowered(content),
{
    assert(text::ascii_lowered(text::ascii_lowered(content)) =~= text::ascii_lowered(content));
}

/// A text contains a pattern exactly where its characters stand somewhere in a row.
pub proof fn lemma_what_containing_means(content: Seq<char>, pattern: Seq<char>)
    ensures
        text::contains(content, pattern) <==> exists|head: Seq<char>, tail: Seq<char>|
            content == #[trigger] (head + pattern + tail),
{
    if text::contains(content, pattern) {
        let at = choose|at: int| #[trigger] text::matches_at(content, at, pattern);
        let head = content.take(at);
        let tail = content.skip(at + pattern.len());
        assert(content =~= head + content.subrange(at, at + pattern.len()) + tail);
        assert(content == head + pattern + tail);
    }
    if exists|head: Seq<char>, tail: Seq<char>| content == #[trigger] (head + pattern + tail) {
        let (head, tail) = choose|head: Seq<char>, tail: Seq<char>|
            content == #[trigger] (head + pattern + tail);
        let at = head.len() as int;
        assert(content.subrange(at, at + pattern.len()) =~= pattern);
        assert(text::matches_at(content, at, pattern));
    }
}

proof fn lemma_field_place(fields: Seq<JsonFieldView>, name: Seq<char>, from: int)
    requires
        0 <= from <= fields.len(),
    ensures
        from <= json::field_position(fields, name, from) <= fields.len(),
        json::field_position(fields, name, from) < fields.len() ==> fields[json::field_position(
            fields,
            name,
            from,
        )].name == name,
        forall|i: int|
            from <= i < json::field_position(fields, name, from) ==> (#[trigger] fields[i]).name
                != name,
    decreases fields.len() - from,
{
    if from < fields.len() && fields[from].name != name {
        lemma_field_place(fields, name, from + 1);
    }
}

/// A field is read from the first place at which its name stands in an object; there
/// is none where the name does not stand in it, or the value is no object.
pub proof fn lemma_what_a_field_reads(value: JsonView, name: Seq<char>, at: int)
    ensures
        value matches JsonView::Object(fields) ==> {
            &&& (0 <= at < fields.len() && fields[at].name == name && (forall|i: int|
                0 <= i < at ==> (#[trigger] fields[i]).name != name)) ==> value.field(name) == Some(
                fields[at].value,
            )
            &&& (forall|i: int| 0 <= i < fields.len() ==> (#[trigger] fields[i]).name != name)
                ==> value.field(name) is None
        },
        !(value is Object) ==> value.field(name) is None,
        value.text_field(name) is Some <==> (value.field(name) matches Some(JsonView::Text(_))),
        value.field(name) matches Some(JsonView::Text(content)) ==> value.text_field(name) == Some(
            content,
        ),
        value.bool_field(name) is Some <==> (value.field(name) matches Some(JsonView::Bool(_))),
        value.field(name) matches Some(JsonView::Bool(truth)) ==> value.bool_field(name) == Some(
            truth,
        ),
{
    if let JsonView::Object(fields) = value {
        lemma_field_place(fields, name, 0);
        let found = json::field_position(fields, name, 0);
        if found < fields.len() && forall|i: int|
            0 <= i < fields.len() ==> (#[trigger] fields[i]).name != name {
            assert(fields[found].name != name);
        }
    }
}

/// Reading a field after it was set gives the value that was set; every other field
/// reads as before.
pub proof fn lemma_reading_a_field_that_was_set(
    value: JsonView,
    name: Seq<char>,
    set: JsonView,
    other: Seq<char>,
)
    requires
        value is Object,
    ensures
        value.with_field(name, set).field(name) == Some(set),
        other != name ==> value.with_field(name, set).field(other) == value.field(other),
{
    let fields = value->Object_0;
    let after = value.with_field(name, set)->Object_0;
    lemma_field_place(fields, name, 0);
    lemma_field_place(after, name, 0);
    lemma_field_place(fields, other, 0);
    lemma_field_place(after, other, 0);
    let at = json::field_position(fields, name, 0);
    assert(after[at].name == name);
    assert forall|i: int| 0 <= i < at implies (#[trigger] after[i]).name != name by {
        assert(after[i] == fields[i]);
    }
    assert(json::field_position(after, name, 0) == at);
    if other != name {
        let was = json::field_position(fields, other, 0);
        let is = json::field_position(after, other, 0);
        if was < fields.len() {
            assert(after[was] == fields[was]);
            if is < was {
                assert(is != at);
                assert(after[is] == fields[is]);
            }
        } else if is < after.len() {
            assert(is != at);
            assert(after[is] == fields[is]);
        }
    }
}

} // verus!
