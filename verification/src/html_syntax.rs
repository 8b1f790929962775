//! Syntax highlighting of HTML source: where the doctype, comments, tags and
//! attributes stand, in the UTF-16 code units that a native text view counts in.
use crate::text::{self, chars_of, is_ascii_white_space, to_ascii_lower, utf16_units_of};
use vstd::prelude::*;
use vstd::string::*;

verus! {

#[derive(Debug, Clone, Copy, PartialEq, Eq, Structural)]
pub enum HtmlSyntaxKind {
    Doctype,
    Comment,
    TagDelimiter,
    TagName,
    AttributeName,
    AttributeValue,
}

/// A highlighted stretch of the source, in UTF-16 code units.
#[derive(Debug, Clone, Copy, PartialEq, Eq, Structural)]
pub struct HtmlSyntaxSpan {
    pub kind: HtmlSyntaxKind,
    pub location: usize,
    pub length: usize,
}

/// A highlighted stretch of the source, in characters.
pub struct Mark {
    pub kind: HtmlSyntaxKind,
    pub start: int,
    pub end: int,
}

/// The stretches of characters that the grammar skips over in one go.
pub enum Run {
    White,
    TagName,
    AttributeName,
    BareValue,
    Until(char),
}

/// A character of a tag name.
pub open spec fn html_name_char(c: char) -> bool {
    'a' <= c <= 'z' || 'A' <= c <= 'Z' || '0' <= c <= '9' || c == ':' || c == '-' || c == '_'
}

/// The characters that belong to a run.
pub open spec fn in_run(run: Run, c: char) -> bool {
    match run {
        Run::White => text::ascii_white_space(c),
        Run::TagName => html_name_char(c),
        Run::AttributeName => !text::ascii_white_space(c) && c != '=' && c != '>' && c != '/',
        Run::BareValue => !text::ascii_white_space(c) && c != '>',
        Run::Until(stop) => c != stop,
    }
}

/// The position after the run that starts at `from`.
pub open spec fn run_end(source: Seq<char>, from: int, run: Run) -> int
    decreases source.len() - from,
{
    if 0 <= from < source.len() && in_run(run, source[from]) {
        run_end(source, from + 1, run)
    } else {
        from
    }
}

/// A run ends where it starts or later, inside the source.
pub proof fn lemma_run_end_bounds(source: Seq<char>, from: int, run: Run)
    ensures
        from <= run_end(source, from, run),
        from <= source.len() ==> run_end(source, from, run) <= source.len(),
    decreases source.len() - from,
{
    if 0 <= from < source.len() && in_run(run, source[from]) {
        lemma_run_end_bounds(source, from + 1, run);
    }
}

/// The position after the comment whose text starts at `from`: behind the first
/// `-->`, or the end of the source.
pub open spec fn comment_end(source: Seq<char>, from: int) -> int
    decreases source.len() - from,
{
    if from >= source.len() {
        source.len() as int
    } else if text::matches_at(source, from, seq!['-', '-', '>']) {
        from + 3
    } else {
        comment_end(source, from + 1)
    }
}

/// `name` names an element whose content is not markup.
pub open spec fn raw_text_name(name: Seq<char>) -> bool {
    text::ascii_lowered(name) == seq!['s', 't', 'y', 'l', 'e'] || text::ascii_lowered(name)
        == seq!['s', 'c', 'r', 'i', 'p', 't']
}

/// A closing tag for `name`, of any case, stands at `at`.
pub open spec fn closes_raw_text(source: Seq<char>, at: int, name: Seq<char>) -> bool {
    let after = at + 2 + name.len();
    &&& 0 <= at
    &&& after < source.len()
    &&& source[at] == '<'
    &&& source[at + 1] == '/'
    &&& text::ascii_lowered(source.subrange(at + 2, after)) == text::ascii_lowered(name)
    &&& text::ascii_white_space(source[after]) || source[after] == '/' || source[after] == '>'
}

/// The position of the first closing tag for `name` from `from` on, or the end
/// of the source.
pub open spec fn raw_text_end(source: Seq<char>, from: int, name: Seq<char>) -> int
    decreases source.len() - from,
{
    if from >= source.len() {
        source.len() as int
    } else if closes_raw_text(source, from, name) {
        from
    } else {
        raw_text_end(source, from + 1, name)
    }
}

/// A doctype, of any case, starts at `at`.
pub open spec fn doctype_at(source: Seq<char>, at: int) -> bool {
    &&& 0 <= at
    &&& at + 9 <= source.len()
    &&& text::ascii_lowered(source.subrange(at, at + 9)) == seq![
        '<',
        '!',
        'd',
        'o',
        'c',
        't',
        'y',
        'p',
        'e',
    ]
}

/// `at` with one more step over the character that stands there, if any.
pub open spec fn past(source: Seq<char>, at: int) -> int {
    if at < source.len() {
        at + 1
    } else {
        at
    }
}

/// The marks of the attributes and of the end of a tag, from behind its name
/// on, and the position after the tag.
pub open spec fn attribute_marks(source: Seq<char>, from: int) -> (Seq<Mark>, int)
    decreases source.len() - from,
{
    let at = run_end(source, from, Run::White);
    proof {
        lemma_run_end_bounds(source, from, Run::White);
        lemma_run_end_bounds(source, at, Run::AttributeName);
    }
    if from < 0 || at >= source.len() {
        (Seq::empty(), at)
    } else if text::matches_at(source, at, seq!['/', '>']) {
        (seq![Mark { kind: HtmlSyntaxKind::TagDelimiter, start: at, end: at + 2 }], at + 2)
    } else if source[at] == '>' {
        (seq![Mark { kind: HtmlSyntaxKind::TagDelimiter, start: at, end: at + 1 }], at + 1)
    } else {
        let name_end = run_end(source, at, Run::AttributeName);
        if name_end == at {
            attribute_marks(source, at + 1)
        } else {
            let name = Mark { kind: HtmlSyntaxKind::AttributeName, start: at, end: name_end };
            let equals = run_end(source, name_end, Run::White);
            proof {
                lemma_run_end_bounds(source, name_end, Run::White);
                lemma_run_end_bounds(source, equals + 1, Run::White);
            }
            if equals >= source.len() || source[equals] != '=' {
                let rest = attribute_marks(source, equals);
                (seq![name] + rest.0, rest.1)
            } else {
                let value = run_end(source, equals + 1, Run::White);
                proof {
                    lemma_run_end_bounds(source, value, Run::BareValue);
                }
                if value < source.len() && (source[value] == '\'' || source[value] == '"') {
                    let close = run_end(source, value + 1, Run::Until(source[value]));
                    proof {
                        lemma_run_end_bounds(source, value + 1, Run::Until(source[value]));
                    }
                    let value_end = past(source, close);
                    let quoted = Mark {
                        kind: HtmlSyntaxKind::AttributeValue,
                        start: value,
                        end: value_end,
                    };
                    let rest = attribute_marks(source, value_end);
                    (seq![name, quoted] + rest.0, rest.1)
                } else {
                    let rest = attribute_marks(source, run_end(source, value, Run::BareValue));
                    (seq![name] + rest.0, rest.1)
                }
            }
        }
    }
}

/// The marks of the tag whose `<` stands at `at`, and the position at which the
/// scan goes on: behind the tag, and behind the content of a raw text element.
pub open spec fn tag_marks(source: Seq<char>, at: int) -> (Seq<Mark>, int) {
    let closing = at + 1 < source.len() && source[at + 1] == '/';
    let delimiter_end: int = if closing {
        at + 2
    } else {
        at + 1
    };
    let delimiter = Mark { kind: HtmlSyntaxKind::TagDelimiter, start: at, end: delimiter_end };
    let name_start = run_end(source, delimiter_end, Run::White);
    let name_end = run_end(source, name_start, Run::TagName);
    if name_end == name_start {
        (seq![delimiter], delimiter_end)
    } else {
        let name = Mark { kind: HtmlSyntaxKind::TagName, start: name_start, end: name_end };
        let rest = attribute_marks(source, name_end);
        let name_text = source.subrange(name_start, name_end);
        let next = if !closing && raw_text_name(name_text) {
            raw_text_end(source, rest.1, name_text)
        } else {
            rest.1
        };
        (seq![delimiter, name] + rest.0, next)
    }
}

/// The marks of the source from `from` on.
pub open spec fn marks_from(source: Seq<char>, from: int) -> Seq<Mark>
    decreases source.len() - from,
{
    if from < 0 || from >= source.len() {
        Seq::empty()
    } else if text::matches_at(source, from, seq!['<', '!', '-', '-']) {
        let end = comment_end(source, from + 4);
        proof {
            lemma_comment_end_bounds(source, from + 4);
        }
        seq![Mark { kind: HtmlSyntaxKind::Comment, start: from, end }] + marks_from(source, end)
    } else if doctype_at(source, from) {
        let end = past(source, run_end(source, from, Run::Until('>')));
        proof {
            lemma_doctype_advances(source, from);
        }
        seq![Mark { kind: HtmlSyntaxKind::Doctype, start: from, end }] + marks_from(source, end)
    } else if source[from] != '<' {
        marks_from(source, from + 1)
    } else {
        let tag = tag_marks(source, from);
        proof {
            lemma_tag_bounds(source, from);
        }
        tag.0 + marks_from(source, tag.1)
    }
}

pub proof fn lemma_comment_end_bounds(source: Seq<char>, from: int)
    requires
        0 <= from <= source.len(),
    ensures
        from <= comment_end(source, from) <= source.len(),
    decreases source.len() - from,
{
    if from < source.len() && !text::matches_at(source, from, seq!['-', '-', '>']) {
        lemma_comment_end_bounds(source, from + 1);
    }
}

pub proof fn lemma_raw_text_end_bounds(source: Seq<char>, from: int, name: Seq<char>)
    requires
        0 <= from <= source.len(),
    ensures
        from <= raw_text_end(source, from, name) <= source.len(),
    decreases source.len() - from,
{
    if from < source.len() && !closes_raw_text(source, from, name) {
        lemma_raw_text_end_bounds(source, from + 1, name);
    }
}

/// The marks lie inside `start..end`, are not empty, and each ends before the
/// next starts.
pub open spec fn ordered_within(marks: Seq<Mark>, start: int, end: int) -> bool {
    &&& forall|i: int| #![trigger marks[i]]
        0 <= i < marks.len() ==> start <= marks[i].start < marks[i].end <= end
    &&& forall|i: int, j: int| #![trigger marks[i], marks[j]]
        0 <= i < j < marks.len() ==> marks[i].end <= marks[j].start
}

proof fn lemma_ordered_concat(left: Seq<Mark>, right: Seq<Mark>, start: int, middle: int, end: int)
    requires
        start <= middle <= end,
        ordered_within(left, start, middle),
        ordered_within(right, middle, end),
    ensures
        ordered_within(left + right, start, end),
{
    let marks = left + right;
    assert forall|i: int| 0 <= i < marks.len() implies start <= (#[trigger] marks[i]).start
        < marks[i].end <= end by {
        if i < left.len() {
            assert(marks[i] == left[i]);
        } else {
            assert(marks[i] == right[i - left.len()]);
        }
    }
    assert forall|i: int, j: int| #![trigger marks[i], marks[j]]
        0 <= i < j < marks.len() implies marks[i].end <= marks[j].start by {
        if j < left.len() {
            assert(marks[i] == left[i] && marks[j] == left[j]);
        } else if i < left.len() {
            assert(marks[i] == left[i] && marks[j] == right[j - left.len()]);
        } else {
            assert(marks[i] == right[i - left.len()] && marks[j] == right[j - left.len()]);
        }
    }
}

proof fn lemma_attribute_bounds(source: Seq<char>, from: int)
    requires
        0 <= from <= source.len(),
    ensures
        from <= attribute_marks(source, from).1 <= source.len(),
        ordered_within(attribute_marks(source, from).0, from, attribute_marks(source, from).1),
    decreases source.len() - from,
{
    let at = run_end(source, from, Run::White);
    lemma_run_end_bounds(source, from, Run::White);
    if at >= source.len() {
    } else if text::matches_at(source, at, seq!['/', '>']) {
    } else if source[at] == '>' {
    } else {
        let name_end = run_end(source, at, Run::AttributeName);
        lemma_run_end_bounds(source, at, Run::AttributeName);
        if name_end == at {
            lemma_attribute_bounds(source, at + 1);
        } else {
            let name = Mark { kind: HtmlSyntaxKind::AttributeName, start: at, end: name_end };
            let equals = run_end(source, name_end, Run::White);
            lemma_run_end_bounds(source, name_end, Run::White);
            if equals >= source.len() || source[equals] != '=' {
                lemma_attribute_bounds(source, equals);
                let rest = attribute_marks(source, equals);
                lemma_ordered_concat(seq![name], rest.0, from, equals, rest.1);
            } else {
                let value = run_end(source, equals + 1, Run::White);
                lemma_run_end_bounds(source, equals + 1, Run::White);
                if value < source.len() && (source[value] == '\'' || source[value] == '"') {
                    let close = run_end(source, value + 1, Run::Until(source[value]));
                    lemma_run_end_bounds(source, value + 1, Run::Until(source[value]));
                    let value_end = past(source, close);
                    let quoted = Mark {
                        kind: HtmlSyntaxKind::AttributeValue,
                        start: value,
                        end: value_end,
                    };
                    lemma_attribute_bounds(source, value_end);
                    let rest = attribute_marks(source, value_end);
                    lemma_ordered_concat(seq![name, quoted], rest.0, from, value_end, rest.1);
                } else {
                    let value_end = run_end(source, value, Run::BareValue);
                    lemma_run_end_bounds(source, value, Run::BareValue);
                    lemma_attribute_bounds(source, value_end);
                    let rest = attribute_marks(source, value_end);
                    lemma_ordered_concat(seq![name], rest.0, from, value_end, rest.1);
                }
            }
        }
    }
}

pub proof fn lemma_tag_bounds(source: Seq<char>, at: int)
    requires
        0 <= at < source.len(),
    ensures
        at < tag_marks(source, at).1 <= source.len(),
        ordered_within(tag_marks(source, at).0, at, tag_marks(source, at).1),
{
    let closing = at + 1 < source.len() && source[at + 1] == '/';
    let delimiter_end: int = if closing {
        at + 2
    } else {
        at + 1
    };
    let name_start = run_end(source, delimiter_end, Run::White);
    let name_end = run_end(source, name_start, Run::TagName);
    lemma_run_end_bounds(source, delimiter_end, Run::White);
    lemma_run_end_bounds(source, name_start, Run::TagName);
    if name_end != name_start {
        let delimiter = Mark { kind: HtmlSyntaxKind::TagDelimiter, start: at, end: delimiter_end };
        let name = Mark { kind: HtmlSyntaxKind::TagName, start: name_start, end: name_end };
        let rest = attribute_marks(source, name_end);
        lemma_attribute_bounds(source, name_end);
        lemma_raw_text_end_bounds(source, rest.1, source.subrange(name_start, name_end));
        lemma_ordered_concat(
            seq![delimiter, name],
            rest.0,
            at,
            name_end,
            tag_marks(source, at).1,
        );
    }
}

/// The marks of a source are in order, do not overlap, are not empty and lie
/// inside the source.
pub proof fn lemma_marks_ordered(source: Seq<char>, from: int)
    requires
        0 <= from <= source.len(),
    ensures
        ordered_within(marks_from(source, from), from, source.len() as int),
    decreases source.len() - from,
{
    let len = source.len() as int;
    if from >= source.len() {
    } else if text::matches_at(source, from, seq!['<', '!', '-', '-']) {
        let end = comment_end(source, from + 4);
        lemma_comment_end_bounds(source, from + 4);
        lemma_marks_ordered(source, end);
        lemma_ordered_concat(
            seq![Mark { kind: HtmlSyntaxKind::Comment, start: from, end }],
            marks_from(source, end),
            from,
            end,
            len,
        );
    } else if doctype_at(source, from) {
        let end = past(source, run_end(source, from, Run::Until('>')));
        lemma_run_end_bounds(source, from, Run::Until('>'));
        lemma_doctype_advances(source, from);
        lemma_marks_ordered(source, end);
        lemma_ordered_concat(
            seq![Mark { kind: HtmlSyntaxKind::Doctype, start: from, end }],
            marks_from(source, end),
            from,
            end,
            len,
        );
    } else if source[from] != '<' {
        lemma_marks_ordered(source, from + 1);
    } else {
        let tag = tag_marks(source, from);
        lemma_tag_bounds(source, from);
        lemma_marks_ordered(source, tag.1);
        lemma_ordered_concat(tag.0, marks_from(source, tag.1), from, tag.1, len);
    }
}

pub proof fn lemma_doctype_advances(source: Seq<char>, from: int)
    requires
        0 <= from < source.len(),
    ensures
        from < past(source, run_end(source, from, Run::Until('>'))) <= source.len(),
{
    lemma_run_end_bounds(source, from, Run::Until('>'));
    if in_run(Run::Until('>'), source[from]) {
        lemma_run_end_bounds(source, from + 1, Run::Until('>'));
    }
}

/// The spans are the marks, counted in UTF-16 code units of the source.
pub open spec fn spans_are(
    source: Seq<char>,
    spans: Seq<HtmlSyntaxSpan>,
    marks: Seq<Mark>,
) -> bool {
    &&& spans.len() == marks.len()
    &&& forall|i: int| #![trigger spans[i]] #![trigger marks[i]]
        0 <= i < spans.len() ==> {
            &&& spans[i].kind == marks[i].kind
            &&& spans[i].location == text::utf16_len(source.take(marks[i].start))
            &&& spans[i].length == text::utf16_len(source.subrange(marks[i].start, marks[i].end))
        }
}

/// Entry `i` is the length in UTF-16 of the first `i` characters.
spec fn offsets_are(source: Seq<char>, offsets: Seq<usize>) -> bool {
    &&& offsets.len() == source.len() + 1
    &&& forall|i: int| 0 <= i <= source.len() ==> #[trigger] offsets[i] == text::utf16_len(source.take(i))
}

fn utf16_offsets(chars: &Vec<char>) -> (offsets: Vec<usize>)
    requires
        text::utf16_len(chars@) <= usize::MAX,
    ensures
        offsets_are(chars@, offsets@),
{
    let mut offsets: Vec<usize> = Vec::new();
    let mut total: usize = 0;
    offsets.push(0);
    let mut i: usize = 0;
    while i < chars.len()
        invariant
            text::utf16_len(chars@) <= usize::MAX,
            i <= chars@.len(),
            offsets@.len() == i + 1,
            total == text::utf16_len(chars@.take(i as int)),
            forall|k: int| 0 <= k <= i ==> #[trigger] offsets@[k] == text::utf16_len(chars@.take(k)),
        decreases chars.len() - i,
    {
        proof {
            assert(chars@.take(i + 1).drop_last() =~= chars@.take(i as int));
            text::lemma_utf16_len_prefix(chars@, 0, i + 1);
        }
        total += utf16_units_of(chars[i]);
        offsets.push(total);
        i += 1;
    }
    offsets
}

fn push_html_span(
    spans: &mut Vec<HtmlSyntaxSpan>,
    kind: HtmlSyntaxKind,
    start: usize,
    end: usize,
    chars: &Vec<char>,
    offsets: &Vec<usize>,
)
    requires
        start <= end <= chars@.len(),
        offsets_are(chars@, offsets@),
    ensures
        forall|marks: Seq<Mark>| #[trigger]
            spans_are(chars@, old(spans)@, marks) ==> spans_are(
                chars@,
                final(spans)@,
                marks.push(Mark { kind, start: start as int, end: end as int }),
            ),
{
    proof {
        text::lemma_utf16_len_prefix(chars@, start as int, end as int);
    }
    let location: usize = offsets[start];
    spans.push(HtmlSyntaxSpan { kind, location, length: offsets[end] - location });
}

fn is_in_run(run: &Run, c: char) -> (r: bool)
    ensures
        r == in_run(*run, c),
{
    match run {
        Run::White => is_ascii_white_space(c),
        Run::TagName => is_html_name_char(c),
        Run::AttributeName => !is_ascii_white_space(c) && c != '=' && c != '>' && c != '/',
        Run::BareValue => !is_ascii_white_space(c) && c != '>',
        Run::Until(stop) => c != *stop,
    }
}

fn is_html_name_char(c: char) -> (r: bool)
    ensures
        r == html_name_char(c),
{
    ('a' <= c && c <= 'z') || ('A' <= c && c <= 'Z') || ('0' <= c && c <= '9') || c == ':' || c
        == '-' || c == '_'
}

fn skip_run(chars: &Vec<char>, from: usize, run: Run) -> (end: usize)
    requires
        from <= chars@.len(),
    ensures
        end == run_end(chars@, from as int, run),
        from <= end <= chars@.len(),
{
    let mut at: usize = from;
    while at < chars.len() && is_in_run(&run, chars[at])
        invariant
            from <= at <= chars@.len(),
            run_end(chars@, from as int, run) == run_end(chars@, at as int, run),
        decreases chars.len() - at,
    {
        at += 1;
    }
    at
}

/// Tests whether the characters from `at` on are the pattern, with ASCII
/// capitals of the source taken as small letters.
fn starts_with_ascii_case(chars: &Vec<char>, at: usize, pattern: &[char]) -> (r: bool)
    ensures
        r == (at + pattern@.len() <= chars@.len() && text::ascii_lowered(
            chars@.subrange(at as int, at + pattern@.len()),
        ) == pattern@),
{
    if at > chars.len() || pattern.len() > chars.len() - at {
        return false;
    }
    let ghost lowered = text::ascii_lowered(chars@.subrange(at as int, at + pattern@.len()));
    let mut i: usize = 0;
    while i < pattern.len()
        invariant
            at + pattern@.len() <= chars.len(),
            lowered == text::ascii_lowered(chars@.subrange(at as int, at + pattern@.len())),
            i <= pattern@.len(),
            forall|k: int| 0 <= k < i ==> lowered[k] == pattern@[k],
        decreases pattern.len() - i,
    {
        if to_ascii_lower(chars[at + i]) != pattern[i] {
            assert(lowered[i as int] != pattern@[i as int]);
            return false;
        }
        i += 1;
    }
    assert(lowered =~= pattern@);
    true
}

proof fn lemma_lowered_symbols(text: Seq<char>, pattern: Seq<char>)
    requires
        text.len() == pattern.len(),
        forall|i: int| 0 <= i < pattern.len() ==> !('a' <= #[trigger] pattern[i] <= 'z') && !('A'
            <= pattern[i] <= 'Z'),
    ensures
        text::ascii_lowered(text) == pattern <==> text == pattern,
{
    if text::ascii_lowered(text) == pattern {
        assert forall|i: int| 0 <= i < text.len() implies text[i] == pattern[i] by {
            assert(text::ascii_lowered(text)[i] == text::ascii_lower(text[i]));
        }
        assert(text =~= pattern);
    }
    if text == pattern {
        assert(text::ascii_lowered(text) =~= pattern);
    }
}

fn starts_comment(chars: &Vec<char>, at: usize) -> (r: bool)
    ensures
        r == text::matches_at(chars@, at as int, seq!['<', '!', '-', '-']),
{
    let r = starts_with_ascii_case(chars, at, &['<', '!', '-', '-']);
    proof {
        let pattern = seq!['<', '!', '-', '-'];
        assert(pattern =~= ['<', '!', '-', '-']@);
        if at + 4 <= chars@.len() {
            lemma_lowered_symbols(chars@.subrange(at as int, at + 4), pattern);
        }
    }
    r
}

fn closes_empty_tag(chars: &Vec<char>, at: usize) -> (r: bool)
    ensures
        r == text::matches_at(chars@, at as int, seq!['/', '>']),
{
    let r = starts_with_ascii_case(chars, at, &['/', '>']);
    proof {
        let pattern = seq!['/', '>'];
        assert(pattern =~= ['/', '>']@);
        if at + 2 <= chars@.len() {
            lemma_lowered_symbols(chars@.subrange(at as int, at + 2), pattern);
        }
    }
    r
}

fn starts_doctype(chars: &Vec<char>, at: usize) -> (r: bool)
    ensures
        r == doctype_at(chars@, at as int),
{
    let r = starts_with_ascii_case(
        chars,
        at,
        &['<', '!', 'd', 'o', 'c', 't', 'y', 'p', 'e'],
    );
    assert(['<', '!', 'd', 'o', 'c', 't', 'y', 'p', 'e']@ =~= seq![
        '<',
        '!',
        'd',
        'o',
        'c',
        't',
        'y',
        'p',
        'e',
    ]);
    r
}

fn find_comment_end(chars: &Vec<char>, from: usize) -> (end: usize)
    requires
        from <= chars@.len(),
    ensures
        end == comment_end(chars@, from as int),
        from <= end <= chars@.len(),
{
    let mut at: usize = from;
    while at < chars.len()
        invariant
            from <= at <= chars@.len(),
            comment_end(chars@, from as int) == comment_end(chars@, at as int),
        decreases chars.len() - at,
    {
        let ghost pattern = seq!['-', '-', '>'];
        if chars.len() - at >= 3 && chars[at] == '-' && chars[at + 1] == '-' && chars[at + 2]
            == '>' {
            assert(chars@.subrange(at as int, at + 3) =~= pattern);
            return at + 3;
        }
        assert(!text::matches_at(chars@, at as int, pattern)) by {
            if text::matches_at(chars@, at as int, pattern) {
                let found = chars@.subrange(at as int, at + 3);
                assert(found[0] == '-' && found[1] == '-' && found[2] == '>');
            }
        }
        at += 1;
    }
    at
}

fn is_raw_text_name(chars: &Vec<char>, start: usize, end: usize) -> (r: bool)
    requires
        start <= end <= chars@.len(),
    ensures
        r == raw_text_name(chars@.subrange(start as int, end as int)),
{
    let style = starts_with_ascii_case(chars, start, &['s', 't', 'y', 'l', 'e']);
    let script = starts_with_ascii_case(chars, start, &['s', 'c', 'r', 'i', 'p', 't']);
    proof {
        let name = chars@.subrange(start as int, end as int);
        assert(['s', 't', 'y', 'l', 'e']@ =~= seq!['s', 't', 'y', 'l', 'e']);
        assert(['s', 'c', 'r', 'i', 'p', 't']@ =~= seq!['s', 'c', 'r', 'i', 'p', 't']);
        assert(text::ascii_lowered(name).len() == name.len());
    }
    (end - start == 5 && style) || (end - start == 6 && script)
}

fn is_raw_text_closed(
    chars: &Vec<char>,
    at: usize,
    name_start: usize,
    name_end: usize,
) -> (r: bool)
    requires
        at <= chars@.len(),
        name_start <= name_end <= chars@.len(),
    ensures
        r == closes_raw_text(
            chars@,
            at as int,
            chars@.subrange(name_start as int, name_end as int),
        ),
{
    let length: usize = name_end - name_start;
    if chars.len() - at < 2 || chars.len() - at - 2 <= length {
        return false;
    }
    if chars[at] != '<' || chars[at + 1] != '/' {
        return false;
    }
    let ghost name = text::ascii_lowered(chars@.subrange(name_start as int, name_end as int));
    let ghost found = text::ascii_lowered(chars@.subrange(at + 2, at + 2 + length));
    let mut i: usize = 0;
    while i < length
        invariant
            length == name_end - name_start,
            name_start <= name_end <= chars.len(),
            at + 2 + length < chars.len(),
            name == text::ascii_lowered(chars@.subrange(name_start as int, name_end as int)),
            found == text::ascii_lowered(chars@.subrange(at + 2, at + 2 + length)),
            i <= length,
            forall|k: int| 0 <= k < i ==> found[k] == name[k],
        decreases length - i,
    {
        if to_ascii_lower(chars[at + 2 + i]) != to_ascii_lower(chars[name_start + i]) {
            assert(found[i as int] != name[i as int]);
            return false;
        }
        i += 1;
    }
    assert(found =~= name);
    let after: char = chars[at + 2 + length];
    is_ascii_white_space(after) || after == '/' || after == '>'
}

fn find_raw_text_end(
    chars: &Vec<char>,
    from: usize,
    name_start: usize,
    name_end: usize,
) -> (end: usize)
    requires
        from <= chars@.len(),
        name_start <= name_end <= chars@.len(),
    ensures
        end == raw_text_end(
            chars@,
            from as int,
            chars@.subrange(name_start as int, name_end as int),
        ),
        from <= end <= chars@.len(),
{
    let ghost name = chars@.subrange(name_start as int, name_end as int);
    let mut at: usize = from;
    while at < chars.len()
        invariant
            from <= at <= chars@.len(),
            name_start <= name_end <= chars@.len(),
            name == chars@.subrange(name_start as int, name_end as int),
            raw_text_end(chars@, from as int, name) == raw_text_end(chars@, at as int, name),
        decreases chars.len() - at,
    {
        if is_raw_text_closed(chars, at, name_start, name_end) {
            return at;
        }
        at += 1;
    }
    at
}

proof fn lemma_spans_concat(
    source: Seq<char>,
    left: Seq<HtmlSyntaxSpan>,
    right: Seq<HtmlSyntaxSpan>,
    left_marks: Seq<Mark>,
    right_marks: Seq<Mark>,
)
    requires
        spans_are(source, left, left_marks),
        spans_are(source, right, right_marks),
    ensures
        spans_are(source, left + right, left_marks + right_marks),
{
    let spans = left + right;
    let marks = left_marks + right_marks;
    assert forall|i: int| #![trigger spans[i]] #![trigger marks[i]]
        0 <= i < spans.len() implies {
        &&& spans[i].kind == marks[i].kind
        &&& spans[i].location == text::utf16_len(source.take(marks[i].start))
        &&& spans[i].length == text::utf16_len(source.subrange(marks[i].start, marks[i].end))
    } by {
        if i < left.len() {
            assert(spans[i] == left[i] && marks[i] == left_marks[i]);
        } else {
            assert(spans[i] == right[i - left.len()] && marks[i] == right_marks[i - left.len()]);
        }
    }
}

fn scan_attributes(chars: &Vec<char>, offsets: &Vec<usize>, from: usize) -> (r: (
    Vec<HtmlSyntaxSpan>,
    usize,
))
    requires
        from <= chars@.len(),
        offsets_are(chars@, offsets@),
    ensures
        spans_are(chars@, r.0@, attribute_marks(chars@, from as int).0),
        r.1 == attribute_marks(chars@, from as int).1,
        r.1 <= chars@.len(),
{
    let mut spans: Vec<HtmlSyntaxSpan> = Vec::new();
    let ghost mut marks: Seq<Mark> = Seq::empty();
    let ghost whole = attribute_marks(chars@, from as int);
    let mut cursor: usize = from;
    proof {
        assert(marks + whole.0 =~= whole.0);
    }
    loop
        invariant
            cursor <= chars@.len(),
            offsets_are(chars@, offsets@),
            spans_are(chars@, spans@, marks),
            whole == attribute_marks(chars@, from as int),
            whole.0 == marks + attribute_marks(chars@, cursor as int).0,
            whole.1 == attribute_marks(chars@, cursor as int).1,
        decreases chars@.len() - cursor,
    {
        let at: usize = skip_run(chars, cursor, Run::White);
        if at >= chars.len() {
            assert(whole.0 =~= marks);
            return (spans, at);
        }
        if closes_empty_tag(chars, at) {
            push_html_span(
                &mut spans,
                HtmlSyntaxKind::TagDelimiter,
                at,
                at + 2,
                chars,
                offsets,
            );
            assert(whole.0 =~= marks.push(
                Mark { kind: HtmlSyntaxKind::TagDelimiter, start: at as int, end: at + 2 },
            ));
            return (spans, at + 2);
        }
        if chars[at] == '>' {
            push_html_span(
                &mut spans,
                HtmlSyntaxKind::TagDelimiter,
                at,
                at + 1,
                chars,
                offsets,
            );
            assert(whole.0 =~= marks.push(
                Mark { kind: HtmlSyntaxKind::TagDelimiter, start: at as int, end: at + 1 },
            ));
            return (spans, at + 1);
        }
        let name_end: usize = skip_run(chars, at, Run::AttributeName);
        if name_end == at {
            cursor = at + 1;
            continue;
        }
        let ghost before = marks;
        let ghost name = Mark {
            kind: HtmlSyntaxKind::AttributeName,
            start: at as int,
            end: name_end as int,
        };
        push_html_span(&mut spans, HtmlSyntaxKind::AttributeName, at, name_end, chars, offsets);
        proof {
            marks = marks.push(name);
        }
        let equals: usize = skip_run(chars, name_end, Run::White);
        if equals >= chars.len() || chars[equals] != '=' {
            cursor = equals;
            proof {
                let rest = attribute_marks(chars@, cursor as int).0;
                assert(before + (seq![name] + rest) =~= marks + rest);
            }
            continue;
        }
        let value: usize = skip_run(chars, equals + 1, Run::White);
        if value < chars.len() && (chars[value] == '\'' || chars[value] == '"') {
            let close: usize = skip_run(chars, value + 1, Run::Until(chars[value]));
            let value_end: usize = if close < chars.len() {
                close + 1
            } else {
                close
            };
            let ghost quoted = Mark {
                kind: HtmlSyntaxKind::AttributeValue,
                start: value as int,
                end: value_end as int,
            };
            push_html_span(
                &mut spans,
                HtmlSyntaxKind::AttributeValue,
                value,
                value_end,
                chars,
                offsets,
            );
            cursor = value_end;
            proof {
                marks = marks.push(quoted);
                let rest = attribute_marks(chars@, cursor as int).0;
                assert(before + (seq![name, quoted] + rest) =~= marks + rest);
            }
        } else {
            cursor = skip_run(chars, value, Run::BareValue);
            proof {
                let rest = attribute_marks(chars@, cursor as int).0;
                assert(before + (seq![name] + rest) =~= marks + rest);
            }
        }
    }
}

fn scan_tag(chars: &Vec<char>, offsets: &Vec<usize>, at: usize) -> (r: (
    Vec<HtmlSyntaxSpan>,
    usize,
))
    requires
        at < chars@.len(),
        offsets_are(chars@, offsets@),
    ensures
        spans_are(chars@, r.0@, tag_marks(chars@, at as int).0),
        r.1 == tag_marks(chars@, at as int).1,
        at < r.1 <= chars@.len(),
{
    proof {
        lemma_tag_bounds(chars@, at as int);
    }
    let mut spans: Vec<HtmlSyntaxSpan> = Vec::new();
    let closing = chars.len() - at > 1 && chars[at + 1] == '/';
    let delimiter_end: usize = if closing {
        at + 2
    } else {
        at + 1
    };
    let ghost delimiter = Mark {
        kind: HtmlSyntaxKind::TagDelimiter,
        start: at as int,
        end: delimiter_end as int,
    };
    assert(spans_are(chars@, spans@, Seq::empty()));
    push_html_span(&mut spans, HtmlSyntaxKind::TagDelimiter, at, delimiter_end, chars, offsets);
    assert(Seq::<Mark>::empty().push(delimiter) =~= seq![delimiter]);
    let name_start: usize = skip_run(chars, delimiter_end, Run::White);
    let name_end: usize = skip_run(chars, name_start, Run::TagName);
    if name_start == name_end {
        return (spans, delimiter_end);
    }
    let ghost name = Mark {
        kind: HtmlSyntaxKind::TagName,
        start: name_start as int,
        end: name_end as int,
    };
    push_html_span(&mut spans, HtmlSyntaxKind::TagName, name_start, name_end, chars, offsets);
    assert(seq![delimiter].push(name) =~= seq![delimiter, name]);
    let (mut rest, end) = scan_attributes(chars, offsets, name_end);
    proof {
        lemma_spans_concat(
            chars@,
            spans@,
            rest@,
            seq![delimiter, name],
            attribute_marks(chars@, name_end as int).0,
        );
    }
    spans.append(&mut rest);
    let next: usize = if !closing && is_raw_text_name(chars, name_start, name_end) {
        find_raw_text_end(chars, end, name_start, name_end)
    } else {
        end
    };
    (spans, next)
}

/// The highlighted stretches of an HTML source.
pub fn html_syntax_spans(source: &str) -> (spans: Vec<HtmlSyntaxSpan>)
    ensures
        spans_are(source@, spans@, marks_from(source@, 0)),
        spans_ordered(spans@, text::utf16_len(source@)),
{
    let chars = chars_of(source);
    let bytes = source.as_bytes();
    proof {
        text::lemma_utf16_len_bounded(source@);
        assert(bytes.len() == vstd::utf8::encode_utf8(source@).len());
    }
    let offsets = utf16_offsets(&chars);
    let mut spans: Vec<HtmlSyntaxSpan> = Vec::new();
    let ghost mut marks: Seq<Mark> = Seq::empty();
    let ghost whole = marks_from(chars@, 0);
    let mut index: usize = 0;
    proof {
        assert(marks + whole =~= whole);
    }
    while index < chars.len()
        invariant
            index <= chars@.len(),
            chars@ == source@,
            offsets_are(chars@, offsets@),
            spans_are(chars@, spans@, marks),
            whole == marks_from(chars@, 0),
            whole == marks + marks_from(chars@, index as int),
        decreases chars.len() - index,
    {
        let ghost before = marks;
        if starts_comment(&chars, index) {
            let end: usize = find_comment_end(&chars, index + 4);
            push_html_span(&mut spans, HtmlSyntaxKind::Comment, index, end, &chars, &offsets);
            proof {
                let comment = Mark {
                    kind: HtmlSyntaxKind::Comment,
                    start: index as int,
                    end: end as int,
                };
                marks = marks.push(comment);
                let rest = marks_from(chars@, end as int);
                assert(before + (seq![comment] + rest) =~= marks + rest);
            }
            index = end;
        } else if starts_doctype(&chars, index) {
            proof {
                lemma_doctype_advances(chars@, index as int);
            }
            let close: usize = skip_run(&chars, index, Run::Until('>'));
            let end: usize = if close < chars.len() {
                close + 1
            } else {
                close
            };
            push_html_span(&mut spans, HtmlSyntaxKind::Doctype, index, end, &chars, &offsets);
            proof {
                let doctype = Mark {
                    kind: HtmlSyntaxKind::Doctype,
                    start: index as int,
                    end: end as int,
                };
                marks = marks.push(doctype);
                let rest = marks_from(chars@, end as int);
                assert(before + (seq![doctype] + rest) =~= marks + rest);
            }
            index = end;
        } else if chars[index] != '<' {
            index += 1;
        } else {
            let (mut tag, end) = scan_tag(&chars, &offsets, index);
            proof {
                let found = tag_marks(chars@, index as int).0;
                lemma_spans_concat(chars@, spans@, tag@, marks, found);
                marks = marks + found;
                let rest = marks_from(chars@, end as int);
                assert(before + (found + rest) =~= marks + rest);
            }
            spans.append(&mut tag);
            index = end;
        }
    }
    proof {
        assert(whole =~= marks);
        lemma_spans_ordered(source@, spans@);
    }
    spans
}

/// The spans are not empty, each ends before the next starts, and none reaches
/// beyond `length`.
pub open spec fn spans_ordered(spans: Seq<HtmlSyntaxSpan>, length: nat) -> bool {
    &&& forall|i: int| #![trigger spans[i]]
        0 <= i < spans.len() ==> 0 < spans[i].length && spans[i].location + spans[i].length
            <= length
    &&& forall|i: int, j: int| #![trigger spans[i], spans[j]]
        0 <= i < j < spans.len() ==> spans[i].location + spans[i].length <= spans[j].location
}

/// The highlighted stretches of any source are in order, do not overlap, are not
/// empty and lie inside the source.
pub proof fn lemma_spans_ordered(source: Seq<char>, spans: Seq<HtmlSyntaxSpan>)
    requires
        spans_are(source, spans, marks_from(source, 0)),
    ensures
        spans_ordered(spans, text::utf16_len(source)),
{
    let marks = marks_from(source, 0);
    lemma_marks_ordered(source, 0);
    assert forall|i: int| #![trigger spans[i]] 0 <= i < spans.len() implies 0 < spans[i].length
        && spans[i].location + spans[i].length <= text::utf16_len(source) by {
        let mark = marks[i];
        text::lemma_utf16_len_prefix(source, mark.start, mark.end);
        text::lemma_utf16_len_bounded(source.subrange(mark.start, mark.end));
    }
    assert forall|i: int, j: int| #![trigger spans[i], spans[j]]
        0 <= i < j < spans.len() implies spans[i].location + spans[i].length
        <= spans[j].location by {
        let first = marks[i];
        let second = marks[j];
        text::lemma_utf16_len_prefix(source, first.start, first.end);
        text::lemma_utf16_len_prefix(source, first.end, second.start);
    }
}

} // verus!
