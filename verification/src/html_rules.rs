//! Which characters of HTML source are highlighted, and as what: each mark by the
//! characters that it covers, and what stands between one mark and the next.
use crate::html_syntax::{self, HtmlSyntaxKind, Mark, Run};
use crate::text;
use vstd::prelude::*;

verus! {

/// A space, a tab, or the end of a line or of a page.
pub open spec fn blank_char(c: char) -> bool {
    c == ' ' || c == '\t' || c == '\n' || c == '\r' || c == '\u{c}'
}

/// Nothing but white space stands from `from` up to `to`.
pub open spec fn blank_between(source: Seq<char>, from: int, to: int) -> bool {
    forall|k: int| from <= k < to ==> blank_char(#[trigger] source[k])
}

/// A letter or digit of ASCII, a colon, a hyphen or an underscore.
pub open spec fn tag_name_char(c: char) -> bool {
    ||| 'a' <= c <= 'z'
    ||| 'A' <= c <= 'Z'
    ||| '0' <= c <= '9'
    ||| c == ':'
    ||| c == '-'
    ||| c == '_'
}

/// Anything but white space, `=`, `>` and `/`.
pub open spec fn attribute_name_char(c: char) -> bool {
    !blank_char(c) && c != '=' && c != '>' && c != '/'
}

pub open spec fn quote_char(c: char) -> bool {
    c == '\'' || c == '"'
}

/// The mark stands inside a tag, before its end.
pub open spec fn inside_tag(mark: Mark) -> bool {
    match mark.kind {
        HtmlSyntaxKind::TagName
        | HtmlSyntaxKind::AttributeName
        | HtmlSyntaxKind::AttributeValue => true,
        HtmlSyntaxKind::Doctype
        | HtmlSyntaxKind::Comment
        | HtmlSyntaxKind::TagDelimiter => false,
    }
}

/// The mark is the start of a tag.
pub open spec fn opens_tag(source: Seq<char>, mark: Mark) -> bool {
    mark.kind == HtmlSyntaxKind::TagDelimiter && source[mark.start] == '<'
}

/// The mark is the end of a tag.
pub open spec fn ends_tag(source: Seq<char>, mark: Mark) -> bool {
    mark.kind == HtmlSyntaxKind::TagDelimiter && source[mark.start] != '<'
}

/// `<!--` stands at `at`.
pub open spec fn comment_opens(source: Seq<char>, at: int) -> bool {
    &&& at + 4 <= source.len()
    &&& source[at] == '<'
    &&& source[at + 1] == '!'
    &&& source[at + 2] == '-'
    &&& source[at + 3] == '-'
}

/// `<!doctype`, of any case, stands at `at`.
pub open spec fn doctype_opens(source: Seq<char>, at: int) -> bool {
    &&& at + 9 <= source.len()
    &&& text::ascii_lowered(source.subrange(at, at + 9)) == seq![
        '<',
        '!',
        'd',
        'o',
        'c',
        't',
        'y',
        'p',
        'e',
    ]
}

/// `-->` stands at `at`.
pub open spec fn comment_closes(source: Seq<char>, at: int) -> bool {
    &&& 0 <= at
    &&& at + 3 <= source.len()
    &&& source[at] == '-'
    &&& source[at + 1] == '-'
    &&& source[at + 2] == '>'
}

/// What a mark covers.
/// - A comment starts with `<!--` and ends behind the first `-->` after that, or
///   with the source.
/// - A doctype starts with `<!doctype`, of any case, and ends behind the first
///   `>`, or with the source.
/// - A delimiter is one of `<`, `</`, `>` and `/>`.
/// - The name of a tag and that of an attribute are longest runs of their
///   characters.
/// - The value of an attribute starts with a quote and ends behind the next one of
///   the same sort, or with the source.
pub open spec fn covers_its_text(source: Seq<char>, mark: Mark) -> bool {
    &&& 0 <= mark.start < mark.end <= source.len()
    &&& match mark.kind {
        HtmlSyntaxKind::Comment => {
            &&& comment_opens(source, mark.start)
            &&& mark.start + 4 <= mark.end
            &&& forall|k: int|
                mark.start + 4 <= k < mark.end - 3 ==> !#[trigger] comment_closes(source, k)
            &&& {
                ||| (mark.start + 7 <= mark.end && comment_closes(source, mark.end - 3))
                ||| (mark.end == source.len() && forall|k: int|
                    mark.start + 4 <= k ==> !#[trigger] comment_closes(source, k))
            }
        },
        HtmlSyntaxKind::Doctype => {
            &&& doctype_opens(source, mark.start)
            &&& forall|k: int| mark.start <= k < mark.end - 1 ==> #[trigger] source[k] != '>'
            &&& source[mark.end - 1] == '>' || mark.end == source.len()
        },
        HtmlSyntaxKind::TagDelimiter => {
            ||| (source[mark.start] == '<' && mark.end == mark.start + 1 && !(mark.end
                < source.len() && source[mark.end] == '/') && !comment_opens(source, mark.start)
                && !doctype_opens(source, mark.start))
            ||| (source[mark.start] == '<' && mark.end == mark.start + 2 && source[mark.start + 1]
                == '/')
            ||| (source[mark.start] == '>' && mark.end == mark.start + 1)
            ||| (source[mark.start] == '/' && mark.end == mark.start + 2 && source[mark.start + 1]
                == '>')
        },
        HtmlSyntaxKind::TagName => {
            &&& forall|k: int| mark.start <= k < mark.end ==> tag_name_char(#[trigger] source[k])
            &&& mark.end == source.len() || !tag_name_char(source[mark.end])
        },
        HtmlSyntaxKind::AttributeName => {
            &&& forall|k: int|
                mark.start <= k < mark.end ==> attribute_name_char(#[trigger] source[k])
            &&& mark.end == source.len() || !attribute_name_char(source[mark.end])
        },
        HtmlSyntaxKind::AttributeValue => {
            &&& quote_char(source[mark.start])
            &&& forall|k: int|
                mark.start < k < mark.end - 1 ==> #[trigger] source[k] != source[mark.start]
            &&& {
                ||| (mark.end > mark.start + 1 && source[mark.end - 1] == source[mark.start])
                ||| (mark.end == source.len() && forall|k: int|
                    mark.start < k < mark.end ==> #[trigger] source[k] != source[mark.start])
            }
        },
    }
}

/// White space and then a character of a tag name follow from `from` on.
pub open spec fn name_follows(source: Seq<char>, from: int) -> bool {
    exists|at: int|
        from <= at < source.len() && blank_between(source, from, at) && tag_name_char(
            #[trigger] source[at],
        )
}

/// An `=` at `equals` and a value at `value` follow from `from` on, with nothing
/// but white space in between.
pub open spec fn value_follows(source: Seq<char>, from: int, equals: int, value: int) -> bool {
    &&& from <= equals < value
    &&& equals < source.len()
    &&& blank_between(source, from, equals)
    &&& source[equals] == '='
    &&& blank_between(source, equals + 1, value)
}

/// An `=` and a quoted value follow from `from` on.
pub open spec fn quoted_value_follows(source: Seq<char>, from: int) -> bool {
    exists|equals: int, value: int|
        #[trigger] value_follows(source, from, equals, value) && value < source.len()
            && quote_char(source[value])
}

/// The character at `at` belongs to a value without quotes that an `=` behind
/// `from` introduces.
pub open spec fn in_bare_value(source: Seq<char>, from: int, at: int) -> bool {
    exists|equals: int, value: int|
        {
            &&& #[trigger] value_follows(source, from, equals, value)
            &&& value <= at
            &&& !quote_char(source[value])
            &&& forall|k: int|
                value <= k <= at ==> !blank_char(#[trigger] source[k]) && source[k] != '>'
        }
}

/// The character at `at`, inside a tag behind `mark`, is none to be highlighted:
/// it is white space, an `=`, a `/` that does not end the tag, or part of a
/// value without quotes of the attribute that `mark` names.
pub open spec fn plain_in_tag(source: Seq<char>, mark: Mark, at: int) -> bool {
    ||| blank_char(source[at])
    ||| source[at] == '='
    ||| (source[at] == '/' && !(at + 1 < source.len() && source[at + 1] == '>'))
    ||| (mark.kind == HtmlSyntaxKind::AttributeName && in_bare_value(source, mark.end, at))
}

/// Nothing from behind `mark` up to `to` ought to be highlighted, inside a tag.
pub open spec fn plain_until(source: Seq<char>, mark: Mark, to: int) -> bool {
    forall|at: int| mark.end <= at < to ==> #[trigger] plain_in_tag(source, mark, at)
}

/// No tag, comment or doctype starts from `from` up to `to`.
pub open spec fn no_tag_between(source: Seq<char>, from: int, to: int) -> bool {
    forall|at: int| from <= at < to ==> #[trigger] source[at] != '<'
}

/// The name of an attribute starts at `at`, behind `mark`: the longest run of its
/// characters goes back no further, unless the name of the tag or a quoted value
/// ends there.
pub open spec fn name_starts(source: Seq<char>, mark: Mark, at: int) -> bool {
    ||| (at == mark.end && mark.kind != HtmlSyntaxKind::AttributeName)
    ||| (at > 0 && !attribute_name_char(source[at - 1]))
}

/// What stands between two marks that follow each other.
/// - The name of a tag follows its start wherever one stands there, with nothing
///   but white space in between.
/// - Inside a tag, nothing stands between the marks that ought to be highlighted;
///   so every attribute has its name highlighted, whether or not an `=` follows.
/// - A quoted value follows the name of its attribute wherever one stands there, and a value
///   without quotes is left out as a whole.
/// - The end of a tag follows only inside a tag, and the start of one, a comment or
///   a doctype only outside; and outside, none of these is left out. (What the end
///   of a tag is followed by can be raw text.)
pub open spec fn in_succession(source: Seq<char>, first: Mark, second: Mark) -> bool {
    &&& first.end <= second.start
    &&& second.kind == HtmlSyntaxKind::TagName <==> opens_tag(source, first) && name_follows(
        source,
        first.end,
    )
    &&& second.kind == HtmlSyntaxKind::TagName ==> blank_between(source, first.end, second.start)
    &&& second.kind == HtmlSyntaxKind::AttributeValue <==> first.kind
        == HtmlSyntaxKind::AttributeName && quoted_value_follows(source, first.end)
    &&& second.kind == HtmlSyntaxKind::AttributeValue ==> exists|equals: int| #[trigger]
        value_follows(source, first.end, equals, second.start)
    &&& second.kind == HtmlSyntaxKind::AttributeName ==> inside_tag(first) && plain_until(
        source,
        first,
        second.start,
    ) && name_starts(source, first, second.start)
    &&& ends_tag(source, second) ==> inside_tag(first) && plain_until(source, first, second.start)
    &&& first.kind == HtmlSyntaxKind::AttributeName && (second.kind == HtmlSyntaxKind::AttributeName
        || ends_tag(source, second)) ==> !in_bare_value(source, first.end, second.start)
    &&& opens_tag(source, second) || second.kind == HtmlSyntaxKind::Comment || second.kind
        == HtmlSyntaxKind::Doctype ==> !inside_tag(first) && (ends_tag(source, first)
        || no_tag_between(source, first.end, second.start))
}

/// Behind the last mark, nothing is left out up to the end of the source.
pub open spec fn is_last(source: Seq<char>, mark: Mark) -> bool {
    &&& inside_tag(mark) ==> plain_until(source, mark, source.len() as int)
    &&& mark.kind == HtmlSyntaxKind::AttributeName ==> !quoted_value_follows(source, mark.end)
    &&& opens_tag(source, mark) ==> !name_follows(source, mark.end)
    &&& opens_tag(source, mark) || mark.kind == HtmlSyntaxKind::Comment || mark.kind
        == HtmlSyntaxKind::Doctype ==> no_tag_between(source, mark.end, source.len() as int)
}

/// Each mark covers its text.
pub open spec fn all_cover(source: Seq<char>, marks: Seq<Mark>) -> bool {
    forall|i: int| 0 <= i < marks.len() ==> covers_its_text(source, #[trigger] marks[i])
}

/// The marks follow each other as they should.
pub open spec fn all_succeed(source: Seq<char>, marks: Seq<Mark>) -> bool {
    forall|i: int, j: int|
        #![trigger marks[i], marks[j]]
        0 <= i && j == i + 1 && j < marks.len() ==> in_succession(source, marks[i], marks[j])
}

proof fn lemma_run(source: Seq<char>, from: int, run: Run)
    requires
        0 <= from <= source.len(),
    ensures
        from <= html_syntax::run_end(source, from, run) <= source.len(),
        forall|k: int|
            from <= k < html_syntax::run_end(source, from, run) ==> html_syntax::in_run(
                run,
                #[trigger] source[k],
            ),
        html_syntax::run_end(source, from, run) < source.len() ==> !html_syntax::in_run(
            run,
            source[html_syntax::run_end(source, from, run)],
        ),
    decreases source.len() - from,
{
    if from < source.len() && html_syntax::in_run(run, source[from]) {
        lemma_run(source, from + 1, run);
    }
}

/// Where the white space behind `from` ends at `to` without an `=`, no value
/// follows.
proof fn lemma_no_value(source: Seq<char>, from: int, to: int)
    requires
        0 <= from <= to <= source.len(),
        blank_between(source, from, to),
        to == source.len() || (!blank_char(source[to]) && source[to] != '='),
    ensures
        !quoted_value_follows(source, from),
{
    assert forall|equals: int, value: int| !#[trigger] value_follows(
        source,
        from,
        equals,
        value,
    ) by {
        if value_follows(source, from, equals, value) {
            if equals < to {
                assert(blank_char(source[equals]));
            } else if equals > to {
                assert(blank_char(source[to]));
            }
        }
    }
}

/// Where the value behind the `=` at `equals` is not quoted, no quoted value
/// follows.
proof fn lemma_no_quoted_value(source: Seq<char>, from: int, equals: int, value: int)
    requires
        0 <= from,
        value_follows(source, from, equals, value),
        value == source.len() || (value < source.len() && !blank_char(source[value])
            && !quote_char(source[value])),
    ensures
        !quoted_value_follows(source, from),
{
    assert forall|other: int, at: int| #[trigger]
        value_follows(source, from, other, at) && at < source.len() implies !quote_char(
        source[at],
    ) by {
        if other < equals {
            assert(blank_char(source[other]));
        } else if other > equals {
            assert(blank_char(source[equals]));
        }
        if at < value {
            assert(blank_char(source[at]));
        } else if at > value {
            assert(blank_char(source[value]));
        }
    }
}

/// Where no value follows, nothing is part of one.
proof fn lemma_no_bare_value(source: Seq<char>, from: int, to: int)
    requires
        0 <= from <= to <= source.len(),
        blank_between(source, from, to),
        to == source.len() || (!blank_char(source[to]) && source[to] != '='),
    ensures
        forall|at: int| !in_bare_value(source, from, at),
{
    assert forall|equals: int, value: int| !#[trigger] value_follows(
        source,
        from,
        equals,
        value,
    ) by {
        if value_follows(source, from, equals, value) {
            if equals < to {
                assert(blank_char(source[equals]));
            } else if equals > to {
                assert(blank_char(source[to]));
            }
        }
    }
}

/// A value without quotes ends where white space or `>` stands.
proof fn lemma_bare_value_ends(source: Seq<char>, from: int, equals: int, value: int, end: int)
    requires
        0 <= from,
        value_follows(source, from, equals, value),
        value <= end <= source.len(),
        value < source.len() ==> !blank_char(source[value]),
        end == source.len() || blank_char(source[end]) || source[end] == '>',
    ensures
        forall|at: int| end <= at < source.len() ==> !#[trigger] in_bare_value(source, from, at),
{
    assert forall|at: int| end <= at < source.len() implies !#[trigger] in_bare_value(
        source,
        from,
        at,
    ) by {
        if in_bare_value(source, from, at) {
            let (e, v) = choose|e: int, v: int|
                {
                    &&& #[trigger] value_follows(source, from, e, v)
                    &&& v <= at
                    &&& !quote_char(source[v])
                    &&& forall|k: int|
                        v <= k <= at ==> !blank_char(#[trigger] source[k]) && source[k] != '>'
                };
            if e < equals {
                assert(blank_char(source[e]));
            } else if e > equals {
                assert(blank_char(source[equals]));
            }
            assert(!blank_char(source[v]));
            if v < value {
                assert(blank_char(source[v]));
            } else if v > value {
                assert(blank_char(source[value]));
            }
            assert(!blank_char(source[end]) && source[end] != '>');
        }
    }
}

proof fn lemma_joined(source: Seq<char>, head: Seq<Mark>, tail: Seq<Mark>)
    requires
        head.len() > 0,
        all_succeed(source, head),
        all_succeed(source, seq![head.last()] + tail),
    ensures
        all_succeed(source, head + tail),
{
    let marks = head + tail;
    let linked = seq![head.last()] + tail;
    assert forall|i: int, j: int|
        #![trigger marks[i], marks[j]]
        0 <= i && j == i + 1 && j < marks.len() implies in_succession(
        source,
        marks[i],
        marks[j],
    ) by {
        if j < head.len() {
            assert(marks[i] == head[i] && marks[j] == head[j]);
        } else {
            let k = i - head.len() + 1;
            assert(linked[k] == marks[i]);
            assert(linked[k + 1] == marks[j]);
        }
    }
}

proof fn lemma_all_cover_joined(source: Seq<char>, head: Seq<Mark>, tail: Seq<Mark>)
    requires
        all_cover(source, head),
        all_cover(source, tail),
    ensures
        all_cover(source, head + tail),
{
    let marks = head + tail;
    assert forall|i: int| 0 <= i < marks.len() implies covers_its_text(
        source,
        #[trigger] marks[i],
    ) by {
        if i < head.len() {
            assert(marks[i] == head[i]);
        } else {
            assert(marks[i] == tail[i - head.len()]);
        }
    }
}

/// The marks of the attributes of a tag and of its end, behind a mark inside the
/// tag.
proof fn lemma_attributes(source: Seq<char>, before: Mark, from: int)
    requires
        0 <= before.start < before.end <= from <= source.len(),
        inside_tag(before),
        plain_until(source, before, from),
        name_starts(source, before, from) || from == source.len() || !attribute_name_char(
            source[from],
        ),
        before.kind == HtmlSyntaxKind::AttributeName ==> !quoted_value_follows(source, before.end),
        before.kind == HtmlSyntaxKind::AttributeName ==> forall|at: int|
            from <= at < source.len() ==> !#[trigger] in_bare_value(source, before.end, at),
    ensures
        ({
            let (marks, end) = html_syntax::attribute_marks(source, from);
            let linked = seq![before] + marks;
            &&& from <= end <= source.len()
            &&& all_cover(source, marks)
            &&& all_succeed(source, linked)
            &&& if inside_tag(linked.last()) {
                &&& end == source.len()
                &&& plain_until(source, linked.last(), end)
                &&& linked.last().kind == HtmlSyntaxKind::AttributeName ==> !quoted_value_follows(
                    source,
                    linked.last().end,
                )
            } else {
                &&& ends_tag(source, linked.last())
                &&& linked.last().end == end
            }
        }),
    decreases source.len() - from,
{
    let at = html_syntax::run_end(source, from, Run::White);
    lemma_run(source, from, Run::White);
    assert(plain_until(source, before, at)) by {
        assert forall|k: int| before.end <= k < at implies #[trigger] plain_in_tag(
            source,
            before,
            k,
        ) by {
            if k >= from {
                assert(html_syntax::in_run(Run::White, source[k]));
            }
        }
    }
    let (marks, end) = html_syntax::attribute_marks(source, from);
    let linked = seq![before] + marks;
    if at >= source.len() {
        assert(linked =~= seq![before]);
    } else if text::matches_at(source, at, seq!['/', '>']) {
        assert(source.subrange(at, at + 2)[0] == source[at]);
        assert(source.subrange(at, at + 2)[1] == source[at + 1]);
        assert(linked =~= seq![before, marks[0]]);
        assert(in_succession(source, before, marks[0]));
    } else if source[at] == '>' {
        assert(linked =~= seq![before, marks[0]]);
        assert(in_succession(source, before, marks[0]));
    } else {
        let name_end = html_syntax::run_end(source, at, Run::AttributeName);
        lemma_run(source, at, Run::AttributeName);
        if name_end == at {
            assert(source[at] == '=' || source[at] == '/');
            if source[at] == '/' && at + 1 < source.len() && source[at + 1] == '>' {
                assert(source.subrange(at, at + 2) =~= seq!['/', '>']);
            }
            assert(plain_until(source, before, at + 1)) by {
                assert forall|k: int| before.end <= k < at + 1 implies #[trigger] plain_in_tag(
                    source,
                    before,
                    k,
                ) by {}
            }
            lemma_attributes(source, before, at + 1);
        } else {
            let name = Mark { kind: HtmlSyntaxKind::AttributeName, start: at, end: name_end };
            assert(covers_its_text(source, name)) by {
                assert forall|k: int| name.start <= k < name.end implies attribute_name_char(
                    #[trigger] source[k],
                ) by {
                    assert(html_syntax::in_run(Run::AttributeName, source[k]));
                }
            }
            assert(attribute_name_char(source[at]));
            assert(name_starts(source, before, at)) by {
                if at > from {
                    assert(blank_char(source[at - 1]));
                }
            }
            assert(in_succession(source, before, name));
            let equals = html_syntax::run_end(source, name_end, Run::White);
            lemma_run(source, name_end, Run::White);
            assert(blank_between(source, name_end, equals)) by {
                assert forall|k: int| name_end <= k < equals implies blank_char(
                    #[trigger] source[k],
                ) by {
                    assert(html_syntax::in_run(Run::White, source[k]));
                }
            }
            if equals >= source.len() || source[equals] != '=' {
                lemma_no_value(source, name_end, equals);
                lemma_no_bare_value(source, name_end, equals);
                assert(plain_until(source, name, equals)) by {
                    assert forall|k: int| name.end <= k < equals implies #[trigger] plain_in_tag(
                        source,
                        name,
                        k,
                    ) by {}
                }
                if equals > name_end {
                    assert(blank_char(source[equals - 1]));
                }
                lemma_attributes(source, name, equals);
                let rest = html_syntax::attribute_marks(source, equals);
                let head = seq![before, name];
                lemma_joined(source, head, rest.0);
                lemma_all_cover_joined(source, seq![name], rest.0);
                assert(linked =~= head + rest.0);
                assert((seq![name] + rest.0).last() == linked.last());
            } else {
                let value = html_syntax::run_end(source, equals + 1, Run::White);
                lemma_run(source, equals + 1, Run::White);
                assert(blank_between(source, equals + 1, value)) by {
                    assert forall|k: int| equals + 1 <= k < value implies blank_char(
                        #[trigger] source[k],
                    ) by {
                        assert(html_syntax::in_run(Run::White, source[k]));
                    }
                }
                assert(value_follows(source, name_end, equals, value));
                if value < source.len() && (source[value] == '\'' || source[value] == '"') {
                    let quote = source[value];
                    let close = html_syntax::run_end(source, value + 1, Run::Until(quote));
                    lemma_run(source, value + 1, Run::Until(quote));
                    let value_end = html_syntax::past(source, close);
                    let quoted = Mark {
                        kind: HtmlSyntaxKind::AttributeValue,
                        start: value,
                        end: value_end,
                    };
                    assert(covers_its_text(source, quoted)) by {
                        assert forall|k: int| value < k < close implies #[trigger] source[k]
                            != quote by {
                            assert(html_syntax::in_run(Run::Until(quote), source[k]));
                        }
                    }
                    assert(quoted_value_follows(source, name_end));
                    assert(in_succession(source, name, quoted));
                    lemma_attributes(source, quoted, value_end);
                    let rest = html_syntax::attribute_marks(source, value_end);
                    let head = seq![before, name, quoted];
                    lemma_joined(source, head, rest.0);
                    lemma_all_cover_joined(source, seq![name, quoted], rest.0);
                    assert(linked =~= head + rest.0);
                    assert((seq![quoted] + rest.0).last() == linked.last());
                } else {
                    let value_end = html_syntax::run_end(source, value, Run::BareValue);
                    lemma_run(source, value, Run::BareValue);
                    lemma_no_quoted_value(source, name_end, equals, value);
                    lemma_bare_value_ends(source, name_end, equals, value, value_end);
                    assert(plain_until(source, name, value_end)) by {
                        assert forall|k: int|
                            name.end <= k < value_end implies #[trigger] plain_in_tag(
                            source,
                            name,
                            k,
                        ) by {
                            if k >= value {
                                assert forall|p: int| value <= p <= k implies !blank_char(
                                    #[trigger] source[p],
                                ) && source[p] != '>' by {
                                    assert(html_syntax::in_run(Run::BareValue, source[p]));
                                }
                                assert(in_bare_value(source, name.end, k));
                            }
                        }
                    }
                    lemma_attributes(source, name, value_end);
                    let rest = html_syntax::attribute_marks(source, value_end);
                    let head = seq![before, name];
                    lemma_joined(source, head, rest.0);
                    lemma_all_cover_joined(source, seq![name], rest.0);
                    assert(linked =~= head + rest.0);
                    assert((seq![name] + rest.0).last() == linked.last());
                }
            }
        }
    }
}

/// The letters of two names are the same but for their case.
pub open spec fn same_but_case(left: Seq<char>, right: Seq<char>) -> bool {
    &&& left.len() == right.len()
    &&& forall|k: int|
        0 <= k < left.len() ==> text::ascii_lower(#[trigger] left[k]) == text::ascii_lower(right[k])
}

/// The content of an element of this name is not markup: `style` and `script`.
pub open spec fn holds_raw_text(name: Seq<char>) -> bool {
    ||| same_but_case(name, seq!['s', 't', 'y', 'l', 'e'])
    ||| same_but_case(name, seq!['s', 'c', 'r', 'i', 'p', 't'])
}

/// A tag that closes an element of this name stands at `at`.
pub open spec fn closing_tag_at(source: Seq<char>, at: int, name: Seq<char>) -> bool {
    let behind = at + 2 + name.len();
    &&& 0 <= at
    &&& behind < source.len()
    &&& source[at] == '<'
    &&& source[at + 1] == '/'
    &&& same_but_case(source.subrange(at + 2, behind), name)
    &&& blank_char(source[behind]) || source[behind] == '/' || source[behind] == '>'
}

/// The tag whose end is the mark at `last` starts with the marks before and at
/// `name`: its start and its name; in between stand marks of its attributes.
pub open spec fn is_tag(source: Seq<char>, marks: Seq<Mark>, name: int, last: int) -> bool {
    &&& 1 <= name < last < marks.len()
    &&& opens_tag(source, marks[name - 1])
    &&& marks[name].kind == HtmlSyntaxKind::TagName
    &&& ends_tag(source, marks[last])
    &&& forall|k: int| name < k < last ==> inside_tag(#[trigger] marks[k])
}

/// Where the mark behind the one at `last` starts, or the source ends.
pub open spec fn next_start(source: Seq<char>, marks: Seq<Mark>, last: int) -> int {
    if last + 1 < marks.len() {
        marks[last + 1].start
    } else {
        source.len() as int
    }
}

/// Behind the tag, nothing is left out: the next mark is at the next `<`, or, where
/// the tag opens an element whose content is not markup, at the tag that closes it.
pub open spec fn continues_behind(
    source: Seq<char>,
    start: Mark,
    name: Mark,
    last: Mark,
    to: int,
) -> bool {
    let called = source.subrange(name.start, name.end);
    if start.end == start.start + 1 && holds_raw_text(called) {
        &&& forall|k: int| last.end <= k < to ==> !#[trigger] closing_tag_at(source, k, called)
        &&& to == source.len() || closing_tag_at(source, to, called)
    } else {
        no_tag_between(source, last.end, to)
    }
}

/// Each end of a tag belongs to a tag, and nothing is left out behind it.
pub open spec fn all_continue(source: Seq<char>, marks: Seq<Mark>) -> bool {
    forall|last: int|
        0 <= last < marks.len() && ends_tag(source, #[trigger] marks[last]) ==> exists|name: int|
            #[trigger] is_tag(source, marks, name, last) && continues_behind(
                source,
                marks[name - 1],
                marks[name],
                marks[last],
                next_start(source, marks, last),
            )
}

proof fn lemma_raw_name(name: Seq<char>)
    ensures
        html_syntax::raw_text_name(name) == holds_raw_text(name),
{
    let lowered = text::ascii_lowered(name);
    let style = seq!['s', 't', 'y', 'l', 'e'];
    let script = seq!['s', 'c', 'r', 'i', 'p', 't'];
    assert(text::ascii_lowered(style) =~= style);
    assert(text::ascii_lowered(script) =~= script);
    lemma_same_but_case(name, style);
    lemma_same_but_case(name, script);
}

proof fn lemma_same_but_case(left: Seq<char>, right: Seq<char>)
    ensures
        same_but_case(left, right) == (text::ascii_lowered(left) == text::ascii_lowered(right)),
{
    let a = text::ascii_lowered(left);
    let b = text::ascii_lowered(right);
    if same_but_case(left, right) {
        assert(a =~= b);
    }
    if a == b {
        assert(left.len() == a.len() && right.len() == b.len());
        assert forall|k: int| 0 <= k < left.len() implies text::ascii_lower(#[trigger] left[k])
            == text::ascii_lower(right[k]) by {
            assert(a[k] == b[k]);
        }
    }
}

proof fn lemma_closing_tag(source: Seq<char>, at: int, name: Seq<char>)
    ensures
        html_syntax::closes_raw_text(source, at, name) == closing_tag_at(source, at, name),
{
    lemma_same_but_case(source.subrange(at + 2, at + 2 + name.len()), name);
}

proof fn lemma_raw_text(source: Seq<char>, from: int, name: Seq<char>)
    requires
        0 <= from <= source.len(),
    ensures
        ({
            let to = html_syntax::raw_text_end(source, from, name);
            &&& from <= to <= source.len()
            &&& forall|k: int| from <= k < to ==> !#[trigger] closing_tag_at(source, k, name)
            &&& to == source.len() || closing_tag_at(source, to, name)
        }),
    decreases source.len() - from,
{
    lemma_closing_tag(source, from, name);
    if from < source.len() && !html_syntax::closes_raw_text(source, from, name) {
        lemma_raw_text(source, from + 1, name);
    }
}

proof fn lemma_comment(source: Seq<char>, from: int)
    requires
        0 <= from <= source.len(),
    ensures
        ({
            let to = html_syntax::comment_end(source, from);
            &&& from <= to <= source.len()
            &&& forall|k: int| from <= k < to - 3 ==> !#[trigger] comment_closes(source, k)
            &&& {
                ||| (from + 3 <= to && comment_closes(source, to - 3))
                ||| (to == source.len() && forall|k: int|
                    from <= k ==> !#[trigger] comment_closes(source, k))
            }
        }),
    decreases source.len() - from,
{
    let closing = seq!['-', '-', '>'];
    if from < source.len() {
        assert(text::matches_at(source, from, closing) == comment_closes(source, from)) by {
            if from + 3 <= source.len() {
                let part = source.subrange(from, from + 3);
                assert(part[0] == source[from] && part[1] == source[from + 1] && part[2]
                    == source[from + 2]);
                if comment_closes(source, from) {
                    assert(part =~= closing);
                }
            }
        }
        if !text::matches_at(source, from, closing) {
            lemma_comment(source, from + 1);
        }
    }
}

proof fn lemma_tag(source: Seq<char>, at: int)
    requires
        0 <= at < source.len(),
        source[at] == '<',
        !comment_opens(source, at),
        !doctype_opens(source, at),
    ensures
        ({
            let (marks, next) = html_syntax::tag_marks(source, at);
            &&& at < next <= source.len()
            &&& marks.len() > 0
            &&& all_cover(source, marks)
            &&& all_succeed(source, marks)
            &&& marks[0].start == at
            &&& opens_tag(source, marks[0])
            &&& forall|k: int|
                0 < k < marks.len() - 1 ==> inside_tag(#[trigger] marks[k])
            &&& if marks.len() == 1 {
                next == marks[0].end && !name_follows(source, next)
            } else {
                &&& marks[1].kind == HtmlSyntaxKind::TagName
                &&& if inside_tag(marks.last()) {
                    next == source.len() && is_last(source, marks.last())
                } else {
                    let called = source.subrange(marks[1].start, marks[1].end);
                    &&& ends_tag(source, marks.last())
                    &&& marks.last().end <= next
                    &&& if marks[0].end == at + 1 && holds_raw_text(called) {
                        &&& forall|k: int|
                            marks.last().end <= k < next ==> !#[trigger] closing_tag_at(
                                source,
                                k,
                                called,
                            )
                        &&& next == source.len() || closing_tag_at(source, next, called)
                    } else {
                        next == marks.last().end
                    }
                }
            }
        }),
{
    let (marks, next) = html_syntax::tag_marks(source, at);
    let closing = at + 1 < source.len() && source[at + 1] == '/';
    let delimiter_end: int = if closing {
        at + 2
    } else {
        at + 1
    };
    let delimiter = Mark { kind: HtmlSyntaxKind::TagDelimiter, start: at, end: delimiter_end };
    let name_start = html_syntax::run_end(source, delimiter_end, Run::White);
    lemma_run(source, delimiter_end, Run::White);
    let name_end = html_syntax::run_end(source, name_start, Run::TagName);
    lemma_run(source, name_start, Run::TagName);
    assert(covers_its_text(source, delimiter));
    assert(blank_between(source, delimiter_end, name_start)) by {
        assert forall|k: int| delimiter_end <= k < name_start implies blank_char(
            #[trigger] source[k],
        ) by {
            assert(html_syntax::in_run(Run::White, source[k]));
        }
    }
    if name_end == name_start {
        assert(marks =~= seq![delimiter]);
        assert(!name_follows(source, delimiter_end)) by {
            if name_follows(source, delimiter_end) {
                let p = choose|p: int|
                    delimiter_end <= p < source.len() && blank_between(source, delimiter_end, p)
                        && tag_name_char(#[trigger] source[p]);
                if p < name_start {
                    assert(blank_char(source[p]));
                } else if p > name_start {
                    assert(blank_char(source[name_start]));
                }
            }
        }
    } else {
        let name = Mark { kind: HtmlSyntaxKind::TagName, start: name_start, end: name_end };
        assert(covers_its_text(source, name)) by {
            assert forall|k: int| name_start <= k < name_end implies tag_name_char(
                #[trigger] source[k],
            ) by {
                assert(html_syntax::in_run(Run::TagName, source[k]));
            }
        }
        assert(tag_name_char(source[name_start]));
        assert(name_follows(source, delimiter_end));
        assert(in_succession(source, delimiter, name));
        lemma_attributes(source, name, name_end);
        let rest = html_syntax::attribute_marks(source, name_end);
        let head = seq![delimiter, name];
        lemma_joined(source, head, rest.0);
        lemma_all_cover_joined(source, head, rest.0);
        assert(marks =~= head + rest.0);
        let linked = seq![name] + rest.0;
        assert(linked.last() == marks.last());
        let called = source.subrange(name_start, name_end);
        lemma_raw_name(called);
        lemma_raw_text(source, rest.1, called);
        assert(marks[0] == delimiter && marks[1] == name);
        assert forall|k: int| 0 < k < marks.len() - 1 implies inside_tag(#[trigger] marks[k]) by {
            if k > 1 {
                lemma_rest_is_inside(source, name_end, k - 2);
                assert(marks[k] == rest.0[k - 2]);
            }
        }
    }
}

/// Only the last mark of the attributes of a tag and of its end can be that end.
proof fn lemma_rest_is_inside(source: Seq<char>, from: int, k: int)
    requires
        0 <= from <= source.len(),
        0 <= k < html_syntax::attribute_marks(source, from).0.len() - 1,
    ensures
        inside_tag(html_syntax::attribute_marks(source, from).0[k]),
    decreases source.len() - from,
{
    let at = html_syntax::run_end(source, from, Run::White);
    lemma_run(source, from, Run::White);
    if at >= source.len() || text::matches_at(source, at, seq!['/', '>']) || source[at] == '>' {
    } else {
        let name_end = html_syntax::run_end(source, at, Run::AttributeName);
        lemma_run(source, at, Run::AttributeName);
        if name_end == at {
            lemma_rest_is_inside(source, at + 1, k);
        } else {
            let equals = html_syntax::run_end(source, name_end, Run::White);
            lemma_run(source, name_end, Run::White);
            if equals >= source.len() || source[equals] != '=' {
                if k >= 1 {
                    lemma_rest_is_inside(source, equals, k - 1);
                }
            } else {
                let value = html_syntax::run_end(source, equals + 1, Run::White);
                lemma_run(source, equals + 1, Run::White);
                if value < source.len() && (source[value] == '\'' || source[value] == '"') {
                    let close = html_syntax::run_end(source, value + 1, Run::Until(source[value]));
                    lemma_run(source, value + 1, Run::Until(source[value]));
                    if k >= 2 {
                        lemma_rest_is_inside(
                            source,
                            html_syntax::past(source, close),
                            k - 2,
                        );
                    }
                } else {
                    lemma_run(source, value, Run::BareValue);
                    if k >= 1 {
                        lemma_rest_is_inside(
                            source,
                            html_syntax::run_end(source, value, Run::BareValue),
                            k - 1,
                        );
                    }
                }
            }
        }
    }
}

/// The marks start at the first `<`.
pub open spec fn starts_right(source: Seq<char>, marks: Seq<Mark>, from: int) -> bool {
    if marks.len() == 0 {
        no_tag_between(source, from, source.len() as int)
    } else {
        &&& from <= marks[0].start
        &&& no_tag_between(source, from, marks[0].start)
        &&& opens_tag(source, marks[0]) || marks[0].kind == HtmlSyntaxKind::Comment
            || marks[0].kind == HtmlSyntaxKind::Doctype
    }
}

/// The marks say of the source from `from` on what each of them covers, and leave
/// nothing out.
pub open spec fn well_marked(source: Seq<char>, marks: Seq<Mark>, from: int) -> bool {
    &&& all_cover(source, marks)
    &&& all_succeed(source, marks)
    &&& all_continue(source, marks)
    &&& starts_right(source, marks, from)
    &&& marks.len() > 0 ==> is_last(source, marks.last())
}

/// Marks of one piece of markup, followed by those of the source behind it.
proof fn lemma_pieces_join(source: Seq<char>, head: Seq<Mark>, next: int, tail: Seq<Mark>, from: int)
    requires
        head.len() > 0,
        0 <= from <= next <= source.len(),
        all_cover(source, head),
        all_succeed(source, head),
        starts_right(source, head, from),
        well_marked(source, tail, next),
        inside_tag(head.last()) ==> next == source.len() && is_last(source, head.last()),
        opens_tag(source, head.last()) ==> next == head.last().end && !name_follows(source, next),
        head.last().kind == HtmlSyntaxKind::Comment || head.last().kind
            == HtmlSyntaxKind::Doctype ==> next == head.last().end,
        forall|k: int|
            0 <= k < head.len() - 1 ==> !ends_tag(source, #[trigger] head[k]),
        ends_tag(source, head.last()) ==> {
            &&& head.last().end <= next
            &&& is_tag(source, head, 1, head.len() - 1)
            &&& ({
                let called = source.subrange(head[1].start, head[1].end);
                if head[0].end == head[0].start + 1 && holds_raw_text(called) {
                    &&& forall|k: int|
                        head.last().end <= k < next ==> !#[trigger] closing_tag_at(
                            source,
                            k,
                            called,
                        )
                    &&& next == source.len() || closing_tag_at(source, next, called)
                } else {
                    next == head.last().end
                }
            })
        },
    ensures
        well_marked(source, head + tail, from),
{
    let marks = head + tail;
    let last = head.last();
    lemma_all_cover_joined(source, head, tail);
    assert(covers_its_text(source, last)) by {
        assert(head[head.len() - 1] == last);
    }
    let linked = seq![last] + tail;
    assert(all_succeed(source, linked)) by {
        assert forall|i: int, j: int|
            #![trigger linked[i], linked[j]]
            0 <= i && j == i + 1 && j < linked.len() implies in_succession(
            source,
            linked[i],
            linked[j],
        ) by {
            if i > 0 {
                assert(linked[i] == tail[i - 1] && linked[j] == tail[j - 1]);
            } else {
                assert(linked[j] == tail[0]);
                assert(covers_its_text(source, tail[0]));
                if inside_tag(last) {
                    assert(tail[0].start < source.len());
                }
                assert(in_succession(source, last, tail[0]));
            }
        }
    }
    lemma_joined(source, head, tail);
    assert(all_continue(source, marks)) by {
        assert forall|end: int|
            0 <= end < marks.len() && ends_tag(source, #[trigger] marks[end]) implies exists|
            name: int,
        |
            #[trigger] is_tag(source, marks, name, end) && continues_behind(
                source,
                marks[name - 1],
                marks[name],
                marks[end],
                next_start(source, marks, end),
            ) by {
            if end < head.len() {
                assert(marks[end] == head[end]);
                assert(end == head.len() - 1);
                assert(is_tag(source, marks, 1, end)) by {
                    assert forall|k: int| 1 < k < end implies inside_tag(#[trigger] marks[k]) by {
                        assert(marks[k] == head[k]);
                    }
                }
                let to = next_start(source, marks, end);
                let called = source.subrange(head[1].start, head[1].end);
                if tail.len() > 0 {
                    assert(marks[end + 1] == tail[0]);
                }
                if head[0].end == head[0].start + 1 && holds_raw_text(called) {
                    if next < source.len() {
                        assert(source[next] == '<');
                        assert(to == next);
                    } else {
                        if tail.len() > 0 {
                            assert(covers_its_text(source, tail[0]));
                        }
                        assert(to == source.len());
                    }
                }
                assert(continues_behind(source, marks[0], marks[1], marks[end], to));
            } else {
                let there = end - head.len();
                assert(marks[end] == tail[there]);
                let name = choose|name: int|
                    #[trigger] is_tag(source, tail, name, there) && continues_behind(
                        source,
                        tail[name - 1],
                        tail[name],
                        tail[there],
                        next_start(source, tail, there),
                    );
                let here = name + head.len();
                assert(marks[here] == tail[name] && marks[here - 1] == tail[name - 1]);
                assert(is_tag(source, marks, here, end)) by {
                    assert forall|k: int| here < k < end implies inside_tag(#[trigger] marks[k]) by {
                        assert(marks[k] == tail[k - head.len()]);
                    }
                }
                assert(next_start(source, marks, end) == next_start(source, tail, there));
            }
        }
    }
    assert(marks[0] == head[0]);
    if tail.len() > 0 {
        assert(marks.last() == tail.last());
    } else {
        assert(marks.last() == last);
    }
}

proof fn lemma_marked_from(source: Seq<char>, from: int)
    requires
        0 <= from <= source.len(),
    ensures
        well_marked(source, html_syntax::marks_from(source, from), from),
    decreases source.len() - from,
{
    let marks = html_syntax::marks_from(source, from);
    let opening = seq!['<', '!', '-', '-'];
    if from < source.len() {
        assert(text::matches_at(source, from, opening) == comment_opens(source, from)) by {
            if from + 4 <= source.len() {
                let part = source.subrange(from, from + 4);
                assert(part[0] == source[from] && part[1] == source[from + 1] && part[2]
                    == source[from + 2] && part[3] == source[from + 3]);
                if comment_opens(source, from) {
                    assert(part =~= opening);
                }
            }
        }
    }
    if from >= source.len() {
    } else if text::matches_at(source, from, opening) {
        let end = html_syntax::comment_end(source, from + 4);
        lemma_comment(source, from + 4);
        lemma_marked_from(source, end);
        let mark = Mark { kind: HtmlSyntaxKind::Comment, start: from, end };
        assert(covers_its_text(source, mark));
        lemma_pieces_join(
            source,
            seq![mark],
            end,
            html_syntax::marks_from(source, end),
            from,
        );
    } else if html_syntax::doctype_at(source, from) {
        let stop = html_syntax::run_end(source, from, Run::Until('>'));
        let end = html_syntax::past(source, stop);
        lemma_run(source, from, Run::Until('>'));
        html_syntax::lemma_doctype_advances(source, from);
        lemma_marked_from(source, end);
        let mark = Mark { kind: HtmlSyntaxKind::Doctype, start: from, end };
        assert(covers_its_text(source, mark)) by {
            assert forall|k: int| from <= k < stop implies #[trigger] source[k] != '>' by {
                assert(html_syntax::in_run(Run::Until('>'), source[k]));
            }
        }
        lemma_pieces_join(
            source,
            seq![mark],
            end,
            html_syntax::marks_from(source, end),
            from,
        );
    } else if source[from] != '<' {
        lemma_marked_from(source, from + 1);
    } else {
        let tag = html_syntax::tag_marks(source, from);
        lemma_tag(source, from);
        lemma_marked_from(source, tag.1);
        let head = tag.0;
        assert forall|k: int| 0 <= k < head.len() - 1 implies !ends_tag(
            source,
            #[trigger] head[k],
        ) by {}
        lemma_pieces_join(source, head, tag.1, html_syntax::marks_from(source, tag.1), from);
    }
}

/// The marks of a source cover what they should and leave nothing out. Inside a
/// tag, behind its name, a character without a mark is white space, an `=`, a `/`
/// that does not end the tag, or part of a value without quotes; so each longest run
/// of other characters that starts an attribute is one mark of its name, whether or
/// not an `=` follows, and each quoted value is one mark. Outside tags every `<` has
/// a mark, but in the content of `style` and `script`.
pub proof fn lemma_source_is_well_marked(source: Seq<char>)
    ensures
        well_marked(source, html_syntax::marks_from(source, 0), 0),
{
    lemma_marked_from(source, 0);
}

/// A character inside a tag that ought to be highlighted has a mark: where the
/// marks at `i` and behind it leave `at` out, with the mark at `i` inside a tag, the
/// character is none that an attribute name, a quoted value or the end of the tag
/// is made of, or it belongs to a value without quotes.
pub proof fn lemma_attribute_characters_are_marked(source: Seq<char>, i: int, at: int)
    requires
        0 <= i < html_syntax::marks_from(source, 0).len(),
        inside_tag(html_syntax::marks_from(source, 0)[i]),
        html_syntax::marks_from(source, 0)[i].end <= at < source.len(),
        i + 1 < html_syntax::marks_from(source, 0).len() ==> at < html_syntax::marks_from(
            source,
            0,
        )[i + 1].start,
    ensures
        ({
            ||| blank_char(source[at])
            ||| source[at] == '='
            ||| (source[at] == '/' && !(at + 1 < source.len() && source[at + 1] == '>'))
            ||| (html_syntax::marks_from(source, 0)[i].kind == HtmlSyntaxKind::AttributeName
                && in_bare_value(source, html_syntax::marks_from(source, 0)[i].end, at))
        }),
{
    let marks = html_syntax::marks_from(source, 0);
    lemma_source_is_well_marked(source);
    let mark = marks[i];
    if i + 1 < marks.len() {
        let second = marks[i + 1];
        assert(in_succession(source, mark, second));
        assert(covers_its_text(source, second));
        if second.kind == HtmlSyntaxKind::AttributeValue {
            let equals = choose|equals: int| #[trigger]
                value_follows(source, mark.end, equals, second.start);
            if at < equals {
                assert(blank_char(source[at]));
            } else if at > equals {
                assert(blank_char(source[at]));
            }
        } else {
            assert(plain_in_tag(source, mark, at));
        }
    } else {
        assert(mark == marks.last());
        assert(plain_in_tag(source, mark, at));
    }
}

/// The spans that are reported are those marks, each at the place and with the
/// length that it has in UTF-16 code units.
pub proof fn lemma_spans_tell_the_marks(
    source: Seq<char>,
    spans: Seq<html_syntax::HtmlSyntaxSpan>,
    i: int,
)
    requires
        html_syntax::spans_are(source, spans, html_syntax::marks_from(source, 0)),
        0 <= i < spans.len(),
    ensures
        ({
            let mark = html_syntax::marks_from(source, 0)[i];
            &&& spans.len() == html_syntax::marks_from(source, 0).len()
            &&& spans[i].kind == mark.kind
            &&& spans[i].location == text::utf16_len(source.take(mark.start))
            &&& spans[i].location + spans[i].length == text::utf16_len(source.take(mark.end))
        }),
{
    lemma_source_is_well_marked(source);
    let mark = html_syntax::marks_from(source, 0)[i];
    assert(covers_its_text(source, mark));
    text::lemma_utf16_len_prefix(source, mark.start, mark.end);
}

} // verus!
