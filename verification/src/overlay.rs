//! The script that every page of the preview runs for the collaboration tools.
use crate::json::{self, json_string};
use crate::text::{self, chars_of, find_from, text_of};
use vstd::prelude::*;
use vstd::string::*;

verus! {

/// What stands in the script for the style sheet.
pub const CSS_PLACEHOLDER: &'static str = "__OVERLAY_CSS_JSON__";

/// The first position from `from` on at which `pattern` stands, or the end of the
/// text.
pub open spec fn first_match(content: Seq<char>, pattern: Seq<char>, from: int) -> int
    decreases content.len() - from,
{
    if from >= content.len() {
        content.len() as int
    } else if text::matches_at(content, from, pattern) {
        from
    } else {
        first_match(content, pattern, from + 1)
    }
}

/// The text from `from` on with `pattern` replaced wherever it stands, from left to
/// right.
pub open spec fn replaced(
    content: Seq<char>,
    pattern: Seq<char>,
    replacement: Seq<char>,
    from: int,
) -> Seq<char>
    decreases content.len() - from,
{
    if from < 0 || from >= content.len() || pattern.len() == 0 {
        content.skip(from)
    } else {
        let at = first_match(content, pattern, from);
        proof {
            lemma_first_match(content, pattern, from);
        }
        if at == content.len() {
            content.skip(from)
        } else {
            content.subrange(from, at) + replacement + replaced(
                content,
                pattern,
                replacement,
                at + pattern.len(),
            )
        }
    }
}

/// The first position is where the pattern stands, or the end, and the pattern
/// stands nowhere before it.
pub proof fn lemma_first_match(content: Seq<char>, pattern: Seq<char>, from: int)
    requires
        0 <= from <= content.len(),
    ensures
        from <= first_match(content, pattern, from) <= content.len(),
        first_match(content, pattern, from) < content.len() ==> text::matches_at(
            content,
            first_match(content, pattern, from),
            pattern,
        ),
        forall|k: int|
            from <= k < first_match(content, pattern, from) ==> !#[trigger] text::matches_at(
                content,
                k,
                pattern,
            ),
    decreases content.len() - from,
{
    if from < content.len() && !text::matches_at(content, from, pattern) {
        lemma_first_match(content, pattern, from + 1);
    }
}

/// Replaces a pattern that is not empty wherever it stands.
fn replace_all(content: &str, pattern: &str, replacement: &str) -> (r: String)
    requires
        pattern@.len() > 0,
    ensures
        r@ == replaced(content@, pattern@, replacement@, 0),
{
    let chars = chars_of(content);
    let wanted = chars_of(pattern);
    let mut result = String::new();
    let mut from: usize = 0;
    let ghost whole = replaced(content@, pattern@, replacement@, 0);
    assert(result@ + whole =~= whole);
    while from < chars.len()
        invariant
            chars@ == content@,
            wanted@ == pattern@,
            pattern@.len() > 0,
            from <= chars@.len(),
            whole == result@ + replaced(content@, pattern@, replacement@, from as int),
        decreases chars.len() - from,
    {
        proof {
            lemma_first_match(content@, pattern@, from as int);
        }
        let ghost before = result@;
        match find_from(&chars, from, &wanted) {
            Some(at) => {
                assert(first_match(content@, pattern@, from as int) == at);
                result.append(text_of(&chars, from, at).as_str());
                result.append(replacement);
                let ghost rest = replaced(
                    content@,
                    pattern@,
                    replacement@,
                    at + pattern@.len(),
                );
                assert(before + (content@.subrange(from as int, at as int) + replacement@ + rest)
                    =~= result@ + rest);
                from = at + wanted.len();
            },
            None => {
                assert(first_match(content@, pattern@, from as int) == content@.len());
                result.append(text_of(&chars, from, chars.len()).as_str());
                assert(content@.skip(from as int) =~= content@.subrange(
                    from as int,
                    content@.len() as int,
                ));
                from = chars.len();
                assert(replaced(content@, pattern@, replacement@, from as int) =~= Seq::<
                    char,
                >::empty());
                assert(result@ + Seq::<char>::empty() =~= result@);
            },
        }
    }
    assert(replaced(content@, pattern@, replacement@, from as int) =~= Seq::<char>::empty());
    assert(result@ + Seq::<char>::empty() =~= result@);
    result
}

/// The script with the style sheet in it, as a string literal of JavaScript.
pub fn overlay_script(script: &str, style_sheet: &str) -> (r: String)
    ensures
        r@ == replaced(script@, CSS_PLACEHOLDER@, json::json_quoted(style_sheet@), 0),
{
    proof {
        reveal_strlit("__OVERLAY_CSS_JSON__");
    }
    replace_all(script, CSS_PLACEHOLDER, json_string(style_sheet).as_str())
}

} // verus!
