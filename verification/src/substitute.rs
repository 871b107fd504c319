//! Variable substitution.
//!
//! A placeholder is written `{{name}}`: two opening braces, a name of one or
//! more characters other than braces, and two closing braces. Text is read
//! from left to right. A placeholder whose name is that of a variable is
//! replaced by the variable's text for the language at hand, which is empty
//! where the variable has none. A placeholder that names no variable stays
//! in the text as it is written, and its name is reported.

use vstd::prelude::*;
use crate::index::{position_from, position_of, Text};
use crate::model::{text_in, Variable, VariableView};
use crate::text::to_chars;

verus! {

/// Whether a character can stand in a placeholder's name.
pub open spec fn is_name_char(c: char) -> bool {
    c != '{' && c != '}'
}

/// The end of the run of name characters that starts at `from`.
pub open spec fn name_end(text: Text, from: int) -> int
    decreases text.len() - from,
{
    if 0 <= from < text.len() && is_name_char(text[from]) {
        name_end(text, from + 1)
    } else {
        from
    }
}

/// Where the placeholder that starts at `at` ends, if one starts there.
pub open spec fn placeholder_end(text: Text, at: int) -> Option<int> {
    if 0 <= at && at + 2 <= text.len() && text[at] == '{' && text[at + 1] == '{' {
        let end = name_end(text, at + 2);
        if end > at + 2 && end + 2 <= text.len() && text[end] == '}' && text[end + 1] == '}' {
            Some(end + 2)
        } else {
            None
        }
    } else {
        None
    }
}

/// The names of the variables, in order.
pub open spec fn variable_names(variables: Seq<VariableView>) -> Seq<Text> {
    Seq::new(variables.len(), |i: int| variables[i].name)
}

/// The name inside a placeholder.
pub open spec fn placeholder_name(placeholder: Text) -> Text {
    placeholder.subrange(2, placeholder.len() - 2)
}

/// What stands in place of a placeholder: the variable's text for the
/// language, or the placeholder itself where no variable has its name.
pub open spec fn replacement(
    placeholder: Text,
    variables: Seq<VariableView>,
    language: Text,
) -> Text {
    match position_of(variable_names(variables), placeholder_name(placeholder)) {
        Some(v) => text_in(variables[v].values, language),
        None => placeholder,
    }
}

/// The text from `at` on with its placeholders replaced.
pub open spec fn expanded_from(
    text: Text,
    variables: Seq<VariableView>,
    language: Text,
    at: int,
) -> Text
    decreases text.len() - at,
{
    if at < 0 || at >= text.len() {
        Seq::empty()
    } else {
        match placeholder_end(text, at) {
            Some(end) => replacement(text.subrange(at, end), variables, language)
                + expanded_from(text, variables, language, end),
            None => seq![text[at]] + expanded_from(text, variables, language, at + 1),
        }
    }
}

/// The text with its placeholders replaced.
pub open spec fn expanded(text: Text, variables: Seq<VariableView>, language: Text) -> Text {
    expanded_from(text, variables, language, 0)
}

/// The names of the placeholders from `at` on that name no variable, one
/// for each occurrence, in order.
pub open spec fn unresolved_from(text: Text, variables: Seq<VariableView>, at: int) -> Seq<Text>
    decreases text.len() - at,
{
    if at < 0 || at >= text.len() {
        Seq::empty()
    } else {
        match placeholder_end(text, at) {
            Some(end) => {
                let name = placeholder_name(text.subrange(at, end));
                if position_of(variable_names(variables), name) is None {
                    seq![name] + unresolved_from(text, variables, end)
                } else {
                    unresolved_from(text, variables, end)
                }
            },
            None => unresolved_from(text, variables, at + 1),
        }
    }
}

/// The names of the placeholders that name no variable, one for each
/// occurrence, in order.
pub open spec fn unresolved(text: Text, variables: Seq<VariableView>) -> Seq<Text> {
    unresolved_from(text, variables, 0)
}

/// Finds where the placeholder that starts at `at` ends.
pub fn find_placeholder_end(text: &Vec<char>, at: usize) -> (end: Option<usize>)
    ensures
        match end {
            Some(e) => placeholder_end(text@, at as int) == Some(e as int),
            None => placeholder_end(text@, at as int) is None,
        },
{
    let n = text.len();
    if at >= n || n - at < 2 || text[at] != '{' || text[at + 1] != '{' {
        return None;
    }
    let mut end: usize = at + 2;
    while end < n && text[end] != '{' && text[end] != '}'
        invariant
            at + 2 <= end <= n,
            n == text@.len(),
            name_end(text@, at + 2) == name_end(text@, end as int),
        decreases n - end,
    {
        end = end + 1;
    }
    if end > at + 2 && n - end >= 2 && text[end] == '}' && text[end + 1] == '}' {
        Some(end + 2)
    } else {
        None
    }
}

/// Finds the first variable of a given name.
pub fn find_variable(variables: &Vec<Variable>, name: &str) -> (found: Option<usize>)
    ensures
        match found {
            Some(v) => v < variables.len() && position_of(
                variable_names(variables.deep_view()),
                name@,
            ) == Some(v as int),
            None => position_of(variable_names(variables.deep_view()), name@) is None,
        },
{
    let wanted = name.to_owned();
    let mut i: usize = 0;
    while i < variables.len()
        invariant
            i <= variables.len(),
            wanted@ == name@,
            position_of(variable_names(variables.deep_view()), name@) == position_from(
                variable_names(variables.deep_view()),
                name@,
                i as int,
            ),
        decreases variables.len() - i,
    {
        if variables[i].name == wanted {
            return Some(i);
        }
        i = i + 1;
    }
    None
}

/// Replaces the placeholders of `text` for one language.
///
/// Returns the new text and the names of the placeholders that name no
/// variable, which stay in the text as written.
pub fn substitute(text: &str, variables: &Vec<Variable>, language: &str) -> (result: (
    String,
    Vec<String>,
))
    ensures
        result.0@ == expanded(text@, variables.deep_view(), language@),
        result.1.deep_view() == unresolved(text@, variables.deep_view()),
{
    let chars = to_chars(text);
    let n = chars.len();
    let mut out = String::new();
    let mut missing: Vec<String> = Vec::new();
    let mut copied: usize = 0;
    let mut at: usize = 0;
    while at < n
        invariant
            copied <= at <= n,
            n == text@.len(),
            chars@ == text@,
            expanded(text@, variables.deep_view(), language@) == out@ + text@.subrange(
                copied as int,
                at as int,
            ) + expanded_from(text@, variables.deep_view(), language@, at as int),
            unresolved(text@, variables.deep_view()) == missing.deep_view() + unresolved_from(
                text@,
                variables.deep_view(),
                at as int,
            ),
        decreases n - at,
    {
        let ghost done = out@;
        let ghost pending = text@.subrange(copied as int, at as int);
        let ghost reported = missing.deep_view();
        match find_placeholder_end(&chars, at) {
            Some(end) => {
                let ghost placeholder = text@.subrange(at as int, end as int);
                let ghost after = expanded_from(
                    text@,
                    variables.deep_view(),
                    language@,
                    end as int,
                );
                let ghost later = unresolved_from(text@, variables.deep_view(), end as int);
                let name = text.substring_char(at + 2, end - 2);
                assert(name@ =~= placeholder_name(placeholder));
                match find_variable(variables, name) {
                    Some(v) => {
                        let value = variables[v].values.get(language);
                        out.append(text.substring_char(copied, at));
                        out.append(value);
                        copied = end;
                        proof {
                            assert(text@.subrange(end as int, end as int) =~= Seq::<char>::empty());
                            assert(done + pending + (value@ + after) =~= (done + pending + value@)
                                + Seq::<char>::empty() + after);
                        }
                    },
                    None => {
                        missing.push(name.to_owned());
                        proof {
                            assert(missing.deep_view() =~= reported.push(name@));
                            assert(reported + (seq![name@] + later) =~= reported.push(name@)
                                + later);
                            assert(text@.subrange(copied as int, end as int) =~= pending
                                + placeholder);
                            assert(done + pending + (placeholder + after) =~= done + (pending
                                + placeholder) + after);
                        }
                    },
                }
                at = end;
            },
            None => {
                proof {
                    let next = expanded_from(text@, variables.deep_view(), language@, at + 1);
                    assert(text@.subrange(copied as int, at + 1) =~= pending + seq![
                        text@[at as int],
                    ]);
                    assert(done + pending + (seq![text@[at as int]] + next) =~= done + (pending
                        + seq![text@[at as int]]) + next);
                }
                at = at + 1;
            },
        }
    }
    proof {
        assert(out@ + text@.subrange(copied as int, n as int) + Seq::<char>::empty() =~= out@
            + text@.subrange(copied as int, n as int));
        assert(missing.deep_view() + Seq::<Text>::empty() =~= missing.deep_view());
    }
    out.append(text.substring_char(copied, n));
    (out, missing)
}

} // verus!
