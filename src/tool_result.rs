//! Reading the agent's tool results: result values, Bash results and user denials.
use vstd::prelude::*;
use vstd::string::*;
use crate::claude::{ToolResultContent};
use crate::entry::{CommandExitStatus, CommandRunResult, ToolResult, ToolResultValueType};
use crate::text::{chars_of, find_or_end, first_at, first_or_end, trim, trimmed};

verus! {

/// Whether `s` is one JSON value, as serde_json reads it.
pub uninterp spec fn is_json_text(s: Seq<char>) -> bool;

/// Relies on `serde_json::from_str::<serde_json::Value>`: it succeeds exactly on the texts that
/// hold one JSON value, with nothing but whitespace around it.
#[verifier::external_body]
fn parses_as_json(s: &str) -> (r: bool)
    ensures
        r == is_json_text(s@),
{
    serde_json::from_str::<serde_json::Value>(s).is_ok()
}

/// The pieces of `items`, with `sep` between each two.
pub open spec fn join_with(items: Seq<Seq<char>>, sep: Seq<char>) -> Seq<char>
    decreases items.len(),
{
    if items.len() == 0 {
        Seq::empty()
    } else if items.len() == 1 {
        items[0]
    } else {
        join_with(items.drop_last(), sep) + sep + items.last()
    }
}

pub open spec fn views(v: Seq<String>) -> Seq<Seq<char>> {
    v.map_values(|s: String| s@)
}

pub fn join_strings(items: &Vec<String>, sep: &str) -> (r: String)
    ensures
        r@ == join_with(views(items@), sep@),
{
    let mut out = String::new();
    let mut k: usize = 0;
    while k < items.len()
        invariant
            k <= items.len(),
            out@ == join_with(views(items@.subrange(0, k as int)), sep@),
        decreases items.len() - k,
    {
        let ghost pre = items@.subrange(0, k as int);
        let ghost next = items@.subrange(0, k + 1);
        assert(views(next).drop_last() =~= views(pre));
        if k > 0 {
            out.append(sep);
        }
        out.append(items[k].as_str());
        assert(views(next).last() == items@[k as int]@);
        k = k + 1;
    }
    assert(items@.subrange(0, k as int) =~= items@);
    out
}

/// The value of a tool result: a string that is JSON is JSON, another string is Markdown; the
/// texts of an array of text items, joined by blank lines, likewise; anything else is JSON.
pub open spec fn result_value(c: ToolResultContent) -> (ToolResultValueType, Seq<char>) {
    match c.text {
        Some(s) => if is_json_text(s@) {
            (ToolResultValueType::Json, s@)
        } else {
            (ToolResultValueType::Markdown, s@)
        },
        None => match c.text_items {
            Some(items) => if items@.len() > 0 {
                let joined = join_with(views(items@), "\n\n"@);
                if is_json_text(joined) {
                    (ToolResultValueType::Json, joined)
                } else {
                    (ToolResultValueType::Markdown, joined)
                }
            } else {
                (ToolResultValueType::Json, c.json@)
            },
            None => (ToolResultValueType::Json, c.json@),
        },
    }
}

/// The value of a tool result of an opaque tool.
pub fn normalize_claude_tool_result_value(content: &ToolResultContent) -> (r: ToolResult)
    ensures
        (r.value_type, r.value@) == result_value(*content),
{
    if let Some(s) = &content.text {
        if parses_as_json(s.as_str()) {
            return ToolResult { value_type: ToolResultValueType::Json, value: s.clone() };
        }
        return ToolResult { value_type: ToolResultValueType::Markdown, value: s.clone() };
    }
    if let Some(items) = &content.text_items {
        if items.len() > 0 {
            let joined = join_strings(items, "\n\n");
            if parses_as_json(joined.as_str()) {
                return ToolResult { value_type: ToolResultValueType::Json, value: joined };
            }
            return ToolResult { value_type: ToolResultValueType::Markdown, value: joined };
        }
    }
    ToolResult { value_type: ToolResultValueType::Json, value: content.json.clone() }
}

/// The text in which a denial is looked for: the string, the item texts one per line, or the
/// JSON text.
pub open spec fn denial_text(c: ToolResultContent) -> Seq<char> {
    match c.text {
        Some(s) => s@,
        None => match c.text_items {
            Some(items) => join_with(views(items@), "\n"@),
            None => c.json@,
        },
    }
}

/// The marker that the approval hook puts before a user's reason for a denial.
pub open spec fn feedback_marker() -> Seq<char> {
    "User feedback: "@
}

/// The reason that follows the first feedback marker, trimmed, when there is a marker and the
/// reason is not empty.
pub open spec fn denial_of(s: Seq<char>) -> Option<Seq<char>> {
    if exists|k: int| first_at(s, feedback_marker(), 0, k) {
        let k = first_or_end(s, feedback_marker(), 0);
        let reason = trimmed(s.subrange(k + 15, s.len() as int));
        if reason.len() > 0 {
            Some(reason)
        } else {
            None
        }
    } else {
        None
    }
}

/// The reason that follows the feedback marker in `s`, if any.
pub fn denial_reason_in(s: &str) -> (r: Option<String>)
    ensures
        r matches Some(x) ==> denial_of(s@) == Some(x@),
        r is None ==> denial_of(s@) is None,
{
    proof {
        reveal_strlit("User feedback: ");
    }
    let v = chars_of(s);
    let marker = chars_of("User feedback: ");
    let k = find_or_end(&v, &marker, 0);
    if k == v.len() {
        assert(!exists|j: int| first_at(s@, feedback_marker(), 0, j)) by {
            if exists|j: int| first_at(s@, feedback_marker(), 0, j) {
                let j = choose|j: int| first_at(s@, feedback_marker(), 0, j);
                assert(j + 15 <= s@.len());
            }
        }
        return None;
    }
    assert(k + 15 <= v.len());
    let rest = s.substring_char(k + 15, v.len());
    let reason = trim(rest);
    if reason.as_str().unicode_len() == 0 {
        None
    } else {
        Some(reason)
    }
}

/// The user's reason for a denial in a tool result, if it carries one.
pub fn extract_denial_reason(content: &ToolResultContent) -> (r: Option<String>)
    ensures
        r matches Some(x) ==> denial_of(denial_text(*content)) == Some(x@),
        r is None ==> denial_of(denial_text(*content)) is None,
{
    match &content.text {
        Some(s) => denial_reason_in(s.as_str()),
        None => match &content.text_items {
            Some(items) => {
                let joined = join_strings(items, "\n");
                denial_reason_in(joined.as_str())
            },
            None => denial_reason_in(content.json.as_str()),
        },
    }
}

/// The text of a Bash result: the string, or else the JSON text.
pub open spec fn bash_text(c: ToolResultContent) -> Seq<char> {
    match c.text {
        Some(s) => s@,
        None => c.json@,
    }
}

/// `r` is the outcome of a Bash call whose result is `c`: Amp's `{output, exitCode}` gives an
/// exit code, any other text a success flag taken from `is_error`.
pub open spec fn command_result_ok(r: CommandRunResult, c: ToolResultContent, is_error: Option<bool>) -> bool {
    match c.amp_bash {
        Some(a) => r.exit_status == Some(CommandExitStatus::ExitCode { code: a.exit_code })
            && (r.output matches Some(o) && o@ == a.output@),
        None => r.exit_status == (match is_error {
            Some(e) => Some(CommandExitStatus::Success { success: !e }),
            None => None,
        }) && (r.output matches Some(o) && o@ == bash_text(c)),
    }
}

/// The outcome of a Bash call whose result is `content`.
pub fn command_result(content: &ToolResultContent, is_error: Option<bool>) -> (r: CommandRunResult)
    ensures
        command_result_ok(r, *content, is_error),
{
    match &content.amp_bash {
        Some(a) => CommandRunResult {
            exit_status: Some(CommandExitStatus::ExitCode { code: a.exit_code }),
            output: Some(a.output.clone()),
        },
        None => {
            let text = match &content.text {
                Some(s) => s.clone(),
                None => content.json.clone(),
            };
            let exit_status = match is_error {
                Some(e) => Some(CommandExitStatus::Success { success: !e }),
                None => None,
            };
            CommandRunResult { exit_status, output: Some(text) }
        },
    }
}

} // verus!
