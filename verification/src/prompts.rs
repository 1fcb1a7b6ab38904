//! The texts exchanged with the code generation step: what is asked of the
//! model when a script is planned and written for a file.
//!
//! The steps themselves, reading the templates and calling the model, are
//! the caller's; this module decides what each call says.

use vstd::prelude::*;
use vstd::string::*;
use crate::markdown::{replace_all, replaced};
use crate::text::{chars_of, slice_text};

verus! {

/// One request to the model: the system prompt and the user's message.
#[derive(Debug, PartialEq)]
pub struct ModelRequest {
    pub system: String,
    pub user: String,
}

/// Mathematical value of a [`ModelRequest`].
pub struct RequestView {
    pub system: Seq<char>,
    pub user: Seq<char>,
}

impl View for ModelRequest {
    type V = RequestView;

    open spec fn view(&self) -> RequestView {
        RequestView { system: self.system@, user: self.user@ }
    }
}

/// What stands for the preview of a file that could not be read.
pub open spec fn preview_failure(error: Seq<char>) -> Seq<char> {
    "{'status': 'error', 'msg': '"@ + error + "'}"@
}

/// The message that asks for a plan: the user's query and the preview of
/// the file.
pub open spec fn plan_message(query: Seq<char>, preview: Seq<char>) -> Seq<char> {
    "User Query: "@ + query + "\nCSV Preview:\n"@ + preview
}

/// The message that asks for a script: the plan and the user's query.
pub open spec fn code_message(plan: Seq<char>, query: Seq<char>) -> Seq<char> {
    "Structure Config: "@ + plan + "\nUser Query: "@ + query
}

/// The message that asks for a script where there is no template for it:
/// the query, then the file and the plan as context.
pub open spec fn fallback_message(query: Seq<char>, file_path: Seq<char>, plan: Seq<char>) -> Seq<
    char,
> {
    query + "\n\nContext:\nTarget File: "@ + file_path + "\nStructure Hint: "@ + plan
}

/// The placeholder of a template that stands for the path of the file.
pub open spec fn path_placeholder() -> Seq<char> {
    "{file_path}"@
}

/// A path as it is written inside a script: each backslash doubled.
pub open spec fn escaped_path(file_path: Seq<char>) -> Seq<char> {
    replaced(file_path, "\\"@, "\\\\"@)
}

/// A template with the escaped path of the file in place of each
/// placeholder.
pub open spec fn filled_template(template: Seq<char>, file_path: Seq<char>) -> Seq<char> {
    replaced(template, path_placeholder(), escaped_path(file_path))
}

/// The plan that stands for a planning step that was skipped.
pub open spec fn empty_plan() -> Seq<char> {
    "{}"@
}

/// The request of the planning step: none where there is no template for
/// it, in which case the plan is [`empty_plan`].
pub open spec fn plan_request_of(template: Seq<char>, query: Seq<char>, preview: Seq<char>)
    -> Option<RequestView> {
    if template.len() == 0 {
        None
    } else {
        Some(RequestView { system: template, user: plan_message(query, preview) })
    }
}

/// The request of the coding step: with the filled template where there is
/// one, with the general system prompt and the file as context where there
/// is none.
pub open spec fn code_request_of(
    template: Seq<char>,
    system_prompt: Seq<char>,
    query: Seq<char>,
    file_path: Seq<char>,
    plan: Seq<char>,
) -> RequestView {
    if template.len() == 0 {
        RequestView { system: system_prompt, user: fallback_message(query, file_path, plan) }
    } else {
        RequestView {
            system: filled_template(template, file_path),
            user: code_message(plan, query),
        }
    }
}

/// A text without the slashes at its end.
pub open spec fn without_trailing_slashes(text: Seq<char>) -> Seq<char>
    decreases text.len(),
{
    if text.len() > 0 && text.last() == '/' {
        without_trailing_slashes(text.drop_last())
    } else {
        text
    }
}

/// The address of the chat completion endpoint under `base_url`.
pub open spec fn completions_url(base_url: Seq<char>) -> Seq<char> {
    without_trailing_slashes(base_url) + "/chat/completions"@
}

/// The preview that stands for a file that could not be read.
pub fn failed_preview(error: &str) -> (preview: String)
    ensures
        preview@ == preview_failure(error@),
{
    let mut preview = "{'status': 'error', 'msg': '".to_owned();
    preview.append(error);
    preview.append("'}");
    preview
}

/// Fills a template with the path of the file, as it is written inside a
/// script.
pub fn fill_template(template: &str, file_path: &str) -> (filled: String)
    ensures
        filled@ == filled_template(template@, file_path@),
{
    let escaped = replace_all(file_path, "\\", "\\\\");
    replace_all(template, "{file_path}", escaped.as_str())
}

/// The plan of a planning step that was skipped.
pub fn skipped_plan() -> (plan: String)
    ensures
        plan@ == empty_plan(),
{
    "{}".to_owned()
}

/// The request of the planning step, if the step is taken: it is skipped
/// where the template is empty.
pub fn plan_request(template: &str, query: &str, preview: &str) -> (request: Option<ModelRequest>)
    ensures
        match request {
            Some(r) => plan_request_of(template@, query@, preview@) == Some(r@),
            None => plan_request_of(template@, query@, preview@) is None,
        },
{
    if template.is_empty() {
        return None;
    }
    let mut user = "User Query: ".to_owned();
    user.append(query);
    user.append("\nCSV Preview:\n");
    user.append(preview);
    Some(ModelRequest { system: template.to_owned(), user })
}

/// The request of the coding step.
pub fn code_request(
    template: &str,
    system_prompt: &str,
    query: &str,
    file_path: &str,
    plan: &str,
) -> (request: ModelRequest)
    ensures
        request@ == code_request_of(template@, system_prompt@, query@, file_path@, plan@),
{
    if template.is_empty() {
        let mut user = query.to_owned();
        user.append("\n\nContext:\nTarget File: ");
        user.append(file_path);
        user.append("\nStructure Hint: ");
        user.append(plan);
        ModelRequest { system: system_prompt.to_owned(), user }
    } else {
        let mut user = "Structure Config: ".to_owned();
        user.append(plan);
        user.append("\nUser Query: ");
        user.append(query);
        ModelRequest { system: fill_template(template, file_path), user }
    }
}

/// The address of the chat completion endpoint under `base_url`, whatever
/// the number of slashes that `base_url` ends with.
pub fn completion_endpoint(base_url: &str) -> (url: String)
    ensures
        url@ == completions_url(base_url@),
{
    let chars = chars_of(base_url);
    let mut end: usize = chars.len();
    assert(base_url@.take(end as int) =~= base_url@);
    while end > 0 && chars[end - 1] == '/'
        invariant
            chars@ == base_url@,
            end <= chars.len(),
            without_trailing_slashes(base_url@) == without_trailing_slashes(
                base_url@.take(end as int),
            ),
        decreases end,
    {
        assert(base_url@.take(end as int).drop_last() =~= base_url@.take(end - 1));
        end -= 1;
    }
    let mut url = slice_text(base_url, 0, end);
    assert(url@ =~= base_url@.take(end as int));
    url.append("/chat/completions");
    url
}

} // verus!
