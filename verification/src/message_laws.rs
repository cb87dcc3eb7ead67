//! What can be relied on of the single messages of a conversation: that what was asked, called, put
//! out and shown can be read back from them.
use vstd::prelude::*;

use crate::catalog::ToolboxCatalog;
use crate::context::{
    base64_text, call_view, calling_message, detail_value, end_value, follow_up_prompt,
    image_message, image_text, injection, manager_prompt, parent_agent_prompt, provider_message,
    read_or_text, shown_form, structured, tool_message, user_prompt, ResultForm, UpdatesView,
};
use crate::event::{
    Computed, EventId, ImageContent, ToolCall, ToolInfoContent, ToolInfoUpdate, ToolOutputStream,
    ToolResultState,
};
use crate::json::{json_get, json_read, json_text, json_written, JsonView};
use crate::text::{
    decimal, escaped, law_escaped_has_no_tags, law_escaped_reads_back, unescaped,
};

verus! {

/// Whether a text is an opening, a body from which the content can be read back and which holds no
/// tag, and a closing.
pub open spec fn wraps(
    text: Seq<char>,
    opening: Seq<char>,
    content: Seq<char>,
    closing: Seq<char>,
) -> bool {
    let from = opening.len() as int;
    let to = text.len() - closing.len();
    &&& from <= to
    &&& text.take(from) == opening
    &&& text.skip(to) == closing
    &&& unescaped(text.subrange(from, to)) == content
    &&& forall|i: int| from <= i < to ==> #[trigger] text[i] != '<' && text[i] != '>'
}

proof fn lemma_wraps(opening: Seq<char>, content: Seq<char>, closing: Seq<char>)
    ensures
        wraps(opening + escaped(content) + closing, opening, content, closing),
{
    let body = escaped(content);
    let text = opening + body + closing;
    let from = opening.len() as int;
    let to = text.len() - closing.len();
    law_escaped_reads_back(content);
    law_escaped_has_no_tags(content);
    assert(text.take(from) =~= opening);
    assert(text.skip(to) =~= closing);
    assert(text.subrange(from, to) =~= body);
    assert forall|i: int| from <= i < to implies #[trigger] text[i] != '<' && text[i] != '>' by {
        assert(text[i] == body[i - from]);
    }
}

/// What was asked can be read back from its envelope, which says who asked, and cannot close it.
pub proof fn law_prompts_can_be_read_back(content: Seq<char>)
    ensures
        wraps(user_prompt(content), "<user_prompt>\n"@, content, "\n</user_prompt>"@),
        wraps(manager_prompt(content), "<manager_prompt>\n"@, content, "\n</manager_prompt>"@),
        wraps(
            parent_agent_prompt(content),
            "<parent_agent_prompt>\n"@,
            content,
            "\n</parent_agent_prompt>"@,
        ),
        wraps(
            follow_up_prompt(content),
            "<follow_up_prompt>\n"@,
            content,
            "\n</follow_up_prompt>"@,
        ),
{
    lemma_wraps("<user_prompt>\n"@, content, "\n</user_prompt>"@);
    lemma_wraps("<manager_prompt>\n"@, content, "\n</manager_prompt>"@);
    lemma_wraps("<parent_agent_prompt>\n"@, content, "\n</parent_agent_prompt>"@);
    lemma_wraps("<follow_up_prompt>\n"@, content, "\n</follow_up_prompt>"@);
}

/// What the system says in the middle of a conversation can be read back, and so can of what kind
/// it is.
pub proof fn law_injections_can_be_read_back(kind: Seq<char>, content: Seq<char>)
    ensures
        wraps(
            injection(kind, content),
            "<system_prompt_injection type=\""@ + escaped(kind) + "\">\n"@,
            content,
            "\n</system_prompt_injection>"@,
        ),
        unescaped(escaped(kind)) == kind,
{
    let opening = "<system_prompt_injection type=\""@ + escaped(kind) + "\">\n"@;
    lemma_wraps(opening, content, "\n</system_prompt_injection>"@);
    law_escaped_reads_back(kind);
}

/// Prompts that look the same ask the same.
pub proof fn law_different_prompts_look_different(one: Seq<char>, other: Seq<char>, kind: Seq<char>)
    ensures
        user_prompt(one) == user_prompt(other) ==> one == other,
        manager_prompt(one) == manager_prompt(other) ==> one == other,
        parent_agent_prompt(one) == parent_agent_prompt(other) ==> one == other,
        follow_up_prompt(one) == follow_up_prompt(other) ==> one == other,
        injection(kind, one) == injection(kind, other) ==> one == other,
{
    law_prompts_can_be_read_back(one);
    law_prompts_can_be_read_back(other);
    law_injections_can_be_read_back(kind, one);
    law_injections_can_be_read_back(kind, other);
}

proof fn lemma_keys_differ()
    ensures
        "id"@.len() == 2,
        "url"@.len() == 3,
        "type"@.len() == 4 && "type"@[0] == 't' && "type"@[1] == 'y',
        "text"@.len() == 4 && "text"@[0] == 't' && "text"@[1] == 'e',
        "role"@.len() == 4 && "role"@[0] == 'r',
        "name"@.len() == 4 && "name"@[0] == 'n',
        "item"@.len() == 4 && "item"@[0] == 'i',
        "state"@.len() == 5,
        "stream"@.len() == 6 && "stream"@[0] == 's',
        "detail"@.len() == 6 && "detail"@[0] == 'd',
        "result"@.len() == 6 && "result"@[0] == 'r',
        "content"@.len() == 7 && "content"@[0] == 'c',
        "updates"@.len() == 7 && "updates"@[0] == 'u',
        "function"@.len() == 8,
        "arguments"@.len() == 9 && "arguments"@[0] == 'a',
        "exit_code"@.len() == 9 && "exit_code"@[0] == 'e',
        "image_url"@.len() == 9 && "image_url"@[0] == 'i',
        "tool_calls"@.len() == 10,
        "tool_call_id"@.len() == 12 && "tool_call_id"@[0] == 't',
        "_me_provider"@.len() == 12 && "_me_provider"@[0] == '_',
        "other_updates"@.len() == 13,
        "terminal_updates"@.len() == 16,
{
    reveal_strlit("id");
    reveal_strlit("url");
    reveal_strlit("type");
    reveal_strlit("text");
    reveal_strlit("role");
    reveal_strlit("name");
    reveal_strlit("item");
    reveal_strlit("state");
    reveal_strlit("stream");
    reveal_strlit("detail");
    reveal_strlit("result");
    reveal_strlit("content");
    reveal_strlit("updates");
    reveal_strlit("function");
    reveal_strlit("arguments");
    reveal_strlit("exit_code");
    reveal_strlit("image_url");
    reveal_strlit("tool_calls");
    reveal_strlit("tool_call_id");
    reveal_strlit("_me_provider");
    reveal_strlit("other_updates");
    reveal_strlit("terminal_updates");
}

/// Whether an entry of a message shows a tool call: under the identity that the provider gave it,
/// by the name that the model knows, with exactly the arguments of the log.
pub open spec fn shows_call(entry: JsonView, call: ToolCall, catalog: &ToolboxCatalog) -> bool {
    &&& json_get(entry, "id"@) == Some(JsonView::Text(call.provider_call_id@))
    &&& json_get(entry, "type"@) == Some(JsonView::Text("function"@))
    &&& json_get(entry, "function"@) matches Some(function)
    &&& json_get(function, "name"@) == Some(JsonView::Text(catalog.called(call.name@)))
    &&& json_get(function, "arguments"@) == Some(JsonView::Text(call.arguments@))
}

/// A tool call can be read back from its entry in a message.
pub proof fn law_calls_can_be_read_back(call: ToolCall, catalog: &ToolboxCatalog)
    ensures
        shows_call(call_view(call, catalog), call, catalog),
{
    lemma_keys_differ();
}

/// A message with tool calls holds what the model said with them, if anything, and all of them.
pub proof fn law_calling_message_holds_both(said: Seq<char>, calls: Seq<JsonView>)
    ensures
        json_get(calling_message(said, calls), "role"@) == Some(JsonView::Text("assistant"@)),
        json_get(calling_message(said, calls), "tool_calls"@) == Some(JsonView::Array(calls)),
        said.len() > 0 ==> json_get(calling_message(said, calls), "content"@) == Some(
            JsonView::Text(said),
        ),
        said.len() == 0 ==> json_get(calling_message(said, calls), "content"@) == Some(
            JsonView::Null,
        ),
{
    lemma_keys_differ();
}

/// What a tool answered stands in its message, under the identity of the call.
pub proof fn law_answers_can_be_read_back(id: Seq<char>, value: JsonView)
    ensures
        json_get(tool_message(id, value), "role"@) == Some(JsonView::Text("tool"@)),
        json_get(tool_message(id, value), "tool_call_id"@) == Some(JsonView::Text(id)),
        json_get(tool_message(id, value), "content"@) == Some(
            JsonView::Text(json_written(value)),
        ),
{
    lemma_keys_differ();
}

/// What a provider wants back stands in its message as it is.
pub proof fn law_items_can_be_read_back(provider: Seq<char>, item: JsonView)
    ensures
        json_get(provider_message(provider, item), "_me_provider"@) == Some(
            JsonView::Text(provider),
        ),
        json_get(provider_message(provider, item), "item"@) == Some(item),
{
    lemma_keys_differ();
}

/// An image is shown to the model with the bytes that there are and with what is known of it; where
/// there are none, it is said why.
pub proof fn law_images_are_shown_whole(id: EventId, image: ImageContent)
    ensures
        match image.png {
            Computed::Value(png) => {
                &&& image_message(id, image) matches Ok(message)
                &&& json_get(message, "role"@) == Some(JsonView::Text("user"@))
                &&& json_get(message, "content"@) matches Some(JsonView::Array(parts))
                &&& parts.len() == 2
                &&& json_get(parts[0], "type"@) == Some(JsonView::Text("text"@))
                &&& json_get(parts[0], "text"@) == Some(JsonView::Text(image_text(image)))
                &&& json_get(parts[1], "type"@) == Some(JsonView::Text("image_url"@))
                &&& json_get(parts[1], "image_url"@) matches Some(shown)
                &&& json_get(shown, "url"@) == Some(
                    JsonView::Text("data:image/png;base64,"@ + base64_text(png@)),
                )
            },
            Computed::Failure(reason) => image_message(id, image) matches Err(said) && said.len()
                >= reason@.len() && said.skip(said.len() - reason@.len()) == reason@,
        },
{
    lemma_keys_differ();
    if let Computed::Failure(reason) = image.png {
        let said = image_message(id, image)->Err_0;
        assert(said.skip(said.len() - reason@.len()) =~= reason@);
    }
}

/// What is said of an image names where it comes from, its size, its form and its digest.
pub proof fn law_image_text_names_the_image(image: ImageContent)
    ensures
        ({
            let text = image_text(image);
            let before = "Stored image content from "@;
            let size = decimal(image.width as nat) + "x"@ + decimal(image.height as nat);
            &&& text == before + image.source@ + (" ("@ + size + ", "@ + image.format@ + ", sha256 "@
                + image.content_sha256@ + ")."@)
        }),
{
    let before = "Stored image content from "@;
    let size = decimal(image.width as nat) + "x"@ + decimal(image.height as nat);
    assert(image_text(image) =~= before + image.source@ + (" ("@ + size + ", "@ + image.format@
        + ", sha256 "@ + image.content_sha256@ + ")."@));
}

/// The result of a tool call shows how it ended, and all that it put out: frames of a terminal
/// apart from the rest, each kind only where there is any.
pub proof fn law_results_show_all_output(
    updates: UpdatesView,
    state: ToolResultState,
    exit_code: Option<i32>,
    detail: Option<JsonView>,
)
    ensures
        ({
            let end = end_value(state, exit_code, detail);
            let shown = structured(updates, end);
            &&& json_get(shown, "result"@) == Some(end)
            &&& json_get(end, "state"@) == Some(JsonView::Text(state.name()))
            &&& json_get(end, "exit_code"@) == Some(
                match exit_code {
                    Some(code) => JsonView::Integer(code as int),
                    None => JsonView::Null,
                },
            )
            &&& json_get(end, "detail"@) == detail
            &&& json_get(shown, "terminal_updates"@) == (if updates.terminal.len() > 0 {
                Some(JsonView::Array(updates.terminal))
            } else {
                None
            })
            &&& updates.other.len() > 0 ==> json_get(
                shown,
                if updates.terminal.len() > 0 {
                    "other_updates"@
                } else {
                    "updates"@
                },
            ) == Some(JsonView::Array(updates.other))
            &&& updates.other.len() == 0 ==> json_get(shown, "other_updates"@) is None && json_get(
                shown,
                "updates"@,
            ) is None
        }),
{
    lemma_keys_differ();
}

/// What a running tool puts out is kept in its order: a text with the stream that it came by, a
/// frame of a terminal as the value that it is, or as a text where it is none.
pub proof fn law_output_is_kept_in_order(updates: UpdatesView, info: ToolInfoUpdate)
    ensures
        match info.content {
            ToolInfoContent::Text(content) => {
                let after = updates.with_update(info);
                &&& after.terminal == updates.terminal
                &&& after.other.len() == updates.other.len() + 1
                &&& after.other.drop_last() == updates.other
                &&& json_get(after.other.last(), "text"@) == Some(JsonView::Text(content@))
                &&& json_get(after.other.last(), "stream"@) == Some(
                    JsonView::Text(info.stream.name()),
                )
            },
            ToolInfoContent::Terminal(frame) => {
                let after = updates.with_update(info);
                &&& after.other == updates.other
                &&& after.terminal.len() == updates.terminal.len() + 1
                &&& after.terminal.drop_last() == updates.terminal
                &&& json_read(frame@) matches Some(value) ==> after.terminal.last() == value
                &&& json_read(frame@) is None ==> after.terminal.last() == JsonView::Text(frame@)
            },
        },
        UpdatesView::empty().terminal.len() == 0,
        UpdatesView::empty().other.len() == 0,
{
    lemma_keys_differ();
    assert(updates.with_update(info).other.drop_last() =~= updates.other || info.content is Terminal);
    assert(updates.with_update(info).terminal.drop_last() =~= updates.terminal || info.content is Text);
}

/// A detail is the value that it reads as, or else the text that it is; there is none only where
/// the text is empty.
pub proof fn law_details_are_kept(detail: Seq<char>)
    ensures
        detail.len() == 0 <==> detail_value(detail) is None,
        detail.len() > 0 && json_read(detail) is Some ==> detail_value(detail) == json_read(detail),
        detail.len() > 0 && json_read(detail) is None ==> detail_value(detail) == Some(
            JsonView::Text(detail),
        ),
        json_text(Some(read_or_text(detail))) is Some || json_read(detail) is Some,
{
}

/// A result is shown in the form that was made for it, and as it is where none was.
pub proof fn law_forms_are_found(forms: Seq<ResultForm>, result_id: EventId, own: JsonView)
    ensures
        (forall|i: int| 0 <= i < forms.len() ==> (#[trigger] forms[i]).result_id != result_id)
            ==> shown_form(forms, result_id, own) == own,
        (exists|i: int| 0 <= i < forms.len() && (#[trigger] forms[i]).result_id == result_id)
            ==> exists|i: int|
            0 <= i < forms.len() && (#[trigger] forms[i]).result_id == result_id && shown_form(
                forms,
                result_id,
                own,
            ) == forms[i].value@,
    decreases forms.len(),
{
    if forms.len() > 0 {
        let rest = forms.skip(1);
        law_forms_are_found(rest, result_id, own);
        if forms[0].result_id != result_id {
            assert forall|i: int| 0 <= i < rest.len() implies (#[trigger] rest[i]) == forms[i + 1] by {
            }
            if exists|i: int| 0 <= i < forms.len() && (#[trigger] forms[i]).result_id == result_id {
                let i = choose|i: int|
                    0 <= i < forms.len() && (#[trigger] forms[i]).result_id == result_id;
                assert(rest[i - 1].result_id == result_id);
                let j = choose|j: int|
                    0 <= j < rest.len() && (#[trigger] rest[j]).result_id == result_id && shown_form(
                        rest,
                        result_id,
                        own,
                    ) == rest[j].value@;
                assert(forms[j + 1] == rest[j]);
            } else {
                assert forall|i: int| 0 <= i < rest.len() implies (#[trigger] rest[i]).result_id
                    != result_id by {
                    assert(forms[i + 1].result_id != result_id);
                }
            }
        }
    }
}

/// The ways in which tool calls end, and the streams of their output, go by different names, and a
/// success goes by its own.
pub proof fn law_names_tell_ends_apart(
    one: ToolResultState,
    other: ToolResultState,
    left: ToolOutputStream,
    right: ToolOutputStream,
)
    ensures
        one.name() == other.name() ==> one == other,
        left.name() == right.name() ==> left == right,
        one.name() == "succeeded"@ <==> one == ToolResultState::Succeeded,
        one.name() == "failed"@ <==> one == ToolResultState::Failed,
        one.name() == "interrupted"@ <==> one == ToolResultState::Interrupted,
{
    reveal_strlit("succeeded");
    reveal_strlit("failed");
    reveal_strlit("interrupted");
    reveal_strlit("stdout");
    reveal_strlit("stderr");
    reveal_strlit("terminal");
    assert("succeeded"@.len() == 9);
    assert("failed"@.len() == 6);
    assert("interrupted"@.len() == 11);
    assert("stdout"@.len() == 6 && "stdout"@[3] == 'o');
    assert("stderr"@.len() == 6 && "stderr"@[3] == 'e');
    assert("terminal"@.len() == 8);
}

} // verus!
