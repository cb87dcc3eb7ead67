//! The tools that a model calls: who carries them out, and what becomes of it.
use vstd::prelude::*;

use crate::compacts::COMPACT_TOOL;
use crate::context::{
    detail_value, end_value, structured, structured_tool_result_value, ResultForm, ToolUpdates,
    UpdatesView,
};
use crate::edit_scopes::{projected_file_edit_scopes, scopes_after};
use crate::event::{
    Event, EventBody, EventDataBase, EventId, ImageContent, ToolCall, ToolCallResult,
    ToolInfoContent, ToolInfoUpdate, ToolOutputStream, ToolResultState,
};
use crate::file_scope::{after_result, ranges_view, scopes_ok, FileEditScopeProjection, ScopeView};
use crate::json::{
    array_view, json_get, json_read, json_text, json_written, lemma_array_items, parse_json,
    write_json, Json, JsonView,
};
use crate::notes::{
    append_all, ended_note, note_of, notes_of, written, Note, NO_IDENTITIES,
};
use crate::profile::MainAgentProfile;
use crate::text::{
    blank, debug_text, is_blank, join3, lines, lines_of, quoted, same, views,
};
use crate::tool_calls::{tool_call_states, tool_states, ToolCallState, ToolHistoryError, SET_TITLE_TOOL};

verus! {

pub const IMAGE_INFO_TOOL: &'static str = "Image.Info";

pub const IMAGE_VIEW_TOOL: &'static str = "Image.View";

pub const WORKER_WAIT: &'static str = "Worker.Wait";

pub const AGENT_WAIT: &'static str = "Agent.Wait";

/// Whose tool a tool is.
#[derive(Clone, Copy, Debug, PartialEq, Eq, Structural)]
pub enum ToolFamily {
    Worker,
    Agent,
    WorkMap,
    Other,
}

/// Why a tool failed, as its caller is told.
#[derive(Debug)]
pub struct ToolFailure {
    pub code: String,
    pub message: String,
    pub retryable: bool,
    pub tip: Option<String>,
}

/// Who carries out a tool call.
#[derive(Debug)]
pub enum ToolRoute {
    Compact,
    Title,
    ImageInfo,
    ImageView,
    Worker,
    WorkMap,
    Edit,
    Toolbox,
    Refused(ToolFailure),
}

/// A refusal for good.
pub open spec fn refusal(route: ToolRoute, code: Seq<char>, message: Seq<char>) -> bool {
    &&& route matches ToolRoute::Refused(failure)
    &&& failure.code@ == code
    &&& failure.message@ == message
    &&& !failure.retryable
    &&& failure.tip is None
}

pub const WORKER_IMAGE_FORBIDDEN: &'static str =
    "Worker cannot inspect images. Return the image path or URL to the Manager for direct inspection with Image.";

pub const WORKER_TOOL_FORBIDDEN: &'static str =
    "Worker tools are available only to ManagerAgent.";

pub const AGENT_TOOL_DISABLED: &'static str =
    "The Agent toolbox is disabled and cannot create or control sub-Agents. Continue with the other available tools.";

/// What is said of an image for a model that takes none.
pub open spec fn image_unsupported(model: Seq<char>) -> Seq<char> {
    "the current model "@ + model
        + " does not support image input; select an image-capable model before using Image.View"@
}

/// Whether the call of a tool goes there. `images` says whether the model takes images.
pub open spec fn routed(
    route: ToolRoute,
    name: Seq<char>,
    family: ToolFamily,
    profile: MainAgentProfile,
    images: bool,
    model: Seq<char>,
) -> bool {
    let is_image = name == IMAGE_INFO_TOOL@ || name == IMAGE_VIEW_TOOL@;
    if name == COMPACT_TOOL@ {
        route is Compact
    } else if name == SET_TITLE_TOOL@ {
        route is Title
    } else if profile == MainAgentProfile::Worker && is_image {
        refusal(route, "worker_image_forbidden"@, WORKER_IMAGE_FORBIDDEN@)
    } else if name == IMAGE_INFO_TOOL@ {
        route is ImageInfo
    } else if name == IMAGE_VIEW_TOOL@ {
        if images {
            route is ImageView
        } else {
            refusal(route, "image_input_unsupported"@, image_unsupported(model))
        }
    } else {
        match family {
            ToolFamily::Worker => if profile != MainAgentProfile::Manager {
                refusal(route, "worker_tool_forbidden"@, WORKER_TOOL_FORBIDDEN@)
            } else {
                route is Worker
            },
            ToolFamily::Agent => refusal(route, "agent_tool_disabled"@, AGENT_TOOL_DISABLED@),
            ToolFamily::WorkMap => route is WorkMap,
            ToolFamily::Other => if name == "File.Edit"@ {
                route is Edit
            } else {
                route is Toolbox
            },
        }
    }
}

fn refuse(code: &str, message: &str) -> (route: ToolRoute)
    ensures
        refusal(route, code@, message@),
{
    ToolRoute::Refused(
        ToolFailure {
            code: code.to_owned(),
            message: message.to_owned(),
            retryable: false,
            tip: None,
        },
    )
}

/// Who carries out the tool call.
pub fn route_tool(
    name: &str,
    family: ToolFamily,
    profile: MainAgentProfile,
    images: bool,
    model: &str,
) -> (route: ToolRoute)
    ensures
        routed(route, name@, family, profile, images, model@),
{
    if same(name, COMPACT_TOOL) {
        return ToolRoute::Compact;
    }
    if same(name, SET_TITLE_TOOL) {
        return ToolRoute::Title;
    }
    let is_image = same(name, IMAGE_INFO_TOOL) || same(name, IMAGE_VIEW_TOOL);
    if profile == MainAgentProfile::Worker && is_image {
        return refuse("worker_image_forbidden", WORKER_IMAGE_FORBIDDEN);
    }
    if same(name, IMAGE_INFO_TOOL) {
        return ToolRoute::ImageInfo;
    }
    if same(name, IMAGE_VIEW_TOOL) {
        if images {
            return ToolRoute::ImageView;
        }
        let message = join3(
            "the current model ",
            model,
            " does not support image input; select an image-capable model before using Image.View",
        );
        return refuse("image_input_unsupported", message.as_str());
    }
    match family {
        ToolFamily::Worker => if profile != MainAgentProfile::Manager {
            refuse("worker_tool_forbidden", WORKER_TOOL_FORBIDDEN)
        } else {
            ToolRoute::Worker
        },
        ToolFamily::Agent => refuse("agent_tool_disabled", AGENT_TOOL_DISABLED),
        ToolFamily::WorkMap => ToolRoute::WorkMap,
        ToolFamily::Other => if same(name, "File.Edit") {
            ToolRoute::Edit
        } else {
            ToolRoute::Toolbox
        },
    }
}

/// The stream of a name, for what tools put out.
pub open spec fn output_stream(name: Seq<char>) -> Option<ToolOutputStream> {
    if name == "stdout"@ {
        Some(ToolOutputStream::Stdout)
    } else if name == "stderr"@ {
        Some(ToolOutputStream::Stderr)
    } else {
        None
    }
}

/// What is written of lines that a tool put out: those that are not blank.
pub open spec fn output_notes(
    tool_call: EventId,
    stream: ToolOutputStream,
    lines: Seq<Seq<char>>,
) -> Seq<Note>
    decreases lines.len(),
{
    if lines.len() == 0 {
        Seq::empty()
    } else {
        let before = output_notes(tool_call, stream, lines.drop_last());
        if is_blank(lines.last()) {
            before
        } else {
            before.push(Note::Output { tool_call, stream, content: lines.last() })
        }
    }
}

/// What is said of a stream that tools do not have.
pub open spec fn unsupported_stream(tool: Seq<char>, stream: Seq<char>) -> Seq<char> {
    ("toolbox update for "@ + tool + " uses unsupported stream "@) + quoted(stream) + ""@
}

/// Whether something was written, or why not.
pub open spec fn written_or_full(
    before: &EventDataBase,
    after: &EventDataBase,
    notes: Seq<Note>,
    result: Result<(), Seq<char>>,
) -> bool {
    if before.room(notes.len() as int) {
        result is Ok && written(before, after, notes)
    } else {
        result == Err::<(), Seq<char>>(NO_IDENTITIES@) && *after == *before
    }
}

/// Writes down what a running tool put out, line by line. Blank lines are left out.
pub fn append_tool_text(
    edb: &mut EventDataBase,
    tool_call_id: EventId,
    tool: &str,
    stream: &str,
    content: &str,
) -> (result: Result<(), String>)
    requires
        old(edb).wf(),
    ensures
        final(edb).wf(),
        match output_stream(stream@) {
            None => *final(edb) == *old(edb) && match result {
                Ok(_) => false,
                Err(error) => error@ == unsupported_stream(tool@, stream@),
            },
            Some(known) => written_or_full(
                old(edb),
                final(edb),
                output_notes(tool_call_id, known, lines_of(content@)),
                crate::inputs::said(result),
            ),
        },
{
    let known = if same(stream, "stdout") {
        ToolOutputStream::Stdout
    } else if same(stream, "stderr") {
        ToolOutputStream::Stderr
    } else {
        let start = join3("toolbox update for ", tool, " uses unsupported stream ");
        return Err(join3(start.as_str(), debug_text(stream).as_str(), ""));
    };
    let list = lines(content);
    let ghost all = lines_of(content@);
    let mut bodies: Vec<EventBody> = Vec::new();
    let mut place: usize = 0;
    assert(all.take(0) =~= Seq::<Seq<char>>::empty());
    assert(notes_of(bodies@) =~= Seq::<Note>::empty());
    while place < list.len()
        invariant
            place <= list@.len(),
            views(list@) == all,
            notes_of(bodies@) == output_notes(tool_call_id, known, all.take(place as int)),
        decreases list@.len() - place,
    {
        assert(all.take(place + 1).drop_last() =~= all.take(place as int));
        assert(all[place as int] == list@[place as int]@);
        if !blank(list[place].as_str()) {
            let ghost before = bodies@;
            bodies.push(
                EventBody::ToolInfoUpdate(
                    ToolInfoUpdate {
                        tool_call_id,
                        stream: known,
                        content: ToolInfoContent::Text(list[place].clone()),
                    },
                ),
            );
            assert(notes_of(bodies@) =~= notes_of(before).push(
                Note::Output {
                    tool_call: tool_call_id,
                    stream: known,
                    content: all[place as int],
                },
            ));
        }
        place += 1;
    }
    assert(all.take(place as int) =~= all);
    assert(notes_of(bodies@).len() == bodies@.len());
    append_all(edb, bodies)
}

/// Writes down a frame of a terminal, as the JSON text of its form for a model.
pub fn append_terminal_update(edb: &mut EventDataBase, tool_call_id: EventId, frame: String) -> (
    result: Result<(), String>)
    requires
        old(edb).wf(),
    ensures
        final(edb).wf(),
        written_or_full(
            old(edb),
            final(edb),
            seq![
                Note::Frame {
                    tool_call: tool_call_id,
                    stream: ToolOutputStream::Terminal,
                    frame: frame@,
                },
            ],
            crate::inputs::said(result),
        ),
{
    let ghost owed = seq![
        Note::Frame {
            tool_call: tool_call_id,
            stream: ToolOutputStream::Terminal,
            frame: frame@,
        },
    ];
    let mut bodies: Vec<EventBody> = Vec::new();
    bodies.push(
        EventBody::ToolInfoUpdate(
            ToolInfoUpdate {
                tool_call_id,
                stream: ToolOutputStream::Terminal,
                content: ToolInfoContent::Terminal(frame),
            },
        ),
    );
    assert(notes_of(bodies@) =~= owed);
    append_all(edb, bodies)
}

/// What is written of the end of a tool call.
pub open spec fn end_note(tool_call: EventId, state: ToolResultState, detail: Seq<char>) -> Note {
    Note::Ended { tool_call, state, exit_code: None, detail }
}

/// A failure as its caller is told.
pub open spec fn failure_value(failure: ToolFailure) -> JsonView {
    let error = Map::<Seq<char>, JsonView>::empty().insert(
        "code"@,
        JsonView::Text(failure.code@),
    ).insert("message"@, JsonView::Text(failure.message@)).insert(
        "retryable"@,
        JsonView::Bool(failure.retryable),
    );
    JsonView::Object(
        Map::empty().insert(
            "error"@,
            JsonView::Object(
                match failure.tip {
                    Some(tip) => error.insert("tip"@, JsonView::Text(tip@)),
                    None => error,
                },
            ),
        ),
    )
}

fn failure_json(failure: &ToolFailure) -> (value: Json)
    ensures
        value@ == failure_value(*failure),
{
    let base = Json::object().with("code", Json::text(failure.code.as_str())).with(
        "message",
        Json::text(failure.message.as_str()),
    ).with("retryable", Json::Bool(failure.retryable));
    let error = match &failure.tip {
        Some(tip) => base.with("tip", Json::text(tip.as_str())),
        None => base,
    };
    Json::object().with("error", error)
}

fn end_tool(edb: &mut EventDataBase, tool_call_id: EventId, state: ToolResultState, detail: String) -> (
result: Result<(), String>)
    requires
        old(edb).wf(),
    ensures
        final(edb).wf(),
        written_or_full(
            old(edb),
            final(edb),
            seq![end_note(tool_call_id, state, detail@)],
            crate::inputs::said(result),
        ),
{
    let ghost owed = seq![end_note(tool_call_id, state, detail@)];
    let mut bodies: Vec<EventBody> = Vec::new();
    bodies.push(ended_note(tool_call_id, state, detail));
    assert(notes_of(bodies@) =~= owed);
    append_all(edb, bodies)
}

/// Writes down that a tool failed, and why.
pub fn append_tool_failure(edb: &mut EventDataBase, tool_call_id: EventId, failure: &ToolFailure) -> (
result: Result<(), String>)
    requires
        old(edb).wf(),
    ensures
        final(edb).wf(),
        written_or_full(
            old(edb),
            final(edb),
            seq![
                end_note(
                    tool_call_id,
                    ToolResultState::Failed,
                    json_written(failure_value(*failure)),
                ),
            ],
            crate::inputs::said(result),
        ),
{
    let detail = write_json(&failure_json(failure));
    end_tool(edb, tool_call_id, ToolResultState::Failed, detail)
}

/// What is written where tool calls do not run.
pub open spec fn interrupted_notes(tool_calls: Seq<EventId>) -> Seq<Note> {
    Seq::new(
        tool_calls.len(),
        |i: int| end_note(tool_calls[i], ToolResultState::Interrupted, ""@),
    )
}

/// Ends the tool calls from the place on, which do not run.
pub fn interrupt_tool_batch(tool_calls: &Vec<EventId>, from: usize, edb: &mut EventDataBase) -> (
    result: Result<(), String>)
    requires
        old(edb).wf(),
        from <= tool_calls@.len(),
    ensures
        final(edb).wf(),
        written_or_full(
            old(edb),
            final(edb),
            interrupted_notes(tool_calls@.skip(from as int)),
            crate::inputs::said(result),
        ),
{
    let ghost all = interrupted_notes(tool_calls@.skip(from as int));
    let mut bodies: Vec<EventBody> = Vec::new();
    let mut place: usize = from;
    assert(notes_of(bodies@) =~= all.take(0));
    while place < tool_calls.len()
        invariant
            from <= place <= tool_calls@.len(),
            all == interrupted_notes(tool_calls@.skip(from as int)),
            notes_of(bodies@) == all.take(place - from),
        decreases tool_calls@.len() - place,
    {
        let ghost before = bodies@;
        bodies.push(
            ended_note(tool_calls[place], ToolResultState::Interrupted, "".to_owned()),
        );
        assert(notes_of(bodies@) =~= notes_of(before).push(all[place - from]));
        assert(all.take(place - from + 1) =~= all.take(place - from).push(all[place - from]));
        place += 1;
    }
    assert(all.take(place - from) =~= all);
    assert(notes_of(bodies@).len() == bodies@.len());
    append_all(edb, bodies)
}

/// Whether the event is the success of the tool call.
pub open spec fn is_success(event: Event, tool_call_id: EventId) -> bool {
    crate::context::is_success(event, tool_call_id)
}

/// Whether the tool call succeeded.
pub fn tool_call_succeeded(events: &Vec<Event>, tool_call_id: EventId) -> (found: bool)
    ensures
        found == exists|i: int| 0 <= i < events@.len() && is_success(#[trigger] events@[i], tool_call_id),
{
    let mut place: usize = events.len();
    while place > 0
        invariant
            place <= events@.len(),
            forall|i: int|
                place <= i < events@.len() ==> !is_success(#[trigger] events@[i], tool_call_id),
        decreases place,
    {
        place -= 1;
        if let EventBody::ToolCallResult(result) = &events[place].body {
            if result.tool_call_id == tool_call_id && result.state == ToolResultState::Succeeded {
                assert(is_success(events@[place as int], tool_call_id));
                return true;
            }
        }
    }
    false
}

/// Whether a wait was broken off so that what the user added can be heard.
pub open spec fn yields(tool: Seq<char>, output: JsonView) -> bool {
    &&& tool == WORKER_WAIT@ || tool == AGENT_WAIT@
    &&& json_text(json_get(output, "state"@)) == Some("wait_interrupted"@)
    &&& json_text(json_get(output, "reason"@)) == Some("follow_up"@)
}

fn text_is(text: Option<&str>, expected: &str) -> (result: bool)
    ensures
        result == (match text {
            Some(found) => found@ == expected@,
            None => false,
        }),
{
    match text {
        Some(found) => same(found, expected),
        None => false,
    }
}

/// Whether a wait was broken off so that what the user added can be heard.
pub fn wait_result_requests_follow_up_yield(tool_name: &str, output: &Json) -> (result: bool)
    ensures
        result == yields(tool_name@, output@),
{
    (same(tool_name, WORKER_WAIT) || same(tool_name, AGENT_WAIT)) && text_is(
        output.text_at("state"),
        "wait_interrupted",
    ) && text_is(output.text_at("reason"), "follow_up")
}

/// What came of carrying out a tool.
#[derive(Debug)]
pub enum ToolExecution {
    Output(Json),
    Failed(ToolFailure),
    Interrupted,
    Broken,
}

/// What is next once a tool has ended: the next tool, or what the user added.
#[derive(Clone, Copy, Debug, PartialEq, Eq, Structural)]
pub enum ToolExecutionOutcome {
    Completed,
    YieldForFollowUp,
}

/// What a file that was read gives, without what may be edited of it.
pub open spec fn raw_output(output: JsonView) -> JsonView {
    match output {
        JsonView::Object(entries) => JsonView::Object(entries.remove("editable_ranges"@)),
        other => other,
    }
}

/// The result of a read as a value, before anything of it is cut.
pub open spec fn read_value(output: JsonView) -> JsonView {
    structured(
        UpdatesView::empty(),
        end_value(
            ToolResultState::Succeeded,
            None,
            detail_value(json_written(raw_output(output))),
        ),
    )
}

/// The result of a read as a value, before anything of it is cut.
pub fn read_result_value(output: &Json) -> (value: Json)
    ensures
        value@ == read_value(output@),
{
    broadcast use lemma_array_items;

    let raw = output.without("editable_ranges");
    let updates = ToolUpdates { terminal: Vec::new(), other: Vec::new() };
    assert(updates@.terminal =~= Seq::<JsonView>::empty());
    assert(updates@.other =~= Seq::<JsonView>::empty());
    let result = ToolCallResult {
        tool_call_id: 0,
        state: ToolResultState::Succeeded,
        exit_code: None,
        detail: write_json(&raw),
    };
    structured_tool_result_value(updates, &result)
}

/// The ranges of a file that may be edited.
pub open spec fn ranges_at(files: Map<Seq<char>, ScopeView>, path: Seq<char>) -> JsonView {
    if files.dom().contains(path) {
        ranges_view(files[path].ranges)
    } else {
        JsonView::Array(Seq::empty())
    }
}

/// The output of a read with what may be edited of the file, given how the result is shown.
pub open spec fn read_output(
    files: Map<Seq<char>, ScopeView>,
    arguments: Option<JsonView>,
    output: JsonView,
    shown: JsonView,
) -> JsonView {
    let seen = after_result(files, "File.Read"@, arguments, true, shown).0;
    match (output, json_text(json_get(output, "path"@))) {
        (JsonView::Object(entries), Some(path)) => JsonView::Object(
            entries.insert("editable_ranges"@, ranges_at(seen, path)),
        ),
        _ => output,
    }
}

fn with_editable_ranges(
    call: &ToolCall,
    output: Json,
    shown: Json,
    projection: FileEditScopeProjection,
) -> (result: Json)
    requires
        scopes_ok(projection@),
        call.name@ == "File.Read"@,
    ensures
        result@ == read_output(projection@, json_read(call.arguments@), output@, shown@),
{
    broadcast use lemma_array_items;

    let mut projection = projection;
    let mut visible = shown;
    let result = ToolCallResult {
        tool_call_id: 0,
        state: ToolResultState::Succeeded,
        exit_code: None,
        detail: String::new(),
    };
    let arguments = match parse_json(call.arguments.as_str()) {
        Ok(json) => Some(json),
        Err(_) => None,
    };
    projection.apply_result(call, &arguments, &result, &mut visible);
    let path = match output.text_at("path") {
        Some(path) => path.to_owned(),
        None => return output,
    };
    if !output.is_object() {
        return output;
    }
    let ranges = match projection.ranges_of_file(path.as_str()) {
        Some(ranges) => ranges,
        None => {
            let none: Vec<Json> = Vec::new();
            assert(array_view(none@) =~= Seq::<JsonView>::empty());
            Json::Array(none)
        },
    };
    output.with("editable_ranges", ranges)
}

/// The output that is written down, or why there is none.
pub open spec fn final_output(
    edb: &EventDataBase,
    effective: Seq<Event>,
    forms: Seq<ResultForm>,
    call: ToolCall,
    output: JsonView,
    shown: Option<JsonView>,
) -> Result<JsonView, Seq<char>> {
    if call.name@ == "File.Read"@ {
        match scopes_after(edb@, effective, forms, None, effective.len() as int) {
            Err(error) => Err(error),
            Ok(files) => Ok(
                read_output(
                    files,
                    json_read(call.arguments@),
                    output,
                    match shown {
                        Some(form) => form,
                        None => read_value(output),
                    },
                ),
            ),
        }
    } else {
        Ok(output)
    }
}

/// What is written of the end of a tool call, and what is next.
pub open spec fn tool_end(
    edb: &EventDataBase,
    effective: Seq<Event>,
    forms: Seq<ResultForm>,
    id: EventId,
    call: ToolCall,
    execution: ToolExecution,
    shown: Option<JsonView>,
) -> Result<(ToolExecutionOutcome, Note), Seq<char>> {
    match execution {
        ToolExecution::Output(json) => match final_output(
            edb,
            effective,
            forms,
            call,
            json@,
            shown,
        ) {
            Err(error) => Err(error),
            Ok(output) => Ok(
                (
                    if yields(call.name@, output) {
                        ToolExecutionOutcome::YieldForFollowUp
                    } else {
                        ToolExecutionOutcome::Completed
                    },
                    end_note(id, ToolResultState::Succeeded, json_written(output)),
                ),
            ),
        },
        ToolExecution::Failed(failure) => Ok(
            (
                ToolExecutionOutcome::Completed,
                end_note(id, ToolResultState::Failed, json_written(failure_value(failure))),
            ),
        ),
        ToolExecution::Interrupted => Ok(
            (ToolExecutionOutcome::Completed, end_note(id, ToolResultState::Interrupted, ""@)),
        ),
        ToolExecution::Broken => Ok(
            (ToolExecutionOutcome::Completed, end_note(id, ToolResultState::Interrupted, ""@)),
        ),
    }
}

/// Ends a tool call. Of a file that was read, the output says what may be edited. `effective` are
/// the events that still count, `forms` the results that are shown in another form than their own,
/// and `shown` the form of this result where something of it is cut.
pub fn execute_tool(
    edb: &mut EventDataBase,
    effective: &Vec<Event>,
    forms: &Vec<ResultForm>,
    id: EventId,
    call: &ToolCall,
    execution: ToolExecution,
    shown: Option<Json>,
) -> (result: Result<ToolExecutionOutcome, String>)
    requires
        old(edb).wf(),
    ensures
        final(edb).wf(),
        match tool_end(
            old(edb),
            effective@,
            forms@,
            id,
            *call,
            execution,
            match shown {
                Some(form) => Some(form@),
                None => None,
            },
        ) {
            Err(text) => *final(edb) == *old(edb) && match result {
                Ok(_) => false,
                Err(error) => error@ == text,
            },
            Ok((outcome, note)) => if old(edb).room(1) {
                result == Ok::<ToolExecutionOutcome, String>(outcome) && written(
                    old(edb),
                    final(edb),
                    seq![note],
                )
            } else {
                *final(edb) == *old(edb) && match result {
                    Ok(_) => false,
                    Err(error) => error@ == NO_IDENTITIES@,
                }
            },
        },
{
    let mut outcome = ToolExecutionOutcome::Completed;
    let done = match execution {
        ToolExecution::Output(json) => {
            let output = if same(call.name.as_str(), "File.Read") {
                let projection = match projected_file_edit_scopes(edb, effective, forms, None) {
                    Ok(projection) => projection,
                    Err(error) => return Err(error),
                };
                let visible = match shown {
                    Some(form) => form,
                    None => read_result_value(&json),
                };
                with_editable_ranges(call, json, visible, projection)
            } else {
                json
            };
            if wait_result_requests_follow_up_yield(call.name.as_str(), &output) {
                outcome = ToolExecutionOutcome::YieldForFollowUp;
            }
            end_tool(edb, id, ToolResultState::Succeeded, write_json(&output))
        },
        ToolExecution::Failed(failure) => append_tool_failure(edb, id, &failure),
        ToolExecution::Interrupted => end_tool(
            edb,
            id,
            ToolResultState::Interrupted,
            "".to_owned(),
        ),
        ToolExecution::Broken => end_tool(edb, id, ToolResultState::Interrupted, "".to_owned()),
    };
    match done {
        Ok(()) => Ok(outcome),
        Err(error) => Err(error),
    }
}

/// What a tool that shows an image gives: the event that keeps the image, and what is known of it.
pub open spec fn image_output(event: EventId, metadata: JsonView) -> JsonView {
    JsonView::Object(
        Map::empty().insert("image_event_id"@, JsonView::Integer(event as int)).insert(
            "image"@,
            metadata,
        ),
    )
}

/// Keeps the image that a tool shows in the log.
pub fn store_image(edb: &mut EventDataBase, image: ImageContent, metadata: Json) -> (result: Result<
    Json,
    String,
>)
    requires
        old(edb).wf(),
    ensures
        final(edb).wf(),
        if old(edb).room(1) {
            &&& final(edb).grown(old(edb), 1)
            &&& final(edb).added(old(edb), 0) == EventBody::ImageContent(image)
            &&& match result {
                Ok(output) => output@ == image_output(old(edb).next_id, metadata@),
                Err(_) => false,
            }
        } else {
            *final(edb) == *old(edb) && match result {
                Ok(_) => false,
                Err(error) => error@ == NO_IDENTITIES@,
            }
        },
{
    if !crate::notes::has_room(edb, 1) {
        return Err(NO_IDENTITIES.to_owned());
    }
    let id = edb.append(EventBody::ImageContent(image));
    Ok(Json::object().with("image_event_id", Json::Unsigned(id)).with("image", metadata))
}

/// What a tool call is known to have done, though its end was never written.
#[derive(Debug)]
pub struct PersistedResult {
    pub tool_call_id: EventId,
    pub output: Json,
}

/// What the tool call is known to have done.
pub open spec fn persisted(results: Seq<PersistedResult>, tool_call: EventId) -> Option<JsonView>
    decreases results.len(),
{
    if results.len() == 0 {
        None
    } else if results[0].tool_call_id == tool_call {
        Some(results[0].output@)
    } else {
        persisted(results.skip(1), tool_call)
    }
}

/// What is written of the tool calls that have not ended when an agent starts again.
pub open spec fn restart_notes(calls: Seq<ToolCallState>, results: Seq<PersistedResult>) -> Seq<Note>
    decreases calls.len(),
{
    if calls.len() == 0 {
        Seq::empty()
    } else {
        let before = restart_notes(calls.drop_last(), results);
        if calls.last().finished {
            before
        } else {
            before.push(
                match persisted(results, calls.last().id) {
                    Some(output) => end_note(
                        calls.last().id,
                        ToolResultState::Succeeded,
                        json_written(output),
                    ),
                    None => end_note(calls.last().id, ToolResultState::Interrupted, ""@),
                },
            )
        }
    }
}

fn find_persisted(results: &Vec<PersistedResult>, tool_call: EventId) -> (output: Option<&Json>)
    ensures
        crate::json::json_maybe(output) == persisted(results@, tool_call),
{
    let mut place: usize = 0;
    assert(results@.skip(0) =~= results@);
    while place < results.len()
        invariant
            place <= results@.len(),
            persisted(results@.skip(place as int), tool_call) == persisted(results@, tool_call),
        decreases results@.len() - place,
    {
        assert(results@.skip(place as int).skip(1) =~= results@.skip(place + 1));
        if results[place].tool_call_id == tool_call {
            return Some(&results[place].output);
        }
        place += 1;
    }
    None
}

/// Why the tool calls of a log could not be ended.
#[derive(Debug)]
pub enum ToolRestartError {
    History(ToolHistoryError),
    NoIdentities,
}

/// Ends the tool calls that had not ended when the agent stopped: with what they are known to have
/// done, or as interrupted.
pub fn reconcile_tool_calls(edb: &mut EventDataBase, results: &Vec<PersistedResult>) -> (done: Result<
    (),
    ToolRestartError,
>)
    requires
        old(edb).wf(),
    ensures
        final(edb).wf(),
        match tool_states(old(edb)@, old(edb)@.len() as int) {
            Err(error) => *final(edb) == *old(edb) && done == Err::<(), ToolRestartError>(
                ToolRestartError::History(error),
            ),
            Ok(calls) => if old(edb).room(restart_notes(calls, results@).len() as int) {
                done is Ok && written(old(edb), final(edb), restart_notes(calls, results@))
            } else {
                *final(edb) == *old(edb) && done == Err::<(), ToolRestartError>(
                    ToolRestartError::NoIdentities,
                )
            },
        },
{
    let calls = match tool_call_states(edb) {
        Ok(calls) => calls,
        Err(error) => return Err(ToolRestartError::History(error)),
    };
    let mut bodies: Vec<EventBody> = Vec::new();
    let mut place: usize = 0;
    assert(calls@.take(0) =~= Seq::<ToolCallState>::empty());
    assert(notes_of(bodies@) =~= Seq::<Note>::empty());
    while place < calls.len()
        invariant
            place <= calls@.len(),
            notes_of(bodies@) == restart_notes(calls@.take(place as int), results@),
        decreases calls@.len() - place,
    {
        assert(calls@.take(place + 1).drop_last() =~= calls@.take(place as int));
        let call = calls[place];
        if !call.finished {
            let ghost before = bodies@;
            let body = match find_persisted(results, call.id) {
                Some(output) => ended_note(
                    call.id,
                    ToolResultState::Succeeded,
                    write_json(output),
                ),
                None => ended_note(call.id, ToolResultState::Interrupted, "".to_owned()),
            };
            bodies.push(body);
            assert(notes_of(bodies@) =~= notes_of(before).push(note_of(body)));
        }
        place += 1;
    }
    assert(calls@.take(place as int) =~= calls@);
    assert(notes_of(bodies@).len() == bodies@.len());
    match append_all(edb, bodies) {
        Ok(()) => Ok(()),
        Err(_) => Err(ToolRestartError::NoIdentities),
    }
}

} // verus!
