//! What can be relied on of the tools of an agent: who carries a call out, what is written of its
//! end, what a model may edit, and how a turn goes from one step to the next.
use vstd::prelude::*;

use crate::agent_loop::{
    first_compact_call, has_succeeded, is_compact_call, loop_step, LoopAction, LoopEvent,
    LoopPhase, LoopView, ModelRequestOutcome, TurnEnd,
};
use crate::context::ResultForm;
use crate::edit_scopes::{
    edit_path, known_path, scope_of, scopes_after, scopes_step, slashed, tool_path,
};
use crate::event::{
    AgentTurnState, Event, EventBody, EventDataBase, EventId, ToolCall, ToolOutputStream,
    ToolResultState,
};
use crate::file_scope::{
    after_result, changes_file, ranges_view, read_scope, shown_detail, with_editable,
    ScopeView,
};
use crate::json::{json_get, json_text, json_written, JsonView};
use crate::notes::Note;
use crate::profile::MainAgentProfile;
use crate::text::is_blank;
use crate::tool_calls::{tool_call_with, ToolCallState};
use crate::tools::{
    failure_value, final_output, image_output, interrupted_notes, output_notes, output_stream,
    persisted, raw_output, read_output, restart_notes, routed, tool_end, yields, PersistedResult,
    ToolExecution, ToolExecutionOutcome, ToolFailure, ToolFamily, ToolRoute,
};
use crate::transfer::path_names;

verus! {

/// Whether a call is refused under a code.
pub open spec fn refused(route: ToolRoute, code: Seq<char>) -> bool {
    route matches ToolRoute::Refused(failure) && failure.code@ == code
}

proof fn lemma_tools_differ()
    ensures
        "Compact"@.len() == 7,
        "SetTitle"@.len() == 8,
        "Image.Info"@.len() == 10 && "Image.Info"@[6] == 'I',
        "Image.View"@.len() == 10 && "Image.View"@[6] == 'V',
        "File.Edit"@.len() == 9 && "File.Edit"@[5] == 'E',
        "File.Read"@.len() == 9 && "File.Read"@[5] == 'R',
        "worker_image_forbidden"@.len() == 22,
        "image_input_unsupported"@.len() == 23,
        "worker_tool_forbidden"@.len() == 21,
        "agent_tool_disabled"@.len() == 19,
{
    reveal_strlit("Compact");
    reveal_strlit("SetTitle");
    reveal_strlit("Image.Info");
    reveal_strlit("Image.View");
    reveal_strlit("File.Edit");
    reveal_strlit("File.Read");
    reveal_strlit("worker_image_forbidden");
    reveal_strlit("image_input_unsupported");
    reveal_strlit("worker_tool_forbidden");
    reveal_strlit("agent_tool_disabled");
}

/// Who carries out a call: only a manager has workers; no agent controls agents; a worker sees no
/// images, and a model is shown one only if it takes images; an edit is carried out with what was
/// seen of the file. Whatever is refused is refused for good, and whatever is not, is carried out.
pub proof fn law_calls_go_where_they_may(
    route: ToolRoute,
    name: Seq<char>,
    family: ToolFamily,
    profile: MainAgentProfile,
    images: bool,
    model: Seq<char>,
)
    requires
        routed(route, name, family, profile, images, model),
    ensures
        ({
            let own = name == "Compact"@ || name == "SetTitle"@;
            let image = name == "Image.Info"@ || name == "Image.View"@;
            let worker = profile == MainAgentProfile::Worker;
            &&& route is Compact <==> name == "Compact"@
            &&& route is Title <==> name == "SetTitle"@
            &&& route is ImageInfo <==> name == "Image.Info"@ && !worker
            &&& route is ImageView <==> name == "Image.View"@ && !worker && images
            &&& route is Worker <==> !own && !image && family == ToolFamily::Worker && profile
                == MainAgentProfile::Manager
            &&& route is WorkMap <==> !own && !image && family == ToolFamily::WorkMap
            &&& route is Edit <==> family == ToolFamily::Other && name == "File.Edit"@
            &&& route is Toolbox <==> !own && !image && family == ToolFamily::Other && name
                != "File.Edit"@
            &&& refused(route, "worker_image_forbidden"@) <==> image && worker
            &&& refused(route, "image_input_unsupported"@) <==> name == "Image.View"@ && !worker
                && !images
            &&& refused(route, "worker_tool_forbidden"@) <==> !own && !image && family
                == ToolFamily::Worker && profile != MainAgentProfile::Manager
            &&& refused(route, "agent_tool_disabled"@) <==> !own && !image && family
                == ToolFamily::Agent
            &&& route matches ToolRoute::Refused(failure) ==> !failure.retryable && failure.tip
                is None
        }),
{
    lemma_tools_differ();
}

/// A stream of output is known by its name, and by no other.
pub proof fn law_streams_are_known_by_name(name: Seq<char>)
    ensures
        output_stream(name) == Some(ToolOutputStream::Stdout) <==> name == "stdout"@,
        output_stream(name) == Some(ToolOutputStream::Stderr) <==> name == "stderr"@,
        output_stream(name) is None <==> name != "stdout"@ && name != "stderr"@,
{
    reveal_strlit("stdout");
    reveal_strlit("stderr");
    assert("stdout"@[3] == 'o');
    assert("stderr"@[3] == 'e');
}

/// What a tool puts out is written line by line, each as it is and in their order, but for lines
/// that are blank.
pub proof fn law_output_is_written(
    tool_call: EventId,
    stream: ToolOutputStream,
    first: Seq<Seq<char>>,
    second: Seq<Seq<char>>,
    line: Seq<char>,
)
    ensures
        output_notes(tool_call, stream, first + second) == output_notes(tool_call, stream, first)
            + output_notes(tool_call, stream, second),
        output_notes(tool_call, stream, seq![line]) == (if is_blank(line) {
            Seq::empty()
        } else {
            seq![Note::Output { tool_call, stream, content: line }]
        }),
    decreases second.len(),
{
    if second.len() == 0 {
        assert(first + second =~= first);
        assert(output_notes(tool_call, stream, first) + output_notes(tool_call, stream, second)
            =~= output_notes(tool_call, stream, first));
    } else {
        law_output_is_written(tool_call, stream, first, second.drop_last(), line);
        assert((first + second).drop_last() =~= first + second.drop_last());
        assert(output_notes(tool_call, stream, first + second) =~= output_notes(
            tool_call,
            stream,
            first,
        ) + output_notes(tool_call, stream, second));
    }
    assert(seq![line].drop_last() =~= Seq::<Seq<char>>::empty());
    assert(output_notes(tool_call, stream, seq![line].drop_last()) =~= Seq::<Note>::empty());
    let note = Note::Output { tool_call, stream, content: line };
    assert(Seq::<Note>::empty().push(note) =~= seq![note]);
}

/// A failure tells its caller what went wrong, whether it may pass, and what to do, if anything.
pub proof fn law_failures_are_told(failure: ToolFailure)
    ensures
        json_get(failure_value(failure), "error"@) matches Some(error) && json_get(error, "code"@)
            == Some(JsonView::Text(failure.code@)) && json_get(error, "message"@) == Some(
            JsonView::Text(failure.message@),
        ) && json_get(error, "retryable"@) == Some(JsonView::Bool(failure.retryable)) && json_get(
            error,
            "tip"@,
        ) == (match failure.tip {
            Some(tip) => Some(JsonView::Text(tip@)),
            None => None,
        }),
{
    reveal_strlit("code");
    reveal_strlit("message");
    reveal_strlit("retryable");
    reveal_strlit("tip");
    assert("code"@.len() == 4);
    assert("message"@.len() == 7);
    assert("retryable"@.len() == 9);
    assert("tip"@.len() == 3);
}

/// What is written of the end of a call is what came of it: the output of a success, all of a
/// failure, and nothing of a call that was broken off. It is a success only where there is output.
pub proof fn law_ends_are_written_as_they_came(
    edb: &EventDataBase,
    effective: Seq<Event>,
    forms: Seq<ResultForm>,
    id: EventId,
    call: ToolCall,
    execution: ToolExecution,
    shown: Option<JsonView>,
)
    requires
        tool_end(edb, effective, forms, id, call, execution, shown) is Ok,
    ensures
        ({
            let (next, note) = tool_end(edb, effective, forms, id, call, execution, shown)->Ok_0;
            &&& note matches Note::Ended { tool_call, state, exit_code, detail }
            &&& tool_call == id
            &&& exit_code is None
            &&& state == ToolResultState::Succeeded <==> execution is Output
            &&& state == ToolResultState::Failed <==> execution is Failed
            &&& execution matches ToolExecution::Output(json) ==> (call.name@ != "File.Read"@
                ==> detail == json_written(json@))
            &&& execution matches ToolExecution::Output(json) ==> (call.name@ == "File.Read"@ ==> (
            final_output(edb, effective, forms, call, json@, shown) matches Ok(output) && detail
                == json_written(output)))
            &&& execution matches ToolExecution::Failed(failure) ==> detail == json_written(
                failure_value(failure),
            )
            &&& execution is Interrupted || execution is Broken ==> state
                == ToolResultState::Interrupted && detail.len() == 0
            &&& next == ToolExecutionOutcome::YieldForFollowUp ==> execution is Output && (
            call.name@ == "Worker.Wait"@ || call.name@ == "Agent.Wait"@)
        }),
{
    reveal_strlit("");
}

/// A wait gives way to what the user added if and only if it says that it was broken off for that.
pub proof fn law_waits_give_way(tool: Seq<char>, output: JsonView)
    ensures
        yields(tool, output) <==> (tool == "Worker.Wait"@ || tool == "Agent.Wait"@) && json_get(
            output,
            "state"@,
        ) == Some(JsonView::Text("wait_interrupted"@)) && json_get(output, "reason"@) == Some(
            JsonView::Text("follow_up"@),
        ),
{
}

/// A file that was read is written down as it is, but for the ranges that may be edited.
pub proof fn law_reads_are_kept(
    files: Map<Seq<char>, ScopeView>,
    arguments: Option<JsonView>,
    output: JsonView,
    shown: JsonView,
    key: Seq<char>,
    path: Seq<char>,
)
    requires
        key != "editable_ranges"@,
    ensures
        json_get(read_output(files, arguments, output, shown), key) == json_get(output, key),
        json_get(raw_output(output), key) == json_get(output, key),
        json_get(raw_output(output), "editable_ranges"@) is None,
        output is Object && json_get(output, "path"@) == Some(JsonView::Text(path)) ==> ({
            let seen = after_result(files, "File.Read"@, arguments, true, shown).0;
            json_get(read_output(files, arguments, output, shown), "editable_ranges"@) == Some(
                if seen.dom().contains(path) {
                    ranges_view(seen[path].ranges)
                } else {
                    JsonView::Array(Seq::empty())
                },
            )
        }),
{
}

/// Images are told of with the event that keeps them and all that is known of them.
pub proof fn law_images_are_told(event: EventId, metadata: JsonView)
    ensures
        json_get(image_output(event, metadata), "image_event_id"@) == Some(
            JsonView::Integer(event as int),
        ),
        json_get(image_output(event, metadata), "image"@) == Some(metadata),
{
    reveal_strlit("image_event_id");
    reveal_strlit("image");
    assert("image_event_id"@.len() == 14);
    assert("image"@.len() == 5);
}

/// Calls that do not run are ended, each of them and in their order.
pub proof fn law_calls_that_do_not_run_are_ended(tool_calls: Seq<EventId>, place: int)
    ensures
        interrupted_notes(tool_calls).len() == tool_calls.len(),
        0 <= place < tool_calls.len() ==> (interrupted_notes(tool_calls)[place] matches Note::Ended {
            tool_call,
            state,
            exit_code,
            detail,
        } && tool_call == tool_calls[place] && state == ToolResultState::Interrupted && exit_code
            is None && detail.len() == 0),
{
    reveal_strlit("");
}

/// After a restart a call that has not ended is ended: with the output that it is known to have
/// had, or else as interrupted. One that has ended is left alone.
pub proof fn law_open_calls_are_ended(
    first: Seq<ToolCallState>,
    second: Seq<ToolCallState>,
    results: Seq<PersistedResult>,
    call: ToolCallState,
)
    ensures
        restart_notes(first + second, results) == restart_notes(first, results) + restart_notes(
            second,
            results,
        ),
        call.finished ==> restart_notes(seq![call], results).len() == 0,
        !call.finished ==> restart_notes(seq![call], results) == seq![
            Note::Ended {
                tool_call: call.id,
                state: if persisted(results, call.id) is Some {
                    ToolResultState::Succeeded
                } else {
                    ToolResultState::Interrupted
                },
                exit_code: None,
                detail: match persisted(results, call.id) {
                    Some(output) => json_written(output),
                    None => ""@,
                },
            },
        ],
    decreases second.len(),
{
    if second.len() == 0 {
        assert(first + second =~= first);
        assert(restart_notes(first, results) + restart_notes(second, results) =~= restart_notes(
            first,
            results,
        ));
    } else {
        law_open_calls_are_ended(first, second.drop_last(), results, call);
        assert((first + second).drop_last() =~= first + second.drop_last());
        assert(restart_notes(first + second, results) =~= restart_notes(first, results)
            + restart_notes(second, results));
    }
    assert(seq![call].drop_last() =~= Seq::<ToolCallState>::empty());
    assert(restart_notes(seq![call].drop_last(), results) =~= Seq::<Note>::empty());
    if !call.finished {
        assert(restart_notes(seq![call], results).len() == 1);
    }
}

/// What a call is known to have done is what was kept under its identity.
pub proof fn law_kept_results_are_found(results: Seq<PersistedResult>, tool_call: EventId)
    ensures
        persisted(results, tool_call) is Some <==> exists|i: int|
            0 <= i < results.len() && (#[trigger] results[i]).tool_call_id == tool_call,
        persisted(results, tool_call) matches Some(output) ==> exists|i: int|
            0 <= i < results.len() && (#[trigger] results[i]).tool_call_id == tool_call
                && results[i].output@ == output,
    decreases results.len(),
{
    if results.len() > 0 {
        let rest = results.skip(1);
        law_kept_results_are_found(rest, tool_call);
        if results[0].tool_call_id != tool_call {
            if exists|i: int|
                0 <= i < results.len() && (#[trigger] results[i]).tool_call_id == tool_call {
                let i = choose|i: int|
                    0 <= i < results.len() && (#[trigger] results[i]).tool_call_id == tool_call;
                assert(rest[i - 1].tool_call_id == tool_call);
            }
            if let Some(output) = persisted(rest, tool_call) {
                let i = choose|i: int|
                    0 <= i < rest.len() && (#[trigger] rest[i]).tool_call_id == tool_call
                        && rest[i].output@ == output;
                assert(results[i + 1] == rest[i]);
            }
        }
    }
}

/// The ranges that may be edited are shown with a read, and nothing else of it is changed.
pub proof fn law_editable_ranges_are_shown(visible: JsonView, ranges: JsonView, key: Seq<char>)
    requires
        shown_detail(visible) is Some,
    ensures
        shown_detail(with_editable(visible, ranges)) matches Some(detail) && json_get(
            detail,
            "editable_ranges"@,
        ) == Some(ranges) && (key != "editable_ranges"@ ==> json_get(detail, key) == json_get(
            shown_detail(visible)->0,
            key,
        )),
        key != "result"@ ==> json_get(with_editable(visible, ranges), key) == json_get(
            visible,
            key,
        ),
        key != "detail"@ ==> json_get(json_get(with_editable(visible, ranges), "result"@)->0, key)
            == json_get(json_get(visible, "result"@)->0, key),
{
}

/// What a model has seen of a file counts until the file is changed: reading it shows it under its
/// path and changes nothing of other files; changing it, moving or copying something there, or
/// learning that it is stale, forgets it and nothing else; all else changes nothing.
pub proof fn law_changed_files_are_forgotten(
    files: Map<Seq<char>, ScopeView>,
    name: Seq<char>,
    arguments: Option<JsonView>,
    succeeded: bool,
    visible: JsonView,
    detail: JsonView,
    path: Seq<char>,
    other: Seq<char>,
)
    requires
        shown_detail(visible) == Some(detail),
        json_get(detail, "path"@) == Some(JsonView::Text(path)),
    ensures
        ({
            let after = after_result(files, name, arguments, succeeded, visible).0;
            let kept = after.dom().contains(other) == files.dom().contains(other) && (
            files.dom().contains(other) ==> after[other] == files[other]);
            let to = json_text(json_get(detail, "destination"@));
            &&& other != path && to != Some(other) ==> kept
            &&& name == "File.Read"@ && succeeded && json_text(json_get(detail, "hash"@)) is Some
                ==> after.dom().contains(path) && after[path] == read_scope(
                if files.dom().contains(path) {
                    Some(files[path])
                } else {
                    None
                },
                json_text(json_get(detail, "hash"@))->0,
                detail,
            ) && (other != path ==> kept)
            &&& succeeded && changes_file(name) ==> !after.dom().contains(path)
            &&& succeeded && (name == "File.Move"@ || name == "File.Copy"@) && to == Some(other)
                ==> !after.dom().contains(other)
            &&& !succeeded && (name != "File.Edit"@ || json_get(detail, "error"@) is None)
                ==> after == files
            &&& !succeeded && name == "File.Edit"@ && (json_get(detail, "error"@) matches Some(
                error,
            ) && json_get(error, "code"@) == Some(JsonView::Text("stale_read"@)))
                ==> !after.dom().contains(path)
            &&& !changes_file(name) && name != "File.Read"@ && name != "File.Copy"@ ==> after
                == files
        }),
{
    lemma_changing_tools();
}

proof fn lemma_changing_tools()
    ensures
        !changes_file("File.Read"@),
        "File.Read"@ != "File.Move"@,
        "File.Read"@ != "File.Copy"@,
        "File.Read"@ != "File.Edit"@,
        changes_file("File.Edit"@),
        changes_file("File.EditBytes"@),
        changes_file("File.Append"@),
        changes_file("File.Replace"@),
        changes_file("File.Move"@),
        changes_file("File.Delete"@),
        changes_file("File.Create"@),
{
    reveal_strlit("File.Read");
    reveal_strlit("File.Edit");
    reveal_strlit("File.EditBytes");
    reveal_strlit("File.Append");
    reveal_strlit("File.Replace");
    reveal_strlit("File.Move");
    reveal_strlit("File.Delete");
    reveal_strlit("File.Create");
    reveal_strlit("File.Copy");
    assert("File.Read"@.len() == 9 && "File.Read"@[5] == 'R');
    assert("File.Edit"@[5] == 'E');
    assert("File.EditBytes"@.len() == 14);
    assert("File.Append"@.len() == 11);
    assert("File.Replace"@.len() == 12);
    assert("File.Move"@[5] == 'M');
    assert("File.Copy"@[5] == 'C');
    assert("File.Delete"@.len() == 11);
    assert("File.Create"@.len() == 11);
}

/// Every tool that changes files forgets what was seen of them.
pub proof fn law_tools_that_change_files(name: Seq<char>)
    ensures
        changes_file(name) <==> name == "File.Edit"@ || name == "File.EditBytes"@ || name
            == "File.Append"@ || name == "File.Replace"@ || name == "File.Move"@ || name
            == "File.Delete"@ || name == "File.Create"@,
{
}

/// A file that was read is known by its digest; it is known to its end once its end was shown, if
/// it is empty, or if it was known to its end before and is the same.
pub proof fn law_read_files_are_known(before: Option<ScopeView>, hash: Seq<char>, detail: JsonView)
    ensures
        read_scope(before, hash, detail).hash == hash,
        json_get(detail, "total_lines"@) matches Some(JsonView::Integer(number)) && 0 <= number
            <= u64::MAX ==> read_scope(before, hash, detail).total_lines == json_get(
            detail,
            "total_lines"@,
        )->0->Integer_0,
        before matches Some(scope) && scope.hash == hash && scope.eof ==> read_scope(
            before,
            hash,
            detail,
        ).eof,
        read_scope(before, hash, detail).eof ==> (before matches Some(scope) && scope.hash == hash
            && scope.eof) || read_scope(before, hash, detail).total_lines == 0 || (json_get(
            detail,
            "eof"@,
        ) == Some(JsonView::Bool(true)) && crate::file_scope::shown_lines(detail).contains(
            read_scope(before, hash, detail).total_lines,
        )),
        json_get(detail, "eof"@) == Some(JsonView::Bool(true)) && crate::file_scope::shown_lines(
            detail,
        ).contains(read_scope(before, hash, detail).total_lines) ==> read_scope(
            before,
            hash,
            detail,
        ).eof,
{
}

/// An edit is carried out with all that was seen of its file, and with nothing where nothing was.
pub proof fn law_edits_know_what_was_seen(
    files: Map<Seq<char>, ScopeView>,
    path: Seq<char>,
    place: int,
)
    ensures
        !files.dom().contains(path) ==> scope_of(files, path) == JsonView::Null,
        files.dom().contains(path) ==> {
            let seen = scope_of(files, path);
            let scope = files[path];
            &&& json_get(seen, "path"@) == Some(JsonView::Text(path))
            &&& json_get(seen, "hash"@) == Some(JsonView::Text(scope.hash))
            &&& json_get(seen, "total_lines"@) == Some(JsonView::Integer(scope.total_lines as int))
            &&& json_get(seen, "eof"@) == Some(JsonView::Bool(scope.eof))
            &&& json_get(seen, "ranges"@) matches Some(JsonView::Array(ranges))
            &&& ranges.len() == scope.ranges.len()
            &&& 0 <= place < ranges.len() ==> json_get(ranges[place], "start_line"@) == Some(
                JsonView::Integer(scope.ranges[place].0 as int),
            ) && json_get(ranges[place], "end_line"@) == Some(
                JsonView::Integer(scope.ranges[place].1 as int),
            )
        },
{
    reveal_strlit("path");
    reveal_strlit("hash");
    reveal_strlit("ranges");
    reveal_strlit("total_lines");
    reveal_strlit("eof");
    reveal_strlit("start_line");
    reveal_strlit("end_line");
    assert("path"@.len() == 4 && "path"@[0] == 'p');
    assert("hash"@.len() == 4 && "hash"@[0] == 'h');
    assert("ranges"@.len() == 6);
    assert("total_lines"@.len() == 11);
    assert("eof"@.len() == 3);
    assert("start_line"@.len() == 10);
    assert("end_line"@.len() == 8);
}

/// The path of an edit is the one in its arguments, and a file is known by the path that the file
/// system gives.
pub proof fn law_paths_of_edits(arguments: JsonView, path: Seq<char>, asked: Seq<char>)
    ensures
        json_get(arguments, "path"@) == Some(JsonView::Text(path)) ==> edit_path(arguments) == Ok::<
            Seq<char>,
            Seq<char>,
        >(path),
        json_text(json_get(arguments, "path"@)) is None ==> edit_path(arguments) is Err,
        known_path(Some(path), asked) == path,
{
}

/// Only files count, and of those not what was read in the request that is under way; what was seen
/// of files changes with nothing but the ends of calls of file tools.
pub proof fn law_only_file_tools_show_files(
    events: Seq<Event>,
    forms: Seq<ResultForm>,
    hidden: Option<EventId>,
    files: Map<Seq<char>, ScopeView>,
    event: Event,
)
    ensures
        !(event.body is ToolCallResult) ==> scopes_step(events, forms, hidden, files, event) == Ok::<
            Map<Seq<char>, ScopeView>,
            Seq<char>,
        >(files),
        event.body matches EventBody::ToolCallResult(result) && (tool_call_with(
            events,
            result.tool_call_id,
        ) matches Some(call) && call.name@ == "File.Read"@ && hidden == Some(call.api_call_id))
            ==> scopes_step(events, forms, hidden, files, event) == Ok::<
            Map<Seq<char>, ScopeView>,
            Seq<char>,
        >(files),
        event.body matches EventBody::ToolCallResult(result) && tool_call_with(
            events,
            result.tool_call_id,
        ) is None ==> scopes_step(events, forms, hidden, files, event) is Err,
        scopes_after(events, Seq::empty(), forms, hidden, 0) == Ok::<
            Map<Seq<char>, ScopeView>,
            Seq<char>,
        >(Map::empty()),
{
}

/// Below a workspace a file goes by the names behind the workspace's.
pub proof fn law_files_go_by_their_place_in_the_workspace(
    root: Seq<char>,
    target: Seq<char>,
    below: Seq<Seq<char>>,
)
    requires
        path_names(target) == path_names(root) + below,
    ensures
        tool_path(root, target) == slashed(below),
{
    assert((path_names(root) + below).take(path_names(root).len() as int) =~= path_names(root));
    assert((path_names(root) + below).skip(path_names(root).len() as int) =~= below);
}

/// A turn is completed only by an answer that calls no tool, and every such answer completes it; a
/// model is asked only once the inputs are taken; a tool runs only if the turn is not to end, and
/// only one that was called; a compaction begins only once a call for it succeeded and all calls
/// have run.
pub proof fn law_turns_go_step_by_step(
    turn: LoopView,
    event: LoopEvent,
    events: Seq<Event>,
    abort: bool,
)
    requires
        0 <= turn.next <= turn.calls.len(),
    ensures
        ({
            let (after, action) = loop_step(turn, event, events, abort);
            &&& action == LoopAction::Close(TurnEnd::Answered) <==> turn.phase == LoopPhase::Request
                && (event matches LoopEvent::Answered { outcome, advised } && (outcome matches
                ModelRequestOutcome::Completed(calls) && calls@.len() == 0))
            &&& action is RequestModel <==> turn.phase == LoopPhase::Inputs && event
                == LoopEvent::Inputs(crate::agent_loop::InputsOutcome::Done)
            &&& action is Close || action is Abandon || action is MissingCall ==> after.phase
                == LoopPhase::Ended
            &&& action matches LoopAction::RunTool(id) ==> !abort && after.phase
                == LoopPhase::Tools && 0 < after.next <= after.calls.len() && id
                == after.calls[after.next - 1]
            &&& action matches LoopAction::Compact(id) ==> after.phase == LoopPhase::Compaction
                && after.next >= after.calls.len() && after.compact_call == Some(id)
                && has_succeeded(events, id)
            &&& turn.phase == LoopPhase::Request && (event matches LoopEvent::Answered {
                outcome,
                advised,
            } && outcome matches ModelRequestOutcome::Completed(calls) && calls@.len() > 0)
                ==> after.calls == event->Answered_outcome->Completed_0@
            &&& after.prompt == turn.prompt
        }),
{
}

/// The call for a compaction is the first of the calls that is one.
pub proof fn law_compaction_is_found(events: Seq<Event>, calls: Seq<EventId>)
    ensures
        first_compact_call(events, calls) is None <==> forall|i: int|
            0 <= i < calls.len() ==> !is_compact_call(events, #[trigger] calls[i]),
        first_compact_call(events, calls) matches Some(id) ==> is_compact_call(events, id)
            && calls.contains(id),
    decreases calls.len(),
{
    if calls.len() > 0 {
        let rest = calls.skip(1);
        law_compaction_is_found(events, rest);
        if is_compact_call(events, calls[0]) {
            assert(calls.contains(calls[0]));
        } else {
            if let Some(id) = first_compact_call(events, rest) {
                let i = choose|i: int| 0 <= i < rest.len() && rest[i] == id;
                assert(calls[i + 1] == id);
            } else {
                assert forall|i: int| 0 <= i < calls.len() implies !is_compact_call(
                    events,
                    #[trigger] calls[i],
                ) by {
                    if i > 0 {
                        assert(calls[i] == rest[i - 1]);
                    }
                }
            }
            if forall|i: int| 0 <= i < calls.len() ==> !is_compact_call(events, #[trigger] calls[i]) {
                assert forall|i: int| 0 <= i < rest.len() implies !is_compact_call(
                    events,
                    #[trigger] rest[i],
                ) by {
                    assert(!is_compact_call(events, calls[i + 1]));
                }
            }
        }
    }
}

/// A turn is complete only where it was answered, and every other end says why.
pub proof fn law_ends_of_turns_say_why(end: TurnEnd)
    ensures
        end.outcome() == AgentTurnState::Completed <==> end == TurnEnd::Answered,
        end.outcome() == AgentTurnState::Interrupted <==> end != TurnEnd::Answered,
        end.text().len() == 0 <==> end == TurnEnd::Answered,
{
    reveal_strlit("");
    reveal_strlit("user requested turn abort");
    reveal_strlit("Agent turn stopped by a context control");
    reveal_strlit("model request did not complete normally");
    reveal_strlit("user requested turn abort during Compact");
}

/// A caller that is refused reads why, and that trying again will not help.
pub proof fn law_refusals_say_why(
    route: ToolRoute,
    name: Seq<char>,
    family: ToolFamily,
    profile: MainAgentProfile,
    images: bool,
    model: Seq<char>,
)
    requires
        routed(route, name, family, profile, images, model),
    ensures
        route matches ToolRoute::Refused(failure) ==> {
            &&& !failure.retryable
            &&& failure.tip is None
            &&& failure.code@ == "worker_tool_forbidden"@ ==> failure.message@
                == "Worker tools are available only to ManagerAgent."@
            &&& failure.code@ == "agent_tool_disabled"@ ==> failure.message@
                == "The Agent toolbox is disabled and cannot create or control sub-Agents. Continue with the other available tools."@
            &&& failure.code@ == "worker_image_forbidden"@ ==> failure.message@
                == "Worker cannot inspect images. Return the image path or URL to the Manager for direct inspection with Image."@
            &&& failure.code@ == "image_input_unsupported"@ ==> failure.message@
                == "the current model "@ + model
                + " does not support image input; select an image-capable model before using Image.View"@
        },
{
    reveal_strlit("worker_tool_forbidden");
    reveal_strlit("agent_tool_disabled");
    reveal_strlit("worker_image_forbidden");
    reveal_strlit("image_input_unsupported");
    assert("worker_tool_forbidden"@.len() == 21 && "agent_tool_disabled"@.len() == 19
        && "worker_image_forbidden"@.len() == 22 && "image_input_unsupported"@.len() == 23);
}

/// The names along a path are put together with a slash between any two.
pub proof fn law_names_are_put_together_with_slashes(names: Seq<Seq<char>>, name: Seq<char>)
    ensures
        slashed(Seq::empty()).len() == 0,
        slashed(seq![name]) == name,
        names.len() > 0 ==> slashed(names.push(name)) == slashed(names) + seq!['/'] + name,
{
    reveal_strlit("/");
    assert("/"@ =~= seq!['/']);
    assert(names.push(name).drop_last() =~= names);
}

} // verus!
