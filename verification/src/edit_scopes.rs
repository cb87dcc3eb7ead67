//! The part of a file that a tool may edit, as the conversation gives it.
use vstd::prelude::*;

use crate::context::{
    detail_value, end_value, form_of, shown_form, structured, structured_tool_result_value,
    ResultForm, ToolUpdates, UpdatesView,
};
use crate::event::{Event, EventBody, EventDataBase, EventId, ToolCallResult, ToolResultState};
use crate::file_scope::{after_result, scope_view, scopes_ok, FileEditScopeProjection, ScopeView};
use crate::json::{
    json_failure, json_get, json_read, json_text, json_written, lemma_array_items, parse_json,
    write_json, Json, JsonView,
};
use crate::text::{
    decimal, forward_slashes, logical_path, occurs_at, same, say2, starts_with, views,
    without_dot_prefix,
};
use crate::tool_calls::{find_tool_call, tool_call_with};
use crate::transfer::{names_along, path_names};

verus! {

/// What a model has seen of each file after one more event. Reads of a request that is still under
/// way are hidden where they are asked to be.
pub open spec fn scopes_step(
    events: Seq<Event>,
    forms: Seq<ResultForm>,
    hidden: Option<EventId>,
    files: Map<Seq<char>, ScopeView>,
    event: Event,
) -> Result<Map<Seq<char>, ScopeView>, Seq<char>> {
    match event.body {
        EventBody::ToolCallResult(result) => match tool_call_with(events, result.tool_call_id) {
            None => Err(
                "File edit scope projection found result "@ + decimal(event.id as nat)
                    + " without call "@ + decimal(result.tool_call_id as nat) + ""@,
            ),
            Some(call) => if !occurs_at(call.name@, "File."@, 0) || (call.name@ == "File.Read"@
                && hidden == Some(call.api_call_id)) {
                Ok(files)
            } else {
                let own = structured(
                    UpdatesView::empty(),
                    end_value(result.state, result.exit_code, detail_value(result.detail@)),
                );
                Ok(
                    after_result(
                        files,
                        call.name@,
                        json_read(call.arguments@),
                        result.state == ToolResultState::Succeeded,
                        shown_form(forms, event.id, own),
                    ).0,
                )
            },
        },
        _ => Ok(files),
    }
}

/// What a model has seen of each file after the first events.
pub open spec fn scopes_after(
    events: Seq<Event>,
    effective: Seq<Event>,
    forms: Seq<ResultForm>,
    hidden: Option<EventId>,
    count: int,
) -> Result<Map<Seq<char>, ScopeView>, Seq<char>>
    decreases count,
{
    if count <= 0 {
        Ok(Map::empty())
    } else {
        match scopes_after(events, effective, forms, hidden, count - 1) {
            Err(error) => Err(error),
            Ok(files) => scopes_step(events, forms, hidden, files, effective[count - 1]),
        }
    }
}

proof fn lemma_scopes_error_stays(
    events: Seq<Event>,
    effective: Seq<Event>,
    forms: Seq<ResultForm>,
    hidden: Option<EventId>,
    early: int,
    late: int,
)
    requires
        early <= late,
        scopes_after(events, effective, forms, hidden, early) is Err,
    ensures
        scopes_after(events, effective, forms, hidden, late) == scopes_after(
            events,
            effective,
            forms,
            hidden,
            early,
        ),
    decreases late - early,
{
    if early < late {
        lemma_scopes_error_stays(events, effective, forms, hidden, early, late - 1);
    }
}

fn note_result(
    projection: &mut FileEditScopeProjection,
    edb: &EventDataBase,
    forms: &Vec<ResultForm>,
    hidden: Option<EventId>,
    id: EventId,
    result: &ToolCallResult,
) -> (done: Result<(), String>)
    requires
        scopes_ok(old(projection)@),
    ensures
        scopes_ok(final(projection)@),
        match scopes_step(
            edb@,
            forms@,
            hidden,
            old(projection)@,
            (Event { id, body: EventBody::ToolCallResult(*result) }),
        ) {
            Ok(files) => done is Ok && final(projection)@ == files,
            Err(text) => match done {
                Ok(_) => false,
                Err(error) => error@ == text,
            },
        },
{
    broadcast use lemma_array_items;

    let call = match find_tool_call(&edb.events, result.tool_call_id) {
        Some(call) => call,
        None => return Err(
            say2(
                "File edit scope projection found result ",
                id,
                " without call ",
                result.tool_call_id,
                "",
            ),
        ),
    };
    if !starts_with(call.name.as_str(), "File.") {
        return Ok(());
    }
    let is_hidden = match hidden {
        Some(request) => request == call.api_call_id,
        None => false,
    };
    if same(call.name.as_str(), "File.Read") && is_hidden {
        return Ok(());
    }
    let updates = ToolUpdates { terminal: Vec::new(), other: Vec::new() };
    assert(updates@.terminal =~= Seq::<JsonView>::empty());
    assert(updates@.other =~= Seq::<JsonView>::empty());
    let own = structured_tool_result_value(updates, result);
    let mut visible = form_of(forms, id, own);
    let arguments = match parse_json(call.arguments.as_str()) {
        Ok(json) => Some(json),
        Err(_) => None,
    };
    projection.apply_result(call, &arguments, result, &mut visible);
    Ok(())
}

/// What a model has seen of each file. `effective` are the events that still count.
pub fn projected_file_edit_scopes(
    edb: &EventDataBase,
    effective: &Vec<Event>,
    forms: &Vec<ResultForm>,
    hidden: Option<EventId>,
) -> (result: Result<FileEditScopeProjection, String>)
    ensures
        match scopes_after(edb@, effective@, forms@, hidden, effective@.len() as int) {
            Ok(files) => match result {
                Ok(projection) => projection@ == files && scopes_ok(files),
                Err(_) => false,
            },
            Err(text) => match result {
                Ok(_) => false,
                Err(error) => error@ == text,
            },
        },
{
    let mut projection = FileEditScopeProjection::new();
    let mut place: usize = 0;
    while place < effective.len()
        invariant
            place <= effective@.len(),
            scopes_ok(projection@),
            scopes_after(edb@, effective@, forms@, hidden, place as int) == Ok::<
                Map<Seq<char>, ScopeView>,
                Seq<char>,
            >(projection@),
        decreases effective@.len() - place,
    {
        if let EventBody::ToolCallResult(result) = &effective[place].body {
            match note_result(&mut projection, edb, forms, hidden, effective[place].id, result) {
                Ok(()) => {},
                Err(error) => {
                    proof {
                        lemma_scopes_error_stays(
                            edb@,
                            effective@,
                            forms@,
                            hidden,
                            place + 1,
                            effective@.len() as int,
                        );
                    }
                    return Err(error);
                },
            }
        }
        place += 1;
    }
    Ok(projection)
}

/// The path that an edit asks for, or what is wrong with its arguments.
pub open spec fn edit_path(arguments: JsonView) -> Result<Seq<char>, Seq<char>> {
    if !(arguments is Object) {
        Err("File.Edit arguments must be a JSON object"@)
    } else {
        match json_text(json_get(arguments, "path"@)) {
            Some(path) => Ok(path),
            None => Err("File.Edit path must be a string"@),
        }
    }
}

/// The path that the edit asks for.
pub fn file_edit_path(arguments: &Json) -> (result: Result<String, String>)
    ensures
        match result {
            Ok(path) => edit_path(arguments@) == Ok::<Seq<char>, Seq<char>>(path@),
            Err(error) => edit_path(arguments@) == Err::<Seq<char>, Seq<char>>(error@),
        },
{
    if !arguments.is_object() {
        return Err("File.Edit arguments must be a JSON object".to_owned());
    }
    match arguments.text_at("path") {
        Some(path) => Ok(path.to_owned()),
        None => Err("File.Edit path must be a string".to_owned()),
    }
}

/// The scope of a file under its path, if any of it has been seen.
pub open spec fn scope_of(files: Map<Seq<char>, ScopeView>, path: Seq<char>) -> JsonView {
    if files.dom().contains(path) {
        scope_view(path, files[path])
    } else {
        JsonView::Null
    }
}

/// The path under which a file is known: the one that the file system gives, or the one that was
/// asked for, written the usual way.
pub open spec fn known_path(normalized: Option<Seq<char>>, asked: Seq<char>) -> Seq<char> {
    match normalized {
        Some(path) => path,
        None => without_dot_prefix(forward_slashes(asked)),
    }
}

/// The arguments of an edit with the scope of its file.
pub fn with_edit_scope(
    arguments: Json,
    normalized: Option<&str>,
    projection: &FileEditScopeProjection,
) -> (result: Result<Json, String>)
    ensures
        match edit_path(arguments@) {
            Ok(asked) => match result {
                Ok(json) => json@ == JsonView::Object(
                    arguments@->Object_0.insert(
                        "_edit_scope"@,
                        scope_of(
                            projection@,
                            known_path(crate::prompts::slice_in(normalized), asked),
                        ),
                    ),
                ),
                Err(_) => false,
            },
            Err(text) => match result {
                Ok(_) => false,
                Err(error) => error@ == text,
            },
        },
{
    let asked = match file_edit_path(&arguments) {
        Ok(path) => path,
        Err(error) => return Err(error),
    };
    let path = match normalized {
        Some(path) => path.to_owned(),
        None => logical_path(asked.as_str()),
    };
    Ok(arguments.with("_edit_scope", projection.scope_value(path.as_str())))
}

/// The arguments that an edit is carried out with: those that the model gave, with what it has seen
/// of the file before this request. `normalized` is the path that the file system gives for the one
/// that is asked for, if any.
pub fn file_edit_execution_arguments(
    edb: &EventDataBase,
    effective: &Vec<Event>,
    forms: &Vec<ResultForm>,
    arguments: &str,
    normalized: Option<&str>,
    current_api_call_id: EventId,
) -> (result: Result<String, String>)
    ensures
        ({
            let files = scopes_after(
                edb@,
                effective@,
                forms@,
                Some(current_api_call_id),
                effective@.len() as int,
            );
            match json_read(arguments@) {
                None => match result {
                    Ok(_) => false,
                    Err(error) => error@ == json_failure(arguments@),
                },
                Some(read) => match edit_path(read) {
                    Err(text) => match result {
                        Ok(_) => false,
                        Err(error) => error@ == text,
                    },
                    Ok(asked) => match files {
                        Err(text) => match result {
                            Ok(_) => false,
                            Err(error) => error@ == text,
                        },
                        Ok(seen) => match result {
                            Ok(text) => text@ == json_written(
                                JsonView::Object(
                                    read->Object_0.insert(
                                        "_edit_scope"@,
                                        scope_of(
                                            seen,
                                            known_path(
                                                crate::prompts::slice_in(normalized),
                                                asked,
                                            ),
                                        ),
                                    ),
                                ),
                            ),
                            Err(_) => false,
                        },
                    },
                },
            }
        }),
{
    let read = match parse_json(arguments) {
        Ok(json) => json,
        Err(error) => return Err(error),
    };
    match file_edit_path(&read) {
        Ok(_) => {},
        Err(error) => return Err(error),
    }
    let projection = match projected_file_edit_scopes(
        edb,
        effective,
        forms,
        Some(current_api_call_id),
    ) {
        Ok(projection) => projection,
        Err(error) => return Err(error),
    };
    match with_edit_scope(read, normalized, &projection) {
        Ok(json) => Ok(write_json(&json)),
        Err(error) => Err(error),
    }
}

/// Names in a row, with a slash between any two.
pub open spec fn slashed(names: Seq<Seq<char>>) -> Seq<char>
    decreases names.len(),
{
    if names.len() == 0 {
        Seq::empty()
    } else if names.len() == 1 {
        names[0]
    } else {
        slashed(names.drop_last()) + "/"@ + names.last()
    }
}

/// Whether names begin with other names.
pub open spec fn begins_with(names: Seq<Seq<char>>, first: Seq<Seq<char>>) -> bool {
    first.len() <= names.len() && names.take(first.len() as int) == first
}

/// The path by which tools know a file: below the workspace the part behind it, elsewhere all of it
/// with forward slashes.
pub open spec fn tool_path(root: Seq<char>, target: Seq<char>) -> Seq<char> {
    if begins_with(path_names(target), path_names(root)) {
        slashed(path_names(target).skip(path_names(root).len() as int))
    } else {
        forward_slashes(target)
    }
}

fn slash_names(names: &Vec<String>, from: usize) -> (text: String)
    requires
        from <= names@.len(),
    ensures
        text@ == slashed(views(names@).skip(from as int)),
{
    let ghost all = views(names@).skip(from as int);
    let mut text = String::new();
    let mut place: usize = from;
    assert(text@ =~= slashed(all.take(0)));
    while place < names.len()
        invariant
            from <= place <= names@.len(),
            all == views(names@).skip(from as int),
            text@ == slashed(all.take(place - from)),
        decreases names@.len() - place,
    {
        let ghost more = all.take(place - from + 1);
        assert(more.drop_last() =~= all.take(place - from));
        assert(more.last() == names@[place as int]@);
        if place > from {
            text.append("/");
        }
        text.append(names[place].as_str());
        assert(text@ =~= slashed(more));
        place += 1;
    }
    assert(all.take(place - from) =~= all);
    text
}

fn names_begin_with(names: &Vec<String>, first: &Vec<String>) -> (result: bool)
    ensures
        result == begins_with(views(names@), views(first@)),
{
    if first.len() > names.len() {
        return false;
    }
    let mut place: usize = 0;
    while place < first.len()
        invariant
            place <= first@.len() <= names@.len(),
            forall|i: int| 0 <= i < place ==> names@[i]@ == first@[i]@,
        decreases first@.len() - place,
    {
        if !same(names[place].as_str(), first[place].as_str()) {
            assert(views(names@).take(first@.len() as int)[place as int]
                != views(first@)[place as int]);
            return false;
        }
        place += 1;
    }
    assert(views(names@).take(first@.len() as int) =~= views(first@));
    true
}

/// The path by which tools know the file. Both paths are those that the file system gives.
pub fn normalized_file_tool_path(root: &str, target: &str) -> (path: String)
    ensures
        path@ == tool_path(root@, target@),
{
    let names = names_along(target);
    let first = names_along(root);
    assert(views(first@).len() == first@.len());
    if names_begin_with(&names, &first) {
        slash_names(&names, first.len())
    } else {
        crate::text::with_forward_slashes(target)
    }
}

} // verus!
