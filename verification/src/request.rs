//! A request to a model, from its beginning to its end.
use vstd::prelude::*;

use crate::buffers::{
    calls_view, chunks_view, completed_calls, completed_response_is_empty, event_usage, items_view,
    recorded_usage, AssistResponseBuffer, AssistResponseChunk, AssistView, CallView, ChunkView,
    CompactResponseBuffer, CompactView, CompletedToolCall, MainResponseBuffer, MainView,
    EMPTY_MODEL_RESPONSE_ERROR,
};
use crate::catalog::ToolboxCatalog;
use crate::compact_run::StageOutcome;
use crate::compacts::COMPACT_TOOL;
use crate::event::{
    ApiState, ApiUsage, AssistResponse, Event, EventBody, EventDataBase, EventId, ModelContextItem,
    ToolCall, ToolTraits, NO_ABORT_TARGET,
};
use crate::input_queue::{OrchestratorInput, OrchestratorInputQueue};
use crate::inputs::begin_turn_abort_if_requested;
use crate::json::{json_written, write_json, Json, JsonView};
use crate::notes::{
    append_all, estimate_note, notes_of, plain_request, request_note, retry_note, written, Note,
    NO_IDENTITIES,
};
use crate::stream::ModelUsage;
use crate::text::{contains, decimal, join3, occurs_in, same, say1};
use crate::turns::active_turn;

verus! {

/// How many further tries a request gets.
pub const API_RETRY_LIMIT: u8 = 5;

/// Whether a request may be tried again after the failure: one that the provider cannot read would
/// fail again.
pub open spec fn retryable(error: Seq<char>) -> bool {
    !occurs_in(error, " 400 Bad Request:"@)
}

/// Whether a request may be tried again after the failure.
pub fn model_request_error_is_retryable(error: &str) -> (result: bool)
    ensures
        result == retryable(error@),
{
    !contains(error, " 400 Bad Request:")
}

/// What is said of a request that failed for good.
pub open spec fn failure_detail(error: Seq<char>, again: bool) -> Seq<char> {
    if again {
        ("API request interrupted after "@ + decimal((API_RETRY_LIMIT + 1) as nat)
            + " attempts; retry limit exhausted: "@) + error + ""@
    } else {
        "API request interrupted after a non-retryable error: "@ + error + ""@
    }
}

/// What is written of a failure: the error, and a further try or the end.
pub open spec fn failure_notes(
    api_call: EventId,
    prompt: EventId,
    retry_count: u8,
    usage: Option<ApiUsage>,
    error: Seq<char>,
    again: bool,
) -> Seq<Note> {
    seq![
        plain_request(api_call, prompt, ApiState::Error, usage, error),
        if again && retry_count < API_RETRY_LIMIT {
            Note::Request {
                api_call,
                prompt,
                state: ApiState::Retrying,
                retry_count: (retry_count + 1) as u8,
                retry_limit: API_RETRY_LIMIT,
                usage: None,
                detail: error,
            }
        } else {
            plain_request(
                api_call,
                prompt,
                ApiState::Interrupted,
                None,
                failure_detail(error, again),
            )
        },
    ]
}

/// Writes down a failure of a request. Whether there is a further try is the result.
pub fn record_api_failure(
    edb: &mut EventDataBase,
    api_call_id: EventId,
    prompt_id: EventId,
    retry_count: u8,
    usage: Option<ApiUsage>,
    error: &str,
    again: bool,
) -> (result: Result<bool, String>)
    requires
        old(edb).wf(),
    ensures
        final(edb).wf(),
        if old(edb).room(2) {
            &&& result == Ok::<bool, String>(again && retry_count < API_RETRY_LIMIT)
            &&& written(
                old(edb),
                final(edb),
                failure_notes(api_call_id, prompt_id, retry_count, usage, error@, again),
            )
        } else {
            *final(edb) == *old(edb) && match result {
                Ok(_) => false,
                Err(said) => said@ == NO_IDENTITIES@,
            }
        },
{
    let attempt = Attempt {
        prompt_id,
        api_call_id,
        retry_count,
        streaming: true,
        aborted: false,
    };
    let mut bodies: Vec<EventBody> = Vec::new();
    push_failure(&mut bodies, &attempt, usage, error, again);
    assert(notes_of(bodies@) =~= failure_notes(
        api_call_id,
        prompt_id,
        retry_count,
        usage,
        error@,
        again,
    ));
    match append_all(edb, bodies) {
        Ok(()) => Ok(again && retry_count < API_RETRY_LIMIT),
        Err(said) => Err(said),
    }
}

/// What is written at the end of a request: the end, and how its tokens divide where it reports
/// any. `next` is the identity of the end.
pub open spec fn terminal_notes(
    next: EventId,
    api_call: EventId,
    prompt: EventId,
    state: ApiState,
    usage: Option<ApiUsage>,
    detail: Seq<char>,
    sum: u64,
) -> Seq<Note> {
    let end = seq![plain_request(api_call, prompt, state, usage, detail)];
    if usage is Some {
        end.push(Note::Estimate { api_state: next, sum })
    } else {
        end
    }
}

/// What is said of an estimate for a request that has not ended in order.
pub open spec fn not_an_end(state: ApiState) -> Seq<char> {
    "context usage estimate cannot close API request as "@ + state.name() + ""@
}

fn push_terminal(
    bodies: &mut Vec<EventBody>,
    next: EventId,
    api_call_id: EventId,
    prompt_id: EventId,
    state: ApiState,
    usage: Option<ApiUsage>,
    detail: &str,
    sum: u64,
)
    ensures
        notes_of(final(bodies)@) == notes_of(old(bodies)@) + terminal_notes(
            next,
            api_call_id,
            prompt_id,
            state,
            usage,
            detail@,
            sum,
        ),
{
    bodies.push(request_note(api_call_id, prompt_id, state, usage, detail));
    if usage.is_some() {
        bodies.push(estimate_note(next, sum));
    }
    assert(notes_of(bodies@) =~= notes_of(old(bodies)@) + terminal_notes(
        next,
        api_call_id,
        prompt_id,
        state,
        usage,
        detail@,
        sum,
    ));
}

/// Writes down the end of a request, and how its tokens divide. `sum` is the sum of the division.
pub fn append_api_terminal_with_context_usage(
    edb: &mut EventDataBase,
    api_call_id: EventId,
    prompt_id: EventId,
    state: ApiState,
    usage: Option<ApiUsage>,
    detail: &str,
    sum: u64,
) -> (result: Result<EventId, String>)
    requires
        old(edb).wf(),
    ensures
        final(edb).wf(),
        if state != ApiState::Completed && state != ApiState::Interrupted {
            *final(edb) == *old(edb) && match result {
                Ok(_) => false,
                Err(error) => error@ == not_an_end(state),
            }
        } else if !old(edb).room(if usage is Some { 2 } else { 1 }) {
            *final(edb) == *old(edb) && match result {
                Ok(_) => false,
                Err(error) => error@ == NO_IDENTITIES@,
            }
        } else {
            &&& result == Ok::<EventId, String>(old(edb).next_id)
            &&& written(
                old(edb),
                final(edb),
                terminal_notes(
                    old(edb).next_id,
                    api_call_id,
                    prompt_id,
                    state,
                    usage,
                    detail@,
                    sum,
                ),
            )
        },
{
    if state != ApiState::Completed && state != ApiState::Interrupted {
        return Err(
            join3("context usage estimate cannot close API request as ", state.label(), ""),
        );
    }
    let id = edb.next_id;
    let mut bodies: Vec<EventBody> = Vec::new();
    assert(notes_of(bodies@) =~= Seq::<Note>::empty());
    push_terminal(&mut bodies, id, api_call_id, prompt_id, state, usage, detail, sum);
    assert(notes_of(bodies@) =~= terminal_notes(
        id,
        api_call_id,
        prompt_id,
        state,
        usage,
        detail@,
        sum,
    ));
    match append_all(edb, bodies) {
        Ok(()) => Ok(id),
        Err(error) => Err(error),
    }
}

/// A try of a request.
#[derive(Clone, Copy, Debug, PartialEq, Eq, Structural)]
pub struct Attempt {
    pub prompt_id: EventId,
    pub api_call_id: EventId,
    pub retry_count: u8,
    pub streaming: bool,
    pub aborted: bool,
}

/// Begins a try of a request.
pub fn begin_attempt(edb: &mut EventDataBase, prompt_id: EventId, retry_count: u8) -> (result:
    Result<Attempt, String>)
    requires
        old(edb).wf(),
    ensures
        final(edb).wf(),
        if old(edb).room(1) {
            &&& result == Ok::<Attempt, String>(
                Attempt {
                    prompt_id,
                    api_call_id: old(edb).next_id,
                    retry_count,
                    streaming: false,
                    aborted: false,
                },
            )
            &&& written(
                old(edb),
                final(edb),
                seq![
                    plain_request(
                        old(edb).next_id,
                        prompt_id,
                        ApiState::Requesting,
                        None,
                        ""@,
                    ),
                ],
            )
        } else {
            *final(edb) == *old(edb) && match result {
                Ok(_) => false,
                Err(error) => error@ == NO_IDENTITIES@,
            }
        },
{
    let api_call_id = edb.next_id;
    let mut bodies: Vec<EventBody> = Vec::new();
    bodies.push(request_note(api_call_id, prompt_id, ApiState::Requesting, None, ""));
    assert(notes_of(bodies@) =~= seq![
        plain_request(api_call_id, prompt_id, ApiState::Requesting, None, ""@),
    ]);
    match append_all(edb, bodies) {
        Ok(()) => Ok(
            Attempt { prompt_id, api_call_id, retry_count, streaming: false, aborted: false },
        ),
        Err(error) => Err(error),
    }
}

/// Whether the user wants the turn of a try to end, and it can.
pub open spec fn abort_due(
    queue: &OrchestratorInputQueue,
    prompt: EventId,
    effective: Seq<Event>,
) -> bool {
    queue.abort_target == prompt && active_turn(effective) == Some(prompt)
}

/// What is left of the queue once the end of a turn was looked for.
pub open spec fn queue_after(
    before: &OrchestratorInputQueue,
    after: &OrchestratorInputQueue,
    prompt: EventId,
    effective: Seq<Event>,
) -> bool {
    if abort_due(before, prompt, effective) {
        &&& after.pending@ == Seq::<OrchestratorInput>::empty()
        &&& after.abort_target == NO_ABORT_TARGET
    } else {
        &&& after.pending == before.pending
        &&& after.abort_target == (if before.abort_target == prompt {
            NO_ABORT_TARGET
        } else {
            before.abort_target
        })
    }
}

/// Ends the turn where the user wants that, if there is room for it in the log.
fn look_for_abort(
    queue: &mut OrchestratorInputQueue,
    prompt_id: EventId,
    edb: &mut EventDataBase,
    effective: &Vec<Event>,
) -> (result: Result<bool, String>)
    requires
        old(edb).wf(),
    ensures
        final(edb).wf(),
        if old(edb).room(1) {
            &&& result == Ok::<bool, String>(abort_due(old(queue), prompt_id, effective@))
            &&& queue_after(old(queue), final(queue), prompt_id, effective@)
            &&& if abort_due(old(queue), prompt_id, effective@) {
                written(old(edb), final(edb), abort_notes(true, prompt_id))
            } else {
                *final(edb) == *old(edb)
            }
        } else {
            *final(edb) == *old(edb) && *final(queue) == *old(queue) && match result {
                Ok(_) => false,
                Err(error) => error@ == NO_IDENTITIES@,
            }
        },
{
    if !crate::notes::has_room(edb, 1) {
        return Err(NO_IDENTITIES.to_owned());
    }
    Ok(begin_turn_abort_if_requested(queue, prompt_id, edb, effective))
}

/// What is written where a turn ends because the user wants it.
pub open spec fn abort_notes(aborted: bool, prompt: EventId) -> Seq<Note> {
    if aborted {
        seq![Note::Aborted { prompt }]
    } else {
        Seq::empty()
    }
}

/// What is said of a stream that ends because the user wants it.
pub const TURN_ABORTED: &'static str = "user turn aborted";

/// What is said of a stream of a summary that ends because the user wants it.
pub const COMPACT_ABORTED: &'static str = "user turn aborted during Compact";

/// What is written when the first line of an answer comes.
pub open spec fn streaming_notes(attempt: Attempt) -> Seq<Note> {
    if attempt.streaming {
        Seq::empty()
    } else {
        seq![
            plain_request(
                attempt.api_call_id,
                attempt.prompt_id,
                ApiState::Streaming,
                None,
                ""@,
            ),
        ]
    }
}

/// What is written of the items that a provider wants back.
pub open spec fn item_notes(attempt: Attempt, items: Seq<(Seq<char>, JsonView)>) -> Seq<Note> {
    Seq::new(
        items.len(),
        |i: int|
            Note::Item {
                api_call: attempt.api_call_id,
                prompt: attempt.prompt_id,
                provider: items[i].0,
                content: json_written(items[i].1),
            },
    )
}

/// What is written of the pieces of an answer.
pub open spec fn chunk_notes(prompt: EventId, chunks: Seq<ChunkView>) -> Seq<Note> {
    Seq::new(
        chunks.len(),
        |i: int|
            Note::Said { prompt, content: chunks[i].content, finished: chunks[i].finished },
    )
}

fn push_streaming(bodies: &mut Vec<EventBody>, attempt: &Attempt)
    ensures
        notes_of(final(bodies)@) == notes_of(old(bodies)@) + streaming_notes(*attempt),
{
    if !attempt.streaming {
        bodies.push(
            request_note(attempt.api_call_id, attempt.prompt_id, ApiState::Streaming, None, ""),
        );
    }
    assert(notes_of(bodies@) =~= notes_of(old(bodies)@) + streaming_notes(*attempt));
}

fn push_items(bodies: &mut Vec<EventBody>, attempt: &Attempt, items: &Vec<(String, Json)>)
    ensures
        notes_of(final(bodies)@) == notes_of(old(bodies)@) + item_notes(
            *attempt,
            items_view(items@),
        ),
{
    let ghost all = item_notes(*attempt, items_view(items@));
    let mut place: usize = 0;
    assert(notes_of(bodies@) =~= notes_of(old(bodies)@) + all.take(0));
    while place < items.len()
        invariant
            place <= items@.len(),
            all == item_notes(*attempt, items_view(items@)),
            notes_of(bodies@) == notes_of(old(bodies)@) + all.take(place as int),
        decreases items@.len() - place,
    {
        let ghost before = bodies@;
        bodies.push(
            EventBody::ModelContextItem(
                ModelContextItem {
                    api_call_id: attempt.api_call_id,
                    prompt_id: attempt.prompt_id,
                    provider: items[place].0.clone(),
                    content: write_json(&items[place].1),
                },
            ),
        );
        assert(notes_of(bodies@) =~= notes_of(before).push(all[place as int]));
        assert(all.take(place + 1) =~= all.take(place as int).push(all[place as int]));
        assert(notes_of(bodies@) =~= notes_of(old(bodies)@) + all.take(place + 1));
        place += 1;
    }
    assert(all.take(place as int) =~= all);
}

fn push_chunks(bodies: &mut Vec<EventBody>, prompt_id: EventId, chunks: &Vec<AssistResponseChunk>)
    ensures
        notes_of(final(bodies)@) == notes_of(old(bodies)@) + chunk_notes(
            prompt_id,
            chunks_view(chunks@),
        ),
{
    let ghost all = chunk_notes(prompt_id, chunks_view(chunks@));
    let mut place: usize = 0;
    assert(notes_of(bodies@) =~= notes_of(old(bodies)@) + all.take(0));
    while place < chunks.len()
        invariant
            place <= chunks@.len(),
            all == chunk_notes(prompt_id, chunks_view(chunks@)),
            notes_of(bodies@) == notes_of(old(bodies)@) + all.take(place as int),
        decreases chunks@.len() - place,
    {
        let ghost before = bodies@;
        bodies.push(
            EventBody::AssistResponse(
                AssistResponse {
                    prompt_id,
                    content: chunks[place].content.clone(),
                    finished: chunks[place].finished,
                },
            ),
        );
        assert(notes_of(bodies@) =~= notes_of(before).push(all[place as int]));
        assert(all.take(place + 1) =~= all.take(place as int).push(all[place as int]));
        assert(notes_of(bodies@) =~= notes_of(old(bodies)@) + all.take(place + 1));
        place += 1;
    }
    assert(all.take(place as int) =~= all);
}

/// What is written of a line of an answer, given what is to be written back and said.
pub open spec fn line_notes(
    attempt: Attempt,
    items: Seq<(Seq<char>, JsonView)>,
    given: Result<Seq<ChunkView>, Seq<char>>,
) -> Seq<Note> {
    match given {
        Ok(chunks) => streaming_notes(attempt) + item_notes(attempt, items) + chunk_notes(
            attempt.prompt_id,
            chunks,
        ),
        Err(_) => streaming_notes(attempt),
    }
}

/// What comes of a line: the user wants the turn to end; or it is written down, or what is wrong
/// with it is said.
pub open spec fn line_taken(
    before: (Attempt, &OrchestratorInputQueue, &EventDataBase),
    after: (Attempt, &OrchestratorInputQueue, &EventDataBase),
    effective: Seq<Event>,
    aborted_text: Seq<char>,
    items: Seq<(Seq<char>, JsonView)>,
    given: Result<Seq<ChunkView>, Seq<char>>,
    result: Result<(), Seq<char>>,
) -> bool {
    let prompt = before.0.prompt_id;
    if !before.2.room(1) {
        &&& result == Err::<(), Seq<char>>(NO_IDENTITIES@)
        &&& after.0 == before.0
        &&& *after.1 == *before.1
        &&& *after.2 == *before.2
    } else if abort_due(before.1, prompt, effective) {
        &&& result == Err::<(), Seq<char>>(aborted_text)
        &&& after.0 == Attempt { aborted: true, ..before.0 }
        &&& queue_after(before.1, after.1, prompt, effective)
        &&& written(before.2, after.2, abort_notes(true, prompt))
    } else {
        let notes = line_notes(before.0, items, given);
        &&& queue_after(before.1, after.1, prompt, effective)
        &&& if before.2.room(notes.len() as int) {
            &&& written(before.2, after.2, notes)
            &&& after.0 == Attempt { streaming: true, ..before.0 }
            &&& match given {
                Ok(_) => result is Ok,
                Err(error) => result == Err::<(), Seq<char>>(error),
            }
        } else {
            &&& result == Err::<(), Seq<char>>(NO_IDENTITIES@)
            &&& after.0 == before.0
            &&& *after.2 == *before.2
        }
    }
}

/// Takes in a line of the answer to a chat bot.
pub fn on_chat_line(
    attempt: &mut Attempt,
    response: &mut AssistResponseBuffer,
    queue: &mut OrchestratorInputQueue,
    edb: &mut EventDataBase,
    effective: &Vec<Event>,
    line: &str,
) -> (result: Result<(), String>)
    requires
        old(edb).wf(),
        old(response)@.items.len() == 0,
    ensures
        final(edb).wf(),
        line_taken(
            (*old(attempt), old(queue), old(edb)),
            (*final(attempt), final(queue), final(edb)),
            effective@,
            TURN_ABORTED@,
            old(response)@.after_line(line@).0.items,
            old(response)@.after_line(line@).1,
            crate::inputs::said(result),
        ),
        if !old(edb).room(1) || abort_due(old(queue), old(attempt).prompt_id, effective@) {
            final(response)@ == old(response)@
        } else if old(response)@.after_line(line@).1 is Ok {
            final(response)@ == (AssistView {
                items: Seq::empty(),
                ..old(response)@.after_line(line@).0
            })
        } else {
            final(response)@ == old(response)@.after_line(line@).0
        },
{
    match look_for_abort(queue, attempt.prompt_id, edb, effective) {
        Err(error) => return Err(error),
        Ok(true) => {
            attempt.aborted = true;
            return Err(TURN_ABORTED.to_owned());
        },
        Ok(false) => {},
    }
    let mut bodies: Vec<EventBody> = Vec::new();
    push_streaming(&mut bodies, attempt);
    assert(notes_of(bodies@) =~= streaming_notes(*attempt));
    let result = match response.push(line) {
        Ok(chunks) => {
            let items = response.take_provider_context_items();
            push_items(&mut bodies, attempt, &items);
            push_chunks(&mut bodies, attempt.prompt_id, &chunks);
            Ok(())
        },
        Err(error) => Err(error),
    };
    proof {
        assert(notes_of(bodies@) == line_notes(
            *attempt,
            old(response)@.after_line(line@).0.items,
            old(response)@.after_line(line@).1,
        ));
        assert(notes_of(bodies@).len() == bodies@.len());
    }
    match append_all(edb, bodies) {
        Ok(()) => {},
        Err(error) => return Err(error),
    }
    attempt.streaming = true;
    result
}

/// Takes in a line of the answer to an agent that may call tools.
pub fn on_main_line(
    attempt: &mut Attempt,
    response: &mut MainResponseBuffer,
    queue: &mut OrchestratorInputQueue,
    edb: &mut EventDataBase,
    effective: &Vec<Event>,
    line: &str,
) -> (result: Result<(), String>)
    requires
        old(edb).wf(),
        old(response).wf(),
        old(response)@.items.len() == 0,
    ensures
        final(edb).wf(),
        final(response).wf(),
        line_taken(
            (*old(attempt), old(queue), old(edb)),
            (*final(attempt), final(queue), final(edb)),
            effective@,
            TURN_ABORTED@,
            old(response)@.after_line(line@).0.items,
            old(response)@.after_line(line@).1,
            crate::inputs::said(result),
        ),
        if !old(edb).room(1) || abort_due(old(queue), old(attempt).prompt_id, effective@) {
            final(response)@ == old(response)@
        } else if old(response)@.after_line(line@).1 is Ok {
            final(response)@ == (MainView {
                items: Seq::empty(),
                ..old(response)@.after_line(line@).0
            })
        } else {
            final(response)@ == old(response)@.after_line(line@).0
        },
{
    match look_for_abort(queue, attempt.prompt_id, edb, effective) {
        Err(error) => return Err(error),
        Ok(true) => {
            attempt.aborted = true;
            return Err(TURN_ABORTED.to_owned());
        },
        Ok(false) => {},
    }
    let mut bodies: Vec<EventBody> = Vec::new();
    push_streaming(&mut bodies, attempt);
    assert(notes_of(bodies@) =~= streaming_notes(*attempt));
    let result = match response.push(line) {
        Ok(chunks) => {
            let items = response.take_provider_context_items();
            push_items(&mut bodies, attempt, &items);
            push_chunks(&mut bodies, attempt.prompt_id, &chunks);
            Ok(())
        },
        Err(error) => Err(error),
    };
    proof {
        assert(notes_of(bodies@) == line_notes(
            *attempt,
            old(response)@.after_line(line@).0.items,
            old(response)@.after_line(line@).1,
        ));
        assert(notes_of(bodies@).len() == bodies@.len());
    }
    match append_all(edb, bodies) {
        Ok(()) => {},
        Err(error) => return Err(error),
    }
    attempt.streaming = true;
    result
}

/// What a line of a summary gives out: nothing, or what is wrong with it.
pub open spec fn summary_given(result: Result<(), Seq<char>>) -> Result<Seq<ChunkView>, Seq<char>> {
    match result {
        Ok(_) => Ok(Seq::empty()),
        Err(error) => Err(error),
    }
}

/// Takes in a line of a summary.
pub fn on_compact_line(
    attempt: &mut Attempt,
    response: &mut CompactResponseBuffer,
    queue: &mut OrchestratorInputQueue,
    edb: &mut EventDataBase,
    effective: &Vec<Event>,
    line: &str,
) -> (result: Result<(), String>)
    requires
        old(edb).wf(),
    ensures
        final(edb).wf(),
        line_taken(
            (*old(attempt), old(queue), old(edb)),
            (*final(attempt), final(queue), final(edb)),
            effective@,
            COMPACT_ABORTED@,
            Seq::empty(),
            summary_given(old(response)@.after_line(line@).1),
            crate::inputs::said(result),
        ),
        if !old(edb).room(1) || abort_due(old(queue), old(attempt).prompt_id, effective@) {
            final(response)@ == old(response)@
        } else {
            final(response)@ == old(response)@.after_line(line@).0
        },
{
    match look_for_abort(queue, attempt.prompt_id, edb, effective) {
        Err(error) => return Err(error),
        Ok(true) => {
            attempt.aborted = true;
            return Err(COMPACT_ABORTED.to_owned());
        },
        Ok(false) => {},
    }
    let mut bodies: Vec<EventBody> = Vec::new();
    push_streaming(&mut bodies, attempt);
    assert(notes_of(bodies@) =~= streaming_notes(*attempt));
    let result = response.push(line);
    proof {
        let given = summary_given(old(response)@.after_line(line@).1);
        assert(notes_of(bodies@) =~= line_notes(*attempt, Seq::empty(), given));
        assert(notes_of(bodies@).len() == bodies@.len());
    }
    match append_all(edb, bodies) {
        Ok(()) => {},
        Err(error) => return Err(error),
    }
    attempt.streaming = true;
    result
}

/// How a try of a request ends: there is a further one; the user ended the turn; it failed for
/// good; the answer is there and the request has ended; or the answer is there and its tool calls
/// are still to be written down.
#[derive(Clone, Copy, Debug, PartialEq, Eq, Structural)]
pub enum AttemptEnd {
    Retry,
    Aborted,
    Interrupted,
    Completed,
    Answered,
}

/// What there is to say at the end of an answer: its tokens, the text that is left, what is wrong
/// with it, and whether it calls no tools, so that the request ends with it.
pub struct AnswerView {
    pub usage: Option<ApiUsage>,
    pub last: Seq<ChunkView>,
    pub problem: Option<Seq<char>>,
    pub closes: bool,
    pub aborted_detail: Seq<char>,
}

/// How a try ends after a failure.
pub open spec fn after_failure(retry_count: u8, again: bool) -> AttemptEnd {
    if again && retry_count < API_RETRY_LIMIT {
        AttemptEnd::Retry
    } else {
        AttemptEnd::Interrupted
    }
}

/// What is written where the user ended the turn of a try.
pub open spec fn aborted_notes(
    attempt: Attempt,
    answer: AnswerView,
    next: int,
    sum: u64,
) -> Seq<Note> {
    terminal_notes(
        next as u64,
        attempt.api_call_id,
        attempt.prompt_id,
        ApiState::Interrupted,
        answer.usage,
        answer.aborted_detail,
        sum,
    )
}

/// How a try ends, and what is written of that. `due` says whether the user wants the turn to end,
/// `outcome` how the stream ended, `next` is the identity of the next event and `sum` the sum of
/// the division of the tokens.
pub open spec fn attempt_end(
    attempt: Attempt,
    answer: AnswerView,
    due: bool,
    outcome: Result<(), Seq<char>>,
    next: EventId,
    sum: u64,
) -> (AttemptEnd, Seq<Note>) {
    if attempt.aborted && outcome is Err {
        (AttemptEnd::Aborted, aborted_notes(attempt, answer, next as int, sum))
    } else if due {
        (
            AttemptEnd::Aborted,
            abort_notes(true, attempt.prompt_id) + aborted_notes(attempt, answer, next + 1, sum),
        )
    } else {
        match outcome {
            Err(error) => (
                after_failure(attempt.retry_count, retryable(error)),
                failure_notes(
                    attempt.api_call_id,
                    attempt.prompt_id,
                    attempt.retry_count,
                    answer.usage,
                    error,
                    retryable(error),
                ),
            ),
            Ok(_) => {
                let said = streaming_notes(attempt) + chunk_notes(attempt.prompt_id, answer.last);
                match answer.problem {
                    Some(error) => (
                        after_failure(attempt.retry_count, true),
                        said + failure_notes(
                            attempt.api_call_id,
                            attempt.prompt_id,
                            attempt.retry_count,
                            answer.usage,
                            error,
                            true,
                        ),
                    ),
                    None => if answer.closes {
                        (
                            AttemptEnd::Completed,
                            said + terminal_notes(
                                (next + said.len()) as u64,
                                attempt.api_call_id,
                                attempt.prompt_id,
                                ApiState::Completed,
                                answer.usage,
                                ""@,
                                sum,
                            ),
                        )
                    } else {
                        (AttemptEnd::Answered, said)
                    },
                }
            },
        }
    }
}

/// What there is to say at the end of an answer.
struct Answer {
    usage: Option<ApiUsage>,
    last: Vec<AssistResponseChunk>,
    problem: Option<String>,
    closes: bool,
    aborted_detail: &'static str,
}

impl View for Answer {
    type V = AnswerView;

    closed spec fn view(&self) -> AnswerView {
        AnswerView {
            usage: self.usage,
            last: chunks_view(self.last@),
            problem: crate::config::text_in(self.problem),
            closes: self.closes,
            aborted_detail: self.aborted_detail@,
        }
    }
}

/// Looks whether the user wants the turn to end, and takes that up.
fn take_abort(queue: &mut OrchestratorInputQueue, prompt_id: EventId, effective: &Vec<Event>) -> (
    due: bool)
    ensures
        due == abort_due(old(queue), prompt_id, effective@),
        queue_after(old(queue), final(queue), prompt_id, effective@),
{
    if !queue.consume_abort_signal(prompt_id) {
        return false;
    }
    let active = match crate::turns::active_user_turn_id(effective) {
        Some(active) => active == prompt_id,
        None => false,
    };
    if active {
        queue.clear();
    }
    active
}

fn push_failure(bodies: &mut Vec<EventBody>, attempt: &Attempt, usage: Option<ApiUsage>, error: &str, again: bool)
    ensures
        notes_of(final(bodies)@) == notes_of(old(bodies)@) + failure_notes(
            attempt.api_call_id,
            attempt.prompt_id,
            attempt.retry_count,
            usage,
            error@,
            again,
        ),
{
    bodies.push(
        request_note(attempt.api_call_id, attempt.prompt_id, ApiState::Error, usage, error),
    );
    if again && attempt.retry_count < API_RETRY_LIMIT {
        bodies.push(
            retry_note(
                attempt.api_call_id,
                attempt.prompt_id,
                attempt.retry_count + 1,
                API_RETRY_LIMIT,
                error,
            ),
        );
    } else {
        let detail = final_detail(error, again);
        bodies.push(
            request_note(
                attempt.api_call_id,
                attempt.prompt_id,
                ApiState::Interrupted,
                None,
                detail.as_str(),
            ),
        );
    }
    assert(notes_of(bodies@) =~= notes_of(old(bodies)@) + failure_notes(
        attempt.api_call_id,
        attempt.prompt_id,
        attempt.retry_count,
        usage,
        error@,
        again,
    ));
}

fn final_detail(error: &str, again: bool) -> (detail: String)
    ensures
        detail@ == failure_detail(error@, again),
{
    if again {
        let start = say1(
            "API request interrupted after ",
            API_RETRY_LIMIT as u64 + 1,
            " attempts; retry limit exhausted: ",
        );
        join3(start.as_str(), error, "")
    } else {
        join3("API request interrupted after a non-retryable error: ", error, "")
    }
}

fn failure_end(retry_count: u8, again: bool) -> (end: AttemptEnd)
    ensures
        end == after_failure(retry_count, again),
{
    if again && retry_count < API_RETRY_LIMIT {
        AttemptEnd::Retry
    } else {
        AttemptEnd::Interrupted
    }
}

/// Whether a try has ended so: the end is written, or there is no room for it.
pub open spec fn ended(
    attempt: Attempt,
    answer: AnswerView,
    queues: (&OrchestratorInputQueue, &OrchestratorInputQueue),
    logs: (&EventDataBase, &EventDataBase),
    effective: Seq<Event>,
    outcome: Result<(), Seq<char>>,
    sum: u64,
    result: Result<AttemptEnd, Seq<char>>,
) -> bool {
    let due = abort_due(queues.0, attempt.prompt_id, effective);
    let (end, notes) = attempt_end(attempt, answer, due, outcome, logs.0.next_id, sum);
    &&& if attempt.aborted && outcome is Err {
        *queues.1 == *queues.0
    } else {
        queue_after(queues.0, queues.1, attempt.prompt_id, effective)
    }
    &&& if logs.0.room(notes.len() as int) {
        result == Ok::<AttemptEnd, Seq<char>>(end) && written(logs.0, logs.1, notes)
    } else {
        result == Err::<AttemptEnd, Seq<char>>(NO_IDENTITIES@) && *logs.1 == *logs.0
    }
}

fn end_attempt(
    attempt: &Attempt,
    answer: Answer,
    queue: &mut OrchestratorInputQueue,
    edb: &mut EventDataBase,
    effective: &Vec<Event>,
    outcome: Result<(), String>,
    sum: u64,
) -> (result: Result<AttemptEnd, String>)
    requires
        old(edb).wf(),
    ensures
        final(edb).wf(),
        ended(
            *attempt,
            answer@,
            (old(queue), final(queue)),
            (old(edb), final(edb)),
            effective@,
            crate::inputs::said(outcome),
            sum,
            crate::inputs::said(result),
        ),
{
    let next = edb.next_id;
    let mut bodies: Vec<EventBody> = Vec::new();
    assert(notes_of(bodies@) =~= Seq::<Note>::empty());
    let already = attempt.aborted && outcome.is_err();
    let due = if already {
        false
    } else {
        take_abort(queue, attempt.prompt_id, effective)
    };
    let end = if already || due {
        let mut place: u64 = next;
        if due {
            bodies.push(
                EventBody::UserTurnAborted(
                    crate::event::UserTurnAborted {
                        prompt_id: attempt.prompt_id,
                        active_before: crate::event::Computed::Value(Some(attempt.prompt_id)),
                    },
                ),
            );
            assert(notes_of(bodies@) =~= abort_notes(true, attempt.prompt_id));
            if next == u64::MAX {
                return Err(NO_IDENTITIES.to_owned());
            }
            place = next + 1;
        }
        push_terminal(
            &mut bodies,
            place,
            attempt.api_call_id,
            attempt.prompt_id,
            ApiState::Interrupted,
            answer.usage,
            answer.aborted_detail,
            sum,
        );
        AttemptEnd::Aborted
    } else {
        match outcome {
            Err(error) => {
                let again = model_request_error_is_retryable(error.as_str());
                push_failure(&mut bodies, attempt, answer.usage, error.as_str(), again);
                failure_end(attempt.retry_count, again)
            },
            Ok(()) => {
                push_streaming(&mut bodies, attempt);
                push_chunks(&mut bodies, attempt.prompt_id, &answer.last);
                assert(notes_of(bodies@) =~= streaming_notes(*attempt) + chunk_notes(
                    attempt.prompt_id,
                    answer@.last,
                ));
                match &answer.problem {
                    Some(error) => {
                        push_failure(&mut bodies, attempt, answer.usage, error.as_str(), true);
                        failure_end(attempt.retry_count, true)
                    },
                    None => {
                        if answer.closes {
                            assert(notes_of(bodies@).len() == bodies@.len());
                            if bodies.len() as u64 > u64::MAX - next {
                                return Err(NO_IDENTITIES.to_owned());
                            }
                            let place = next + bodies.len() as u64;
                            push_terminal(
                                &mut bodies,
                                place,
                                attempt.api_call_id,
                                attempt.prompt_id,
                                ApiState::Completed,
                                answer.usage,
                                "",
                                sum,
                            );
                            AttemptEnd::Completed
                        } else {
                            AttemptEnd::Answered
                        }
                    },
                }
            },
        }
    };
    proof {
        let (owed_end, owed) = attempt_end(
            *attempt,
            answer@,
            abort_due(old(queue), attempt.prompt_id, effective@),
            crate::inputs::said(outcome),
            next,
            sum,
        );
        assert(end == owed_end);
        assert(notes_of(bodies@) =~= owed);
        assert(notes_of(bodies@).len() == bodies@.len());
    }
    match append_all(edb, bodies) {
        Ok(()) => Ok(end),
        Err(error) => Err(error),
    }
}

/// The number of the next try, where a try ends so that there is one.
pub fn next_try(attempt: &Attempt, end: AttemptEnd) -> (next: Option<u8>)
    ensures
        next == (if end is Retry && attempt.retry_count < API_RETRY_LIMIT {
            Some((attempt.retry_count + 1) as u8)
        } else {
            None
        }),
{
    match end {
        AttemptEnd::Retry => if attempt.retry_count < API_RETRY_LIMIT {
            Some(attempt.retry_count + 1)
        } else {
            None
        },
        _ => None,
    }
}

/// What is said of a turn that the user ended.
pub const ABORT_DETAIL: &'static str = "user requested turn abort";

/// What is said of a turn that the user ended while it was summed up.
pub const COMPACT_ABORT_DETAIL: &'static str = "user requested turn abort during Compact";

/// What there is to say at the end of an answer to a chat bot.
pub open spec fn chat_answer(response: AssistView) -> AnswerView {
    AnswerView {
        usage: recorded_usage(response.usage),
        last: response.last_chunks(),
        problem: if response.has_characters {
            None
        } else {
            Some(EMPTY_MODEL_RESPONSE_ERROR@)
        },
        closes: true,
        aborted_detail: ABORT_DETAIL@,
    }
}

/// Ends a try of a request of a chat bot.
pub fn end_chat_attempt(
    attempt: &Attempt,
    response: &mut AssistResponseBuffer,
    queue: &mut OrchestratorInputQueue,
    edb: &mut EventDataBase,
    effective: &Vec<Event>,
    outcome: Result<(), String>,
    sum: u64,
) -> (result: Result<AttemptEnd, String>)
    requires
        old(edb).wf(),
    ensures
        final(edb).wf(),
        ended(
            *attempt,
            chat_answer(old(response)@),
            (old(queue), final(queue)),
            (old(edb), final(edb)),
            effective@,
            crate::inputs::said(outcome),
            sum,
            crate::inputs::said(result),
        ),
        final(response)@ == old(response)@.at_end(),
{
    let usage = event_usage(response.usage);
    let problem = if completed_response_is_empty(response.has_characters, false) {
        Some(EMPTY_MODEL_RESPONSE_ERROR.to_owned())
    } else {
        None
    };
    let last = response.finish();
    let answer = Answer { usage, last, problem, closes: true, aborted_detail: ABORT_DETAIL };
    assert(answer@ == chat_answer(old(response)@));
    end_attempt(attempt, answer, queue, edb, effective, outcome, sum)
}

/// What is said of an answer that sums up and calls other tools beside.
pub const COMPACT_NOT_ALONE: &'static str =
    "Compact must be the sole tool call in a model response";

/// Whether one of the tool calls asks for a summary.
pub open spec fn asks_to_compact(calls: Seq<CallView>) -> bool {
    exists|i: int| 0 <= i < calls.len() && (#[trigger] calls[i]).name == COMPACT_TOOL@
}

/// What is wrong with the answer to an agent that may call tools.
pub open spec fn main_problem(response: MainView, catalog: &ToolboxCatalog) -> Option<Seq<char>> {
    match completed_calls(response.tools, catalog, response.tools.len() as int) {
        Err(error) => Some(error),
        Ok(calls) => if asks_to_compact(calls) && calls.len() != 1 {
            Some(COMPACT_NOT_ALONE@)
        } else if !response.assistant.has_characters && calls.len() == 0 {
            Some(EMPTY_MODEL_RESPONSE_ERROR@)
        } else {
            None
        },
    }
}

/// What there is to say at the end of an answer to an agent that may call tools.
pub open spec fn main_answer(response: MainView, catalog: &ToolboxCatalog) -> AnswerView {
    AnswerView {
        usage: recorded_usage(response.usage),
        last: response.assistant.last_chunks(),
        problem: main_problem(response, catalog),
        closes: false,
        aborted_detail: ABORT_DETAIL@,
    }
}

fn has_compact(calls: &Vec<CompletedToolCall>) -> (found: bool)
    ensures
        found == asks_to_compact(calls_view(calls@)),
{
    let mut place: usize = 0;
    while place < calls.len()
        invariant
            place <= calls@.len(),
            forall|i: int|
                0 <= i < place ==> (#[trigger] calls_view(calls@)[i]).name != COMPACT_TOOL@,
        decreases calls@.len() - place,
    {
        assert(calls_view(calls@)[place as int] == calls@[place as int]@);
        if same(calls[place].name.as_str(), COMPACT_TOOL) {
            return true;
        }
        place += 1;
    }
    false
}

/// Ends a try of a request of an agent that may call tools. The tool calls that it asked for come
/// with the end; they are still to be written down.
pub fn end_main_attempt(
    attempt: &Attempt,
    response: &mut MainResponseBuffer,
    catalog: &ToolboxCatalog,
    queue: &mut OrchestratorInputQueue,
    edb: &mut EventDataBase,
    effective: &Vec<Event>,
    outcome: Result<(), String>,
    sum: u64,
) -> (result: (Result<AttemptEnd, String>, Vec<CompletedToolCall>))
    requires
        old(edb).wf(),
    ensures
        final(edb).wf(),
        ended(
            *attempt,
            main_answer(old(response)@, catalog),
            (old(queue), final(queue)),
            (old(edb), final(edb)),
            effective@,
            crate::inputs::said(outcome),
            sum,
            crate::inputs::said(result.0),
        ),
        match completed_calls(
            old(response)@.tools,
            catalog,
            old(response)@.tools.len() as int,
        ) {
            Ok(calls) => calls_view(result.1@) == calls,
            Err(_) => result.1@.len() == 0,
        },
        final(response)@ == (MainView {
            assistant: old(response)@.assistant.at_end(),
            ..old(response)@
        }),
{
    let usage = event_usage(response.usage);
    let last = response.finish();
    let mut calls: Vec<CompletedToolCall> = Vec::new();
    let problem = match response.complete_tools(catalog) {
        Err(error) => Some(error),
        Ok(found) => {
            assert(calls_view(found@).len() == found@.len());
            let problem = if has_compact(&found) && found.len() != 1 {
                Some(COMPACT_NOT_ALONE.to_owned())
            } else if completed_response_is_empty(
                response.assistant.has_characters,
                found.len() > 0,
            ) {
                Some(EMPTY_MODEL_RESPONSE_ERROR.to_owned())
            } else {
                None
            };
            calls = found;
            problem
        },
    };
    let answer = Answer { usage, last, problem, closes: false, aborted_detail: ABORT_DETAIL };
    assert(answer@ == main_answer(old(response)@, catalog));
    (end_attempt(attempt, answer, queue, edb, effective, outcome, sum), calls)
}

/// What is written of the tool calls of an answer.
pub open spec fn call_notes(
    attempt: Attempt,
    calls: Seq<CallView>,
    traits: Seq<ToolTraits>,
) -> Seq<Note> {
    Seq::new(
        calls.len(),
        |i: int|
            Note::Called {
                api_call: attempt.api_call_id,
                prompt: attempt.prompt_id,
                provider_call_id: calls[i].provider_call_id,
                name: calls[i].name,
                arguments: calls[i].arguments,
                traits: traits[i],
            },
    )
}

/// What is written once an answer is there: its tool calls, and the end of the request.
pub open spec fn answer_notes(
    attempt: Attempt,
    calls: Seq<CallView>,
    traits: Seq<ToolTraits>,
    usage: Option<ApiUsage>,
    next: EventId,
    sum: u64,
) -> Seq<Note> {
    call_notes(attempt, calls, traits) + terminal_notes(
        (next + calls.len()) as u64,
        attempt.api_call_id,
        attempt.prompt_id,
        ApiState::Completed,
        usage,
        ""@,
        sum,
    )
}

/// Writes down the tool calls of an answer and the end of the request. The identities of the tool
/// calls are the result. `traits` says what the tool boxes say of each.
pub fn record_answer(
    attempt: &Attempt,
    calls: &Vec<CompletedToolCall>,
    traits: &Vec<ToolTraits>,
    usage: Option<ModelUsage>,
    edb: &mut EventDataBase,
    sum: u64,
) -> (result: Result<Vec<EventId>, String>)
    requires
        old(edb).wf(),
        traits@.len() == calls@.len(),
    ensures
        final(edb).wf(),
        ({
            let notes = answer_notes(
                *attempt,
                calls_view(calls@),
                traits@,
                recorded_usage(usage),
                old(edb).next_id,
                sum,
            );
            if old(edb).room(notes.len() as int) {
                &&& written(old(edb), final(edb), notes)
                &&& match result {
                    Ok(ids) => ids@ == Seq::new(
                        calls@.len(),
                        |i: int| (old(edb).next_id + i) as u64,
                    ),
                    Err(_) => false,
                }
            } else {
                *final(edb) == *old(edb) && match result {
                    Ok(_) => false,
                    Err(error) => error@ == NO_IDENTITIES@,
                }
            }
        }),
{
    let next = edb.next_id;
    let ghost all = call_notes(*attempt, calls_view(calls@), traits@);
    let mut bodies: Vec<EventBody> = Vec::new();
    let mut ids: Vec<EventId> = Vec::new();
    let mut place: usize = 0;
    assert(notes_of(bodies@) =~= all.take(0));
    if calls.len() as u64 > u64::MAX - next {
        return Err(NO_IDENTITIES.to_owned());
    }
    while place < calls.len()
        invariant
            place <= calls@.len() == traits@.len(),
            next + calls@.len() <= u64::MAX,
            all == call_notes(*attempt, calls_view(calls@), traits@),
            notes_of(bodies@) == all.take(place as int),
            bodies@.len() == place,
            ids@ == Seq::new(place as nat, |i: int| (next + i) as u64),
        decreases calls@.len() - place,
    {
        let ghost before = bodies@;
        bodies.push(
            EventBody::ToolCall(
                ToolCall {
                    api_call_id: attempt.api_call_id,
                    prompt_id: attempt.prompt_id,
                    provider_call_id: calls[place].provider_call_id.clone(),
                    name: calls[place].name.clone(),
                    arguments: calls[place].arguments.clone(),
                    traits: traits[place],
                },
            ),
        );
        assert(notes_of(bodies@) =~= notes_of(before).push(all[place as int]));
        assert(all.take(place + 1) =~= all.take(place as int).push(all[place as int]));
        ids.push(next + place as u64);
        assert(ids@ =~= Seq::new((place + 1) as nat, |i: int| (next + i) as u64));
        place += 1;
    }
    assert(all.take(place as int) =~= all);
    let end = next + calls.len() as u64;
    push_terminal(
        &mut bodies,
        end,
        attempt.api_call_id,
        attempt.prompt_id,
        ApiState::Completed,
        event_usage(usage),
        "",
        sum,
    );
    assert(notes_of(bodies@).len() == bodies@.len());
    match append_all(edb, bodies) {
        Ok(()) => Ok(ids),
        Err(error) => Err(error),
    }
}

/// What is said of a summary that calls a tool.
pub const SUMMARY_CALLED_TOOL: &'static str = "Compact summary response attempted a tool call";

/// What is said of a summary without text.
pub const SUMMARY_EMPTY: &'static str = "Compact summary response is empty";

/// What is wrong with a summary.
pub open spec fn summary_problem(response: CompactView) -> Option<Seq<char>> {
    if response.called_tool {
        Some(SUMMARY_CALLED_TOOL@)
    } else if !response.has_characters {
        Some(EMPTY_MODEL_RESPONSE_ERROR@)
    } else if response.content.len() == 0 {
        Some(SUMMARY_EMPTY@)
    } else {
        None
    }
}

fn find_summary_problem(response: &CompactResponseBuffer) -> (problem: Option<String>)
    ensures
        match (problem, summary_problem(response@)) {
            (Some(found), Some(text)) => found@ == text,
            (None, None) => true,
            _ => false,
        },
{
    if response.called_tool {
        Some(SUMMARY_CALLED_TOOL.to_owned())
    } else if !response.has_characters {
        Some(EMPTY_MODEL_RESPONSE_ERROR.to_owned())
    } else if response.content.as_str().unicode_len() == 0 {
        Some(SUMMARY_EMPTY.to_owned())
    } else {
        None
    }
}

/// What there is to say at the end of a summary.
pub open spec fn summary_answer(response: CompactView) -> AnswerView {
    AnswerView {
        usage: recorded_usage(response.usage),
        last: Seq::empty(),
        problem: summary_problem(response),
        closes: true,
        aborted_detail: COMPACT_ABORT_DETAIL@,
    }
}

/// Ends a try of a request for a summary.
pub fn end_compact_attempt(
    attempt: &Attempt,
    response: &CompactResponseBuffer,
    queue: &mut OrchestratorInputQueue,
    edb: &mut EventDataBase,
    effective: &Vec<Event>,
    outcome: Result<(), String>,
    sum: u64,
) -> (result: Result<AttemptEnd, String>)
    requires
        old(edb).wf(),
    ensures
        final(edb).wf(),
        ended(
            *attempt,
            summary_answer(response@),
            (old(queue), final(queue)),
            (old(edb), final(edb)),
            effective@,
            crate::inputs::said(outcome),
            sum,
            crate::inputs::said(result),
        ),
{
    let last: Vec<AssistResponseChunk> = Vec::new();
    assert(chunks_view(last@) =~= Seq::<ChunkView>::empty());
    let answer = Answer {
        usage: event_usage(response.usage),
        last,
        problem: find_summary_problem(response),
        closes: true,
        aborted_detail: COMPACT_ABORT_DETAIL,
    };
    assert(answer@ == summary_answer(response@));
    end_attempt(attempt, answer, queue, edb, effective, outcome, sum)
}

/// What failed when a request for a summary failed for good: the stream, or the summary.
pub open spec fn summary_failure(response: CompactView, outcome: Result<(), Seq<char>>) -> Seq<
    char,
> {
    match outcome {
        Err(error) => error,
        Ok(_) => match summary_problem(response) {
            Some(error) => error,
            None => ""@,
        },
    }
}

/// What came of asking for a stage of a compaction, once a try of it has ended in this way. Where
/// it is tried again there is nothing to say yet.
pub fn stage_outcome(
    end: AttemptEnd,
    response: CompactResponseBuffer,
    outcome: Result<(), String>,
) -> (stage: Option<StageOutcome>)
    ensures
        match end {
            AttemptEnd::Retry => stage is None,
            AttemptEnd::Aborted => stage == Some(StageOutcome::Aborted),
            AttemptEnd::Interrupted => stage matches Some(StageOutcome::Failed(error)) && error@
                == summary_failure(response@, crate::inputs::said(outcome)),
            _ => stage matches Some(StageOutcome::Completed(content)) && content@
                == response@.content,
        },
{
    match end {
        AttemptEnd::Retry => None,
        AttemptEnd::Aborted => Some(StageOutcome::Aborted),
        AttemptEnd::Interrupted => match outcome {
            Err(error) => Some(StageOutcome::Failed(error)),
            Ok(_) => Some(
                StageOutcome::Failed(
                    match find_summary_problem(&response) {
                        Some(problem) => problem,
                        None => "".to_owned(),
                    },
                ),
            ),
        },
        _ => Some(StageOutcome::Completed(response.content)),
    }
}

/// A request is tried again only while tries are left, and never after a failure that would come
/// again: every chain of tries ends after as many as there may be.
pub proof fn law_tries_come_to_an_end(
    attempt: Attempt,
    answer: AnswerView,
    due: bool,
    outcome: Result<(), Seq<char>>,
    next: EventId,
    sum: u64,
)
    ensures
        attempt_end(attempt, answer, due, outcome, next, sum).0 is Retry ==> attempt.retry_count
            < API_RETRY_LIMIT,
        attempt.retry_count >= API_RETRY_LIMIT ==> !(attempt_end(
            attempt,
            answer,
            due,
            outcome,
            next,
            sum,
        ).0 is Retry),
        outcome matches Err(error) && !retryable(error) ==> !(attempt_end(
            attempt,
            answer,
            due,
            outcome,
            next,
            sum,
        ).0 is Retry),
{
}

/// A try that ends, ends in the log: what is written last of its request, but for the division of
/// its tokens, is an end, a further try, or, where tool calls are still to come, no end yet.
pub proof fn law_every_try_is_closed(
    attempt: Attempt,
    answer: AnswerView,
    due: bool,
    outcome: Result<(), Seq<char>>,
    next: EventId,
    sum: u64,
)
    ensures
        ({
            let (end, notes) = attempt_end(attempt, answer, due, outcome, next, sum);
            !(end is Answered) ==> exists|k: int|
                0 <= k < notes.len() && (#[trigger] notes[k] matches Note::Request {
                    api_call,
                    state,
                    ..
                } && api_call == attempt.api_call_id && (state == ApiState::Completed || state
                    == ApiState::Interrupted || state == ApiState::Retrying)) && (forall|j: int|
                    k < j < notes.len() ==> #[trigger] notes[j] is Estimate)
        }),
{
    let (end, notes) = attempt_end(attempt, answer, due, outcome, next, sum);
    if !(end is Answered) {
        let last = notes.len() - 1;
        if notes[last] is Estimate {
            assert(notes[last - 1] is Request);
        } else {
            assert(notes[last] is Request);
        }
    }
}

} // verus!
