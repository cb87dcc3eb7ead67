//! What is written to a log, event by event.
use vstd::prelude::*;

use crate::event::{
    lemma_grown_twice, AgentTurn, AgentTurnState, ApiState, ApiStateUpdate, ApiUsage,
    AssistResponse, CompactKind, CompactStage, CompactState, Computed, ContextUsageEstimate,
    EventBody, EventDataBase, EventId, ModelContextItem, ToolCall, ToolCallResult, ToolInfoContent,
    ToolInfoUpdate, ToolOutputStream, ToolResultState, ToolTraits, UserTurnAborted,
    NO_ABORT_TARGET,
};

verus! {

/// What an event says, as a value, as far as agents write it.
pub enum Note {
    Request {
        api_call: EventId,
        prompt: EventId,
        state: ApiState,
        retry_count: u8,
        retry_limit: u8,
        usage: Option<ApiUsage>,
        detail: Seq<char>,
    },
    Estimate { api_state: EventId, sum: u64 },
    Item { api_call: EventId, prompt: EventId, provider: Seq<char>, content: Seq<char> },
    Said { prompt: EventId, content: Seq<char>, finished: bool },
    Aborted { prompt: EventId },
    Called {
        api_call: EventId,
        prompt: EventId,
        provider_call_id: Seq<char>,
        name: Seq<char>,
        arguments: Seq<char>,
        traits: ToolTraits,
    },
    Output { tool_call: EventId, stream: ToolOutputStream, content: Seq<char> },
    Frame { tool_call: EventId, stream: ToolOutputStream, frame: Seq<char> },
    Ended { tool_call: EventId, state: ToolResultState, exit_code: Option<i32>, detail: Seq<char> },
    TurnStep { turn: EventId, prompt: EventId, state: AgentTurnState, detail: Seq<char> },
    Compacted {
        compact: EventId,
        tool_call: EventId,
        prompt: EventId,
        kind: CompactKind,
        total_stages: u8,
        stage: Option<CompactStage>,
        state: CompactState,
        content: Seq<char>,
        detail: Seq<char>,
    },
    Other,
}

/// What an event says.
pub open spec fn note_of(body: EventBody) -> Note {
    match body {
        EventBody::ApiStateUpdate(update) => Note::Request {
            api_call: update.api_call_id,
            prompt: update.prompt_id,
            state: update.state,
            retry_count: update.retry_count,
            retry_limit: update.retry_limit,
            usage: update.usage,
            detail: update.detail@,
        },
        EventBody::ContextUsageEstimate(estimate) => Note::Estimate {
            api_state: estimate.api_state_event_id,
            sum: estimate.sum,
        },
        EventBody::ModelContextItem(item) => Note::Item {
            api_call: item.api_call_id,
            prompt: item.prompt_id,
            provider: item.provider@,
            content: item.content@,
        },
        EventBody::AssistResponse(response) => Note::Said {
            prompt: response.prompt_id,
            content: response.content@,
            finished: response.finished,
        },
        EventBody::UserTurnAborted(aborted) => if aborted.active_before == Computed::Value(
            Some(aborted.prompt_id),
        ) {
            Note::Aborted { prompt: aborted.prompt_id }
        } else {
            Note::Other
        },
        EventBody::ToolCall(call) => Note::Called {
            api_call: call.api_call_id,
            prompt: call.prompt_id,
            provider_call_id: call.provider_call_id@,
            name: call.name@,
            arguments: call.arguments@,
            traits: call.traits,
        },
        EventBody::ToolInfoUpdate(info) => match info.content {
            ToolInfoContent::Text(content) => Note::Output {
                tool_call: info.tool_call_id,
                stream: info.stream,
                content: content@,
            },
            ToolInfoContent::Terminal(frame) => Note::Frame {
                tool_call: info.tool_call_id,
                stream: info.stream,
                frame: frame@,
            },
        },
        EventBody::ToolCallResult(result) => Note::Ended {
            tool_call: result.tool_call_id,
            state: result.state,
            exit_code: result.exit_code,
            detail: result.detail@,
        },
        EventBody::AgentTurn(step) => Note::TurnStep {
            turn: step.turn_id,
            prompt: step.prompt_id,
            state: step.state,
            detail: step.detail@,
        },
        EventBody::CompactStateUpdate(update) => Note::Compacted {
            compact: update.compact_id,
            tool_call: update.tool_call_id,
            prompt: update.prompt_id,
            kind: update.kind,
            total_stages: update.total_stages,
            stage: update.stage,
            state: update.state,
            content: update.content@,
            detail: update.detail@,
        },
        _ => Note::Other,
    }
}

/// What events say.
pub open spec fn notes_of(bodies: Seq<EventBody>) -> Seq<Note> {
    Seq::new(bodies.len(), |i: int| note_of(bodies[i]))
}

/// Whether a log is another with events added that say so.
pub open spec fn written(before: &EventDataBase, after: &EventDataBase, notes: Seq<Note>) -> bool {
    &&& after.grown(before, notes.len() as int)
    &&& forall|k: int|
        0 <= k < notes.len() ==> note_of(#[trigger] after.added(before, k)) == notes[k]
}

/// What is written in two steps is written in one.
pub proof fn lemma_written_twice(
    first: &EventDataBase,
    second: &EventDataBase,
    third: &EventDataBase,
    one: Seq<Note>,
    two: Seq<Note>,
)
    requires
        written(first, second, one),
        written(second, third, two),
    ensures
        written(first, third, one + two),
{
    lemma_grown_twice(first, second, third, one.len() as int, two.len() as int);
    assert forall|k: int| 0 <= k < (one + two).len() implies note_of(
        #[trigger] third.added(first, k),
    ) == (one + two)[k] by {
        if k < one.len() {
            assert(third.added(first, k) == second.added(first, k));
        } else {
            assert(third.added(second, k - one.len()) == third.added(
                first,
                one.len() + (k - one.len()),
            ));
        }
    }
}

/// Nothing is written to a log that stays as it is.
pub proof fn lemma_written_nothing(edb: &EventDataBase)
    ensures
        written(edb, edb, Seq::empty()),
{
    assert(edb@.take(edb@.len() as int) =~= edb@);
}

/// What is said of a log whose identities are used up.
pub const NO_IDENTITIES: &'static str = "the event identities of the log are used up";

/// Whether so many events can be written.
pub fn has_room(edb: &EventDataBase, count: usize) -> (result: bool)
    ensures
        result == edb.room(count as int),
{
    count as u64 <= NO_ABORT_TARGET - edb.next_id
}

/// Adds the events in a row, all of them or none.
pub fn append_all(edb: &mut EventDataBase, bodies: Vec<EventBody>) -> (result: Result<(), String>)
    requires
        old(edb).wf(),
    ensures
        final(edb).wf(),
        if old(edb).room(bodies@.len() as int) {
            result is Ok && written(old(edb), final(edb), notes_of(bodies@))
        } else {
            *final(edb) == *old(edb) && match result {
                Ok(_) => false,
                Err(error) => error@ == NO_IDENTITIES@,
            }
        },
{
    if !has_room(edb, bodies.len()) {
        return Err(NO_IDENTITIES.to_owned());
    }
    let ghost all = notes_of(bodies@);
    let ghost count = bodies@.len();
    let ghost mut done: int = 0;
    proof {
        lemma_written_nothing(edb);
        assert(all.take(0) =~= Seq::<Note>::empty());
    }
    for body in it: bodies
        invariant
            it.seq() == bodies@,
            edb.wf(),
            old(edb).room(count as int),
            count == bodies@.len(),
            all == notes_of(bodies@),
            written(old(edb), edb, all.take(it.index() as int)),
    {
        let ghost before = *edb;
        let ghost place = it.index() as int;
        edb.append(body);
        proof {
            assert(written(&before, edb, seq![all[place]])) by {
                assert(edb.added(&before, 0) == body);
            }
            lemma_written_twice(old(edb), &before, edb, all.take(place), seq![all[place]]);
            assert(all.take(place) + seq![all[place]] =~= all.take(place + 1));
        }
    }
    assert(all.take(count as int) =~= all);
    Ok(())
}

/// A step of a request.
pub fn request_note(
    api_call_id: EventId,
    prompt_id: EventId,
    state: ApiState,
    usage: Option<ApiUsage>,
    detail: &str,
) -> (body: EventBody)
    ensures
        note_of(body) == plain_request(api_call_id, prompt_id, state, usage, detail@),
{
    EventBody::ApiStateUpdate(
        ApiStateUpdate {
            api_call_id,
            prompt_id,
            state,
            retry_count: 0,
            retry_limit: 0,
            usage,
            detail: detail.to_owned(),
        },
    )
}

/// A step of a request that is not a further try.
pub open spec fn plain_request(
    api_call: EventId,
    prompt: EventId,
    state: ApiState,
    usage: Option<ApiUsage>,
    detail: Seq<char>,
) -> Note {
    Note::Request { api_call, prompt, state, retry_count: 0, retry_limit: 0, usage, detail }
}

/// A further try of a request.
pub fn retry_note(
    api_call_id: EventId,
    prompt_id: EventId,
    retry_count: u8,
    retry_limit: u8,
    detail: &str,
) -> (body: EventBody)
    ensures
        note_of(body) == (Note::Request {
            api_call: api_call_id,
            prompt: prompt_id,
            state: ApiState::Retrying,
            retry_count,
            retry_limit,
            usage: None,
            detail: detail@,
        }),
{
    EventBody::ApiStateUpdate(
        ApiStateUpdate {
            api_call_id,
            prompt_id,
            state: ApiState::Retrying,
            retry_count,
            retry_limit,
            usage: None,
            detail: detail.to_owned(),
        },
    )
}

/// How the tokens of a request divide.
pub fn estimate_note(api_state_event_id: EventId, sum: u64) -> (body: EventBody)
    ensures
        note_of(body) == (Note::Estimate { api_state: api_state_event_id, sum }),
{
    EventBody::ContextUsageEstimate(ContextUsageEstimate { api_state_event_id, sum })
}

/// The end of a tool call.
pub fn ended_note(tool_call_id: EventId, state: ToolResultState, detail: String) -> (body: EventBody)
    ensures
        note_of(body) == (Note::Ended {
            tool_call: tool_call_id,
            state,
            exit_code: None,
            detail: detail@,
        }),
{
    EventBody::ToolCallResult(ToolCallResult { tool_call_id, state, exit_code: None, detail })
}

} // verus!
