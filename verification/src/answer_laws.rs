//! What can be relied on of an answer: that all of it is taken up line by line, that what comes of
//! it is written down, and when a request is tried again, given up or complete.
use vstd::prelude::*;

use crate::buffers::{
    chunks_text, completed_calls, recorded_usage, slots_after, AssistView, CallView, ChunkView,
    CompactView, MainView,
};
use crate::catalog::ToolboxCatalog;
use crate::event::{ApiState, ApiUsage, EventId, ToolTraits};
use crate::json::{json_written, JsonView};
use crate::notes::Note;
use crate::request::{
    answer_notes, attempt_end, chat_answer, line_notes, main_answer, main_problem, retryable,
    summary_answer, summary_failure, summary_problem, AnswerView, Attempt, AttemptEnd,
};
use crate::stream::{stream_event, stream_usage, ModelUsage, StreamView};
use crate::text::{occurs_at, occurs_in};

verus! {

/// What a line brings beside text is taken up: the tokens that it reports, the pieces of tool calls,
/// and what a provider wants back. A line that cannot be taken up changes nothing but the tokens.
pub proof fn law_lines_are_taken_up(buffer: MainView, chat: AssistView, line: Seq<char>)
    ensures
        ({
            let after = buffer.after_line(line).0;
            let chatted = chat.after_line(line).0;
            &&& stream_usage(line) matches Ok(Some(tokens)) ==> after.usage == Some(tokens)
                && chatted.usage == Some(tokens)
            &&& !(stream_usage(line) matches Ok(Some(_))) ==> after.usage == buffer.usage
                && chatted.usage == chat.usage
            &&& stream_usage(line) is Ok ==> match stream_event(line) {
                Ok(StreamView::Delta { content, tool_calls }) => after.tools == slots_after(
                    buffer.tools,
                    tool_calls,
                    tool_calls.len() as int,
                ) && after.items == buffer.items,
                Ok(StreamView::ProviderContextItem { provider, item }) => after.items
                    == buffer.items.push((provider, item)) && chatted.items == chat.items.push(
                    (provider, item),
                ) && after.tools == buffer.tools,
                Ok(_) => after.tools == buffer.tools && after.items == buffer.items,
                Err(error) => after == (MainView { usage: after.usage, ..buffer }) && buffer.after_line(
                    line,
                ).1 == Err::<Seq<ChunkView>, Seq<char>>(error) && chat.after_line(line).1 == Err::<
                    Seq<ChunkView>,
                    Seq<char>,
                >(error),
            }
            &&& stream_usage(line) is Err ==> after == buffer && chatted == chat
                && buffer.after_line(line).1 is Err
        }),
{
}

/// An answer is known to say something once a line brings text, and not before.
pub proof fn law_text_is_noticed(chat: AssistView, content: Seq<char>)
    ensures
        chat.with_content(content).has_characters <==> chat.has_characters || content.len() > 0,
        !AssistView::empty().has_characters,
        AssistView::empty().content.len() == 0,
        !AssistView::empty().finished,
        AssistView::empty().usage is None,
        AssistView::empty().items.len() == 0,
        MainView::empty().assistant == AssistView::empty(),
        MainView::empty().tools.len() == 0,
        MainView::empty().usage is None,
        !CompactView::empty().called_tool,
        CompactView::empty().content.len() == 0,
{
}

/// The summary that lines bring is their text, in a row; a call of a tool is noticed.
pub proof fn law_summary_is_the_text_of_its_lines(summary: CompactView, line: Seq<char>)
    ensures
        summary.after_line(line).0.content == summary.content + crate::buffers::line_content(line),
        summary.after_line(line).0.has_characters <==> summary.has_characters
            || crate::buffers::line_content(line).len() > 0,
        summary.after_line(line).0.called_tool <==> summary.called_tool || (stream_usage(line)
            is Ok && (stream_event(line) matches Ok(StreamView::Delta { content, tool_calls })
            && tool_calls.len() > 0)),
        summary.after_line(line).1 is Ok <==> stream_usage(line) is Ok && stream_event(line) is Ok,
{
    assert(summary.content + Seq::<char>::empty() =~= summary.content);
}

/// The texts that notes say, in a row.
pub open spec fn said_by_notes(notes: Seq<Note>) -> Seq<char>
    decreases notes.len(),
{
    if notes.len() == 0 {
        Seq::empty()
    } else {
        match notes[0] {
            Note::Said { prompt, content, finished } => content + said_by_notes(notes.skip(1)),
            _ => said_by_notes(notes.skip(1)),
        }
    }
}

proof fn lemma_said_by_notes(first: Seq<Note>, second: Seq<Note>)
    ensures
        said_by_notes(first + second) == said_by_notes(first) + said_by_notes(second),
    decreases first.len(),
{
    if first.len() == 0 {
        assert(first + second =~= second);
        assert(said_by_notes(first) + said_by_notes(second) =~= said_by_notes(second));
    } else {
        lemma_said_by_notes(first.skip(1), second);
        assert((first + second).skip(1) =~= first.skip(1) + second);
        assert(said_by_notes(first + second) =~= said_by_notes(first) + said_by_notes(second));
    }
}

proof fn lemma_nothing_said(notes: Seq<Note>)
    requires
        forall|i: int| 0 <= i < notes.len() ==> !((#[trigger] notes[i]) is Said),
    ensures
        said_by_notes(notes).len() == 0,
    decreases notes.len(),
{
    if notes.len() > 0 {
        let rest = notes.skip(1);
        assert forall|i: int| 0 <= i < rest.len() implies !((#[trigger] rest[i]) is Said) by {
            assert(!(notes[i + 1] is Said));
        }
        lemma_nothing_said(rest);
    }
}

proof fn lemma_chunks_said(prompt: EventId, chunks: Seq<ChunkView>)
    ensures
        said_by_notes(crate::request::chunk_notes(prompt, chunks)) == chunks_text(chunks),
    decreases chunks.len(),
{
    let notes = crate::request::chunk_notes(prompt, chunks);
    if chunks.len() > 0 {
        lemma_chunks_said(prompt, chunks.skip(1));
        assert(notes.skip(1) =~= crate::request::chunk_notes(prompt, chunks.skip(1)));
        assert(notes[0] == (Note::Said {
            prompt,
            content: chunks[0].content,
            finished: chunks[0].finished,
        }));
    }
}

/// What a line gives out is written down, all of it and as it is, and each thing that a provider
/// wants back with it; that the answer streams is written once.
pub proof fn law_lines_are_written_down(
    attempt: Attempt,
    items: Seq<(Seq<char>, JsonView)>,
    chunks: Seq<ChunkView>,
    place: int,
)
    ensures
        ({
            let notes = line_notes(attempt, items, Ok(chunks));
            let first = if attempt.streaming {
                0int
            } else {
                1
            };
            &&& said_by_notes(notes) == chunks_text(chunks)
            &&& notes.len() == first + items.len() + chunks.len()
            &&& !attempt.streaming ==> (notes[0] matches Note::Request {
                api_call,
                prompt,
                state,
                retry_count,
                retry_limit,
                usage,
                detail,
            } && api_call == attempt.api_call_id && prompt == attempt.prompt_id && state
                == ApiState::Streaming)
            &&& 0 <= place < items.len() ==> notes[first + place] == (Note::Item {
                api_call: attempt.api_call_id,
                prompt: attempt.prompt_id,
                provider: items[place].0,
                content: json_written(items[place].1),
            })
            &&& 0 <= place < chunks.len() ==> notes[first + items.len() + place] == (Note::Said {
                prompt: attempt.prompt_id,
                content: chunks[place].content,
                finished: chunks[place].finished,
            })
        }),
{
    let streaming = crate::request::streaming_notes(attempt);
    let back = crate::request::item_notes(attempt, items);
    let said = crate::request::chunk_notes(attempt.prompt_id, chunks);
    lemma_said_by_notes(streaming + back, said);
    lemma_said_by_notes(streaming, back);
    lemma_nothing_said(streaming);
    lemma_nothing_said(back);
    lemma_chunks_said(attempt.prompt_id, chunks);
    assert(said_by_notes(streaming) + said_by_notes(back) + chunks_text(chunks) =~= chunks_text(
        chunks,
    ));
}

/// A failure is for good if and only if the provider says that it cannot read the request.
pub proof fn law_only_bad_requests_are_given_up(error: Seq<char>, before: Seq<char>, after: Seq<char>)
    ensures
        !retryable(before + " 400 Bad Request:"@ + after),
        !retryable(error) ==> exists|i: int|
            0 <= i && i + " 400 Bad Request:"@.len() <= error.len() && #[trigger] error.subrange(
                i,
                i + " 400 Bad Request:"@.len(),
            ) == " 400 Bad Request:"@,
{
    let word = " 400 Bad Request:"@;
    let text = before + word + after;
    assert(text.subrange(before.len() as int, (before.len() + word.len()) as int) =~= word);
    assert(occurs_at(text, word, before.len() as int));
    if occurs_in(error, word) {
        let i = choose|i: int| occurs_at(error, word, i);
        assert(error.subrange(i, i + word.len()) == word);
    }
}

/// Whether a note is a step of a request without any count of tries.
pub open spec fn is_step(
    note: Note,
    attempt: Attempt,
    reached: ApiState,
    tokens: Option<ApiUsage>,
) -> bool {
    note matches Note::Request {
        api_call,
        prompt,
        state,
        retry_count,
        retry_limit,
        usage,
        detail,
    } && api_call == attempt.api_call_id && prompt == attempt.prompt_id && state == reached && usage
        == tokens
}

/// What a note says of a step of a request.
pub open spec fn detail_of(note: Note) -> Seq<char> {
    note->Request_detail
}

/// A request that failed is tried again if and only if the failure may pass and tries are left, of
/// which there are five; the failure is written down with the tokens that it took, and behind it
/// the number of the next try, or that the request is given up and why.
pub proof fn law_failures_are_tried_again(
    attempt: Attempt,
    answer: AnswerView,
    error: Seq<char>,
    next: EventId,
    sum: u64,
)
    requires
        !attempt.aborted,
    ensures
        ({
            let (end, notes) = attempt_end(attempt, answer, false, Err(error), next, sum);
            let again = retryable(error) && attempt.retry_count < 5;
            &&& again <==> end == AttemptEnd::Retry
            &&& !again <==> end == AttemptEnd::Interrupted
            &&& notes.len() == 2
            &&& is_step(notes[0], attempt, ApiState::Error, answer.usage)
            &&& detail_of(notes[0]) == error
            &&& again ==> is_step(notes[1], attempt, ApiState::Retrying, None) && detail_of(notes[1])
                == error && notes[1]->Request_retry_count == attempt.retry_count + 1
                && notes[1]->Request_retry_limit == 5
            &&& !again ==> is_step(notes[1], attempt, ApiState::Interrupted, None) && detail_of(
                notes[1],
            ).len() >= error.len() && detail_of(notes[1]).skip(
                detail_of(notes[1]).len() - error.len(),
            ) == error
        }),
{
    reveal_strlit("");
    let (end, notes) = attempt_end(attempt, answer, false, Err(error), next, sum);
    if !(retryable(error) && attempt.retry_count < 5) {
        let said = detail_of(notes[1]);
        assert(said.skip(said.len() - error.len()) =~= error);
    }
}

/// A stream that ended well completes the request if there is nothing wrong with the answer: all
/// text that was left is written, then that the request is complete with the tokens that it took,
/// and how they divide, if there are any. Something wrong with it is a failure that may pass.
pub proof fn law_answers_complete_their_request(
    attempt: Attempt,
    answer: AnswerView,
    next: EventId,
    sum: u64,
)
    requires
        next + answer.last.len() + 1 <= u64::MAX,
    ensures
        ({
            let (end, notes) = attempt_end(attempt, answer, false, Ok(()), next, sum);
            &&& said_by_notes(notes) == chunks_text(answer.last)
            &&& answer.problem is Some ==> end == (if attempt.retry_count < 5 {
                AttemptEnd::Retry
            } else {
                AttemptEnd::Interrupted
            }) && notes.len() >= 2 && is_step(
                notes[notes.len() - 2],
                attempt,
                ApiState::Error,
                answer.usage,
            ) && detail_of(notes[notes.len() - 2]) == answer.problem->0
            &&& answer.problem is None && answer.closes ==> {
                let at = if answer.usage is Some {
                    notes.len() - 2
                } else {
                    notes.len() - 1
                };
                &&& end == AttemptEnd::Completed
                &&& at >= 0
                &&& is_step(notes[at], attempt, ApiState::Completed, answer.usage)
                &&& answer.usage is Some ==> notes.last() == (Note::Estimate {
                    api_state: (next + at) as u64,
                    sum,
                })
            }
            &&& answer.problem is None && !answer.closes ==> end == AttemptEnd::Answered
                && notes.len() == answer.last.len() + (if attempt.streaming {
                0int
            } else {
                1
            })
        }),
{
    let streaming = crate::request::streaming_notes(attempt);
    let said = crate::request::chunk_notes(attempt.prompt_id, answer.last);
    let (end, notes) = attempt_end(attempt, answer, false, Ok(()), next, sum);
    let rest = notes.skip((streaming + said).len() as int);
    lemma_said_by_notes(streaming, said);
    lemma_nothing_said(streaming);
    lemma_chunks_said(attempt.prompt_id, answer.last);
    assert(notes =~= (streaming + said) + rest);
    assert(forall|i: int| 0 <= i < rest.len() ==> !((#[trigger] rest[i]) is Said));
    lemma_nothing_said(rest);
    lemma_said_by_notes(streaming + said, rest);
    assert(said_by_notes(streaming) + chunks_text(answer.last) + said_by_notes(rest)
        =~= chunks_text(answer.last));
}

/// A turn that the user ends ends its request: that is written before the end of the request, which
/// is interrupted and counts the tokens that it took.
pub proof fn law_user_ends_the_request(
    attempt: Attempt,
    answer: AnswerView,
    outcome: Result<(), Seq<char>>,
    next: EventId,
    sum: u64,
)
    ensures
        ({
            let (end, notes) = attempt_end(attempt, answer, true, outcome, next, sum);
            let first = if attempt.aborted && outcome is Err {
                0int
            } else {
                1
            };
            &&& end == AttemptEnd::Aborted
            &&& first == 1 ==> notes[0] == (Note::Aborted { prompt: attempt.prompt_id })
            &&& notes.len() == first + 1 + (if answer.usage is Some {
                1int
            } else {
                0
            })
            &&& is_step(notes[first], attempt, ApiState::Interrupted, answer.usage)
            &&& detail_of(notes[first]) == answer.aborted_detail
        }),
{
}

/// What is wrong with an answer: to a chat bot, that it says nothing; to an agent with tools, a bad
/// call, a compaction beside other calls, or that it says nothing and calls nothing; a summary that
/// calls a tool or says nothing.
pub proof fn law_answers_are_judged(
    chat: AssistView,
    response: MainView,
    catalog: &ToolboxCatalog,
    summary: CompactView,
)
    ensures
        chat_answer(chat).problem is None <==> chat.has_characters,
        chat_answer(chat).closes,
        chat_answer(chat).last == chat.last_chunks(),
        chat_answer(chat).usage == recorded_usage(chat.usage),
        !main_answer(response, catalog).closes,
        main_answer(response, catalog).last == response.assistant.last_chunks(),
        main_answer(response, catalog).usage == recorded_usage(response.usage),
        main_answer(response, catalog).problem == main_problem(response, catalog),
        match completed_calls(response.tools, catalog, response.tools.len() as int) {
            Err(error) => main_problem(response, catalog) == Some(error),
            Ok(calls) => main_problem(response, catalog) is None <==> (
            response.assistant.has_characters || calls.len() > 0) && (calls.len() == 1
                || forall|i: int|
                0 <= i < calls.len() ==> (#[trigger] calls[i]).name != "Compact"@),
        },
        summary_answer(summary).closes,
        summary_answer(summary).last.len() == 0,
        summary_answer(summary).usage == recorded_usage(summary.usage),
        summary_problem(summary) is None <==> !summary.called_tool && summary.has_characters
            && summary.content.len() > 0,
        forall|error: Seq<char>| #[trigger] summary_failure(summary, Err(error)) == error,
{
}

/// Tokens are recorded as they were reported.
pub proof fn law_tokens_are_recorded(usage: ModelUsage)
    ensures
        recorded_usage(None) is None,
        recorded_usage(Some(usage)) matches Some(recorded) && recorded.input_tokens
            == usage.input_tokens && recorded.output_tokens == usage.output_tokens
            && recorded.total_tokens == usage.total_tokens,
{
}

/// The tool calls of an answer are written down, each as it is and in their order, and behind them
/// that the request is complete.
pub proof fn law_tool_calls_are_written_down(
    attempt: Attempt,
    calls: Seq<CallView>,
    traits: Seq<ToolTraits>,
    usage: Option<ApiUsage>,
    next: EventId,
    sum: u64,
    place: int,
)
    requires
        next + calls.len() <= u64::MAX,
    ensures
        ({
            let notes = answer_notes(attempt, calls, traits, usage, next, sum);
            &&& 0 <= place < calls.len() ==> notes[place] == (Note::Called {
                api_call: attempt.api_call_id,
                prompt: attempt.prompt_id,
                provider_call_id: calls[place].provider_call_id,
                name: calls[place].name,
                arguments: calls[place].arguments,
                traits: traits[place],
            })
            &&& notes.len() == calls.len() + 1 + (if usage is Some {
                1int
            } else {
                0
            })
            &&& is_step(notes[calls.len() as int], attempt, ApiState::Completed, usage)
            &&& usage is Some ==> notes.last() == (Note::Estimate {
                api_state: (next + calls.len()) as u64,
                sum,
            })
        }),
{
}

/// A turn that the user ended says so, and says where it was ended while the conversation was summed up.
pub proof fn law_ended_turns_say_where(
    chat: AssistView,
    response: MainView,
    catalog: &ToolboxCatalog,
    summary: CompactView,
)
    ensures
        chat_answer(chat).aborted_detail == "user requested turn abort"@,
        main_answer(response, catalog).aborted_detail == "user requested turn abort"@,
        summary_answer(summary).aborted_detail == "user requested turn abort during Compact"@,
{
}

} // verus!
