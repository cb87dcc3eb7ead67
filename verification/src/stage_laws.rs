//! What can be relied on of the stages of a compaction: what the model is asked at each, what is
//! written of its answer, and what the summary is made of.
use vstd::prelude::*;

use crate::compact_run::{
    begins, observation_errors, page_values, run_sections, sessions_value, stage_asked,
    stage_note, step_ahead, step_of, terminal_values, told, CompactRun, CompactStep,
    StageOutcome,
};
use crate::context::injection;
use crate::event::{CompactState, Computed, EventBody};
use crate::json::{json_get, JsonView};
use crate::model::role_message;
use crate::notes::Note;
use crate::observer::{LiveTerminal, OpenPage};

verus! {

/// Whether a message says something in a role.
pub open spec fn speaks(message: JsonView, role: Seq<char>, content: Seq<char>) -> bool {
    &&& json_get(message, "role"@) == Some(JsonView::Text(role))
    &&& json_get(message, "content"@) == Some(JsonView::Text(content))
}

proof fn lemma_speaks(role: Seq<char>, content: Seq<char>)
    ensures
        speaks(role_message(role, content), role, content),
{
    reveal_strlit("role");
    reveal_strlit("content");
    assert("role"@.len() == 4);
    assert("content"@.len() == 7);
}

/// The messages of a role say what they were made to say, and hold nothing else.
pub proof fn law_message_says_its_content(role: Seq<char>, content: Seq<char>, key: Seq<char>)
    ensures
        speaks(role_message(role, content), role, content),
        json_get(role_message(role, content), key) is Some ==> key == "role"@ || key == "content"@,
{
    lemma_speaks(role, content);
}

/// Whether the messages from a place on show a stage that is done in its turn: what was asked, and
/// behind it exactly what was answered.
pub open spec fn shows_stage(asked: Seq<JsonView>, first: int, run: &CompactRun, stage: int) -> bool {
    &&& speaks(
        asked[first + 2 * stage],
        "user"@,
        injection("compact"@, run.plan@[stage].prompt->Some_0@),
    )
    &&& speaks(asked[first + 2 * stage + 1], "assistant"@, run.contents@[stage]@)
}

proof fn lemma_told(run: &CompactRun, count: int, done: int)
    requires
        0 <= done < count,
    ensures
        told(run, count).len() == 2 * count,
        speaks(
            told(run, count)[2 * done],
            "user"@,
            injection("compact"@, run.plan@[done].prompt->Some_0@),
        ),
        speaks(told(run, count)[2 * done + 1], "assistant"@, run.contents@[done]@),
    decreases count,
{
    lemma_speaks("user"@, injection("compact"@, run.plan@[count - 1].prompt->Some_0@));
    lemma_speaks("assistant"@, run.contents@[count - 1]@);
    lemma_told_len(run, count);
    lemma_told_len(run, count - 1);
    if done < count - 1 {
        lemma_told(run, count - 1, done);
        assert(told(run, count)[2 * done] == told(run, count - 1)[2 * done]);
        assert(told(run, count)[2 * done + 1] == told(run, count - 1)[2 * done + 1]);
    }
}

proof fn lemma_told_len(run: &CompactRun, count: int)
    requires
        0 <= count,
    ensures
        told(run, count).len() == 2 * count,
    decreases count,
{
    if count > 0 {
        lemma_told_len(run, count - 1);
    }
}

/// At a stage the model sees the conversation and then, for every stage that is done and in their
/// order, what it was asked and exactly what it answered; at the end it is asked for the new stage.
/// There is a stage to ask for if and only if the plan has a prompt for it.
pub proof fn law_stage_sees_what_earlier_stages_found(said: Seq<JsonView>, run: &CompactRun)
    requires
        run.contents@.len() < run.plan@.len(),
    ensures
        stage_asked(said, run) is Some <==> run.plan@[run.contents@.len() as int].prompt is Some,
        stage_asked(said, run) matches Some(asked) ==> {
            let done = run.contents@.len() as int;
            let first = said.len() as int;
            &&& asked.len() == first + 2 * done + 1
            &&& forall|i: int| 0 <= i < first ==> #[trigger] asked[i] == said[i]
            &&& forall|k: int| 0 <= k < done ==> #[trigger] shows_stage(asked, first, run, k)
            &&& speaks(
                asked.last(),
                "user"@,
                injection("compact"@, run.plan@[done].prompt->Some_0@),
            )
        },
{
    let done = run.contents@.len() as int;
    let first = said.len() as int;
    if let Some(asked) = stage_asked(said, run) {
        lemma_told_len(run, done);
        lemma_speaks("user"@, injection("compact"@, run.plan@[done].prompt->Some_0@));
        let next = role_message("user"@, injection("compact"@, run.plan@[done].prompt->Some_0@));
        assert(asked == (said + told(run, done)).push(next));
        assert(asked.last() == next);
        assert forall|i: int| 0 <= i < first implies #[trigger] asked[i] == said[i] by {
            assert((said + told(run, done))[i] == said[i]);
        }
        assert forall|k: int| 0 <= k < done implies #[trigger] shows_stage(
            asked,
            first,
            run,
            k,
        ) by {
            lemma_told(run, done, k);
            assert(asked[first + 2 * k] == told(run, done)[2 * k]);
            assert(asked[first + 2 * k + 1] == told(run, done)[2 * k + 1]);
        }
    }
}

/// What is written of a stage is its answer, or why there is none, under the identities of the
/// compaction; a stage without a name completes the compaction.
pub proof fn law_answer_of_a_stage_is_written(run: &CompactRun, outcome: StageOutcome)
    ensures
        stage_note(run, outcome) matches Note::Compacted {
            compact,
            tool_call,
            prompt,
            kind,
            total_stages,
            stage,
            state,
            content,
            detail,
        } && compact == run.compact_id && tool_call == run.tool_call_id && prompt == run.prompt_id
            && kind == run.kind && total_stages == run.total_stages && match outcome {
            StageOutcome::Completed(answer) => {
                &&& content == answer@
                &&& detail.len() == 0
                &&& stage == run.plan@[run.contents@.len() as int].stage
                &&& stage is Some <==> state == CompactState::StageCompleted
                &&& stage is None <==> state == CompactState::Completed
            },
            StageOutcome::Failed(error) => state == CompactState::Failed && detail == error@
                && content.len() == 0 && stage is None,
            StageOutcome::Aborted => state == CompactState::Interrupted && detail
                == "user requested turn abort"@ && content.len() == 0 && stage is None,
        },
{
    reveal_strlit("");
}

/// An event that is a step of a compaction holds what the step says, and one that begins it names
/// the stages of the plan in their order.
pub proof fn law_step_holds_what_it_says(
    body: EventBody,
    run: &CompactRun,
    outcome: StageOutcome,
    merged: (Seq<Seq<char>>, Seq<char>),
)
    ensures
        step_of(body, run, stage_note(run, outcome), merged) ==> (body matches
            EventBody::CompactStateUpdate(update) && update.compact_id == run.compact_id
            && update.tool_call_id == run.tool_call_id && update.prompt_id == run.prompt_id
            && update.kind == run.kind && update.total_stages == run.total_stages && (outcome
            matches StageOutcome::Completed(answer) ==> update.content@ == answer@) && (outcome
            matches StageOutcome::Failed(error) ==> update.detail@ == error@)
            && update.merged_summary@ == merged.1 && update.merged_sections@.len()
            == merged.0.len()),
        begins(body, run) ==> (body matches EventBody::CompactStateUpdate(update)
            && update.compact_id == run.compact_id && update.tool_call_id == run.tool_call_id
            && update.prompt_id == run.prompt_id && update.kind == run.kind && update.total_stages
            == run.total_stages && update.state == CompactState::Started && (update.stages matches
            Some(stages) ==> stages@.len() == run.plan@.len() && forall|i: int|
            0 <= i < stages@.len() ==> run.plan@[i].stage == Some(#[trigger] stages@[i]))),
{
}

/// A compaction goes on as long as its plan has stages left, and its summary is made of every
/// answer but the first, in their order.
pub proof fn law_every_stage_but_the_first_is_summed_up(run: &CompactRun)
    ensures
        step_ahead(run) == CompactStep::NextStage <==> run.contents@.len() < run.plan@.len(),
        step_ahead(run) == CompactStep::Merge <==> run.contents@.len() >= run.plan@.len(),
        run.contents@.len() > 0 ==> run_sections(run).len() + 1 == run.contents@.len(),
        run.contents@.len() == 0 ==> run_sections(run).len() == 0,
        forall|i: int|
            0 <= i < run_sections(run).len() ==> #[trigger] run_sections(run)[i] == run.contents@[i
                + 1]@,
{
}

proof fn lemma_session_keys_differ()
    ensures
        "tool"@ != "session_id"@,
        "tool"@ != "state"@,
        "tool"@ != "width"@,
        "tool"@ != "height"@,
        "session_id"@ != "state"@,
        "session_id"@ != "width"@,
        "session_id"@ != "height"@,
        "state"@ != "width"@,
        "state"@ != "height"@,
        "width"@ != "height"@,
        "tool"@ != "page_id"@,
        "tool"@ != "title"@,
        "tool"@ != "url"@,
        "page_id"@ != "state"@,
        "page_id"@ != "title"@,
        "page_id"@ != "url"@,
        "state"@ != "title"@,
        "state"@ != "url"@,
        "title"@ != "url"@,
        "terminal_sessions"@ != "web_browser_pages"@,
        "terminal_sessions"@ != "observation_errors"@,
        "web_browser_pages"@ != "observation_errors"@,
{
    reveal_strlit("tool");
    reveal_strlit("session_id");
    reveal_strlit("state");
    reveal_strlit("width");
    reveal_strlit("height");
    reveal_strlit("page_id");
    reveal_strlit("title");
    reveal_strlit("url");
    reveal_strlit("terminal_sessions");
    reveal_strlit("web_browser_pages");
    reveal_strlit("observation_errors");
    assert("tool"@.len() == 4);
    assert("session_id"@.len() == 10);
    assert("state"@.len() == 5);
    assert("width"@.len() == 5);
    assert("state"@[0] == 's');
    assert("width"@[0] == 'w');
    assert("height"@.len() == 6);
    assert("page_id"@.len() == 7);
    assert("title"@.len() == 5);
    assert("title"@[0] == 't');
    assert("url"@.len() == 3);
    assert("terminal_sessions"@.len() == 17);
    assert("web_browser_pages"@.len() == 17);
    assert("terminal_sessions"@[0] == 't');
    assert("web_browser_pages"@[0] == 'w');
    assert("observation_errors"@.len() == 18);
}

/// A compaction is told of every session and page, each with what it is known by, and of every
/// inventory that could not be looked at.
pub proof fn law_compaction_is_told_of_every_session(
    terminals: Computed<Vec<LiveTerminal>>,
    pages: Computed<Vec<OpenPage>>,
)
    ensures
        json_get(sessions_value(terminals, pages), "terminal_sessions"@) == Some(
            JsonView::Array(terminal_values(terminals)),
        ),
        json_get(sessions_value(terminals, pages), "web_browser_pages"@) == Some(
            JsonView::Array(page_values(pages)),
        ),
        json_get(sessions_value(terminals, pages), "observation_errors"@) == Some(
            JsonView::Array(observation_errors(terminals, pages)),
        ),
        terminals matches Computed::Value(live) ==> terminal_values(terminals).len() == live@.len()
            && forall|i: int|
            #![trigger live@[i]]
            0 <= i < live@.len() ==> {
                let item = terminal_values(terminals)[i];
                &&& json_get(item, "tool"@) == Some(JsonView::Text("Terminal"@))
                &&& json_get(item, "session_id"@) == Some(JsonView::Text(live@[i].session_id@))
                &&& json_get(item, "state"@) == Some(JsonView::Text("live"@))
                &&& json_get(item, "width"@) == Some(JsonView::Integer(live@[i].width as int))
                &&& json_get(item, "height"@) == Some(JsonView::Integer(live@[i].height as int))
            },
        pages matches Computed::Value(open) ==> page_values(pages).len() == open@.len()
            && forall|i: int|
            #![trigger open@[i]]
            0 <= i < open@.len() ==> {
                let item = page_values(pages)[i];
                &&& json_get(item, "tool"@) == Some(JsonView::Text("WebBrowser"@))
                &&& json_get(item, "page_id"@) == Some(JsonView::Text(open@[i].page_id@))
                &&& json_get(item, "state"@) == Some(JsonView::Text(open@[i].state@))
                &&& json_get(item, "title"@) == Some(JsonView::Text(open@[i].title@))
                &&& json_get(item, "url"@) == Some(JsonView::Text(open@[i].url@))
            },
        observation_errors(terminals, pages).len() == (if terminals is Failure {
            1int
        } else {
            0
        }) + (if pages is Failure {
            1int
        } else {
            0
        }),
        terminals matches Computed::Failure(error) ==> observation_errors(terminals, pages)[0]
            == JsonView::Text("Terminal inventory unavailable: "@ + error@),
        pages matches Computed::Failure(error) ==> observation_errors(terminals, pages).last()
            == JsonView::Text("WebBrowser inventory unavailable: "@ + error@),
{
    lemma_session_keys_differ();
    reveal_strlit("");
    if let Computed::Failure(error) = terminals {
        assert("Terminal inventory unavailable: "@ + error@ + ""@
            =~= "Terminal inventory unavailable: "@ + error@);
    }
    if let Computed::Failure(error) = pages {
        assert("WebBrowser inventory unavailable: "@ + error@ + ""@
            =~= "WebBrowser inventory unavailable: "@ + error@);
    }
}

} // verus!
