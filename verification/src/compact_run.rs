//! A compaction that runs: its stages, what the model is asked at each, and what is written.
use vstd::prelude::*;

use crate::compacts::no_sections;
use crate::context::{injection, system_prompt_injection_envelope};
use crate::event::{
    CompactKind, CompactStage, CompactState, CompactStateUpdate, Computed, EventBody,
    EventDataBase, EventId,
};
use crate::json::{
    array_view, json_written, lemma_array_items, lemma_array_push, write_json, Json, JsonView,
};
use crate::model::{role_message, ModelContext};
use crate::observer::{LiveTerminal, OpenPage, ToolboxObserver};
use crate::notes::{note_of, Note, NO_IDENTITIES};
use crate::request::ABORT_DETAIL;
use crate::text::{join3, views};

verus! {

/// A live terminal session as a compaction tells of it.
pub open spec fn terminal_value(session: LiveTerminal) -> JsonView {
    JsonView::Object(
        Map::empty().insert("tool"@, JsonView::Text("Terminal"@)).insert(
            "session_id"@,
            JsonView::Text(session.session_id@),
        ).insert("state"@, JsonView::Text("live"@)).insert(
            "width"@,
            JsonView::Integer(session.width as int),
        ).insert("height"@, JsonView::Integer(session.height as int)),
    )
}

/// An open page as a compaction tells of it.
pub open spec fn page_value(page: OpenPage) -> JsonView {
    JsonView::Object(
        Map::empty().insert("tool"@, JsonView::Text("WebBrowser"@)).insert(
            "page_id"@,
            JsonView::Text(page.page_id@),
        ).insert("state"@, JsonView::Text(page.state@)).insert(
            "title"@,
            JsonView::Text(page.title@),
        ).insert("url"@, JsonView::Text(page.url@)),
    )
}

/// The terminal sessions that are known to be alive.
pub open spec fn terminal_values(terminals: Computed<Vec<LiveTerminal>>) -> Seq<JsonView> {
    match terminals {
        Computed::Value(sessions) => Seq::new(
            sessions@.len(),
            |i: int| terminal_value(sessions@[i]),
        ),
        Computed::Failure(_) => Seq::empty(),
    }
}

/// The pages that are known to be open.
pub open spec fn page_values(pages: Computed<Vec<OpenPage>>) -> Seq<JsonView> {
    match pages {
        Computed::Value(open) => Seq::new(open@.len(), |i: int| page_value(open@[i])),
        Computed::Failure(_) => Seq::empty(),
    }
}

/// What could not be looked at.
pub open spec fn observation_errors(
    terminals: Computed<Vec<LiveTerminal>>,
    pages: Computed<Vec<OpenPage>>,
) -> Seq<JsonView> {
    let first = match terminals {
        Computed::Value(_) => Seq::empty(),
        Computed::Failure(error) => seq![
            JsonView::Text("Terminal inventory unavailable: "@ + error@ + ""@),
        ],
    };
    match pages {
        Computed::Value(_) => first,
        Computed::Failure(error) => first.push(
            JsonView::Text("WebBrowser inventory unavailable: "@ + error@ + ""@),
        ),
    }
}

/// The sessions of the tools as a compaction tells of them.
pub open spec fn sessions_value(
    terminals: Computed<Vec<LiveTerminal>>,
    pages: Computed<Vec<OpenPage>>,
) -> JsonView {
    JsonView::Object(
        Map::empty().insert(
            "terminal_sessions"@,
            JsonView::Array(terminal_values(terminals)),
        ).insert("web_browser_pages"@, JsonView::Array(page_values(pages))).insert(
            "observation_errors"@,
            JsonView::Array(observation_errors(terminals, pages)),
        ),
    )
}

/// The sessions of the tools, as JSON text.
#[derive(Debug)]
pub struct CompactActiveSessions {
    pub has_sessions: bool,
    pub json: String,
}

fn terminal_json(session: &LiveTerminal) -> (json: Json)
    ensures
        json@ == terminal_value(*session),
{
    Json::object().with("tool", Json::text("Terminal")).with(
        "session_id",
        Json::text(session.session_id.as_str()),
    ).with("state", Json::text("live")).with("width", Json::Unsigned(session.width as u64)).with(
        "height",
        Json::Unsigned(session.height as u64),
    )
}

fn page_json(page: &OpenPage) -> (json: Json)
    ensures
        json@ == page_value(*page),
{
    Json::object().with("tool", Json::text("WebBrowser")).with(
        "page_id",
        Json::text(page.page_id.as_str()),
    ).with("state", Json::text(page.state.as_str())).with(
        "title",
        Json::text(page.title.as_str()),
    ).with("url", Json::text(page.url.as_str()))
}

fn terminal_list(sessions: &Vec<LiveTerminal>) -> (list: Vec<Json>)
    ensures
        array_view(list@) == Seq::new(sessions@.len(), |i: int| terminal_value(sessions@[i])),
{
    let ghost all = Seq::new(sessions@.len(), |i: int| terminal_value(sessions@[i]));
    let mut list: Vec<Json> = Vec::new();
    let mut place: usize = 0;
    assert(array_view(list@) =~= all.take(0));
    while place < sessions.len()
        invariant
            place <= sessions@.len(),
            all == Seq::new(sessions@.len(), |i: int| terminal_value(sessions@[i])),
            array_view(list@) == all.take(place as int),
        decreases sessions@.len() - place,
    {
        let item = terminal_json(&sessions[place]);
        proof {
            lemma_array_push(list@, item);
            assert(all.take(place + 1) =~= all.take(place as int).push(all[place as int]));
        }
        list.push(item);
        place += 1;
    }
    assert(all.take(place as int) =~= all);
    list
}

fn page_list(pages: &Vec<OpenPage>) -> (list: Vec<Json>)
    ensures
        array_view(list@) == Seq::new(pages@.len(), |i: int| page_value(pages@[i])),
{
    let ghost all = Seq::new(pages@.len(), |i: int| page_value(pages@[i]));
    let mut list: Vec<Json> = Vec::new();
    let mut place: usize = 0;
    assert(array_view(list@) =~= all.take(0));
    while place < pages.len()
        invariant
            place <= pages@.len(),
            all == Seq::new(pages@.len(), |i: int| page_value(pages@[i])),
            array_view(list@) == all.take(place as int),
        decreases pages@.len() - place,
    {
        let item = page_json(&pages[place]);
        proof {
            lemma_array_push(list@, item);
            assert(all.take(place + 1) =~= all.take(place as int).push(all[place as int]));
        }
        list.push(item);
        place += 1;
    }
    assert(all.take(place as int) =~= all);
    list
}

/// What the tools keep running, for a compaction to tell of. What could not be looked at is told
/// too.
pub fn compact_active_sessions(observer: &ToolboxObserver) -> (sessions: CompactActiveSessions)
    ensures
        sessions.has_sessions == (terminal_values(observer.terminals).len() > 0 || page_values(
            observer.pages,
        ).len() > 0),
        sessions.json@ == json_written(sessions_value(observer.terminals, observer.pages)),
{
    broadcast use lemma_array_items;

    let terminals = &observer.terminals;
    let pages = &observer.pages;

    let mut errors: Vec<Json> = Vec::new();
    assert(array_view(errors@) =~= Seq::<JsonView>::empty());
    let terminal_sessions = match terminals {
        Computed::Value(list) => terminal_list(list),
        Computed::Failure(error) => {
            let item = Json::Text(join3("Terminal inventory unavailable: ", error.as_str(), ""));
            proof {
                lemma_array_push(errors@, item);
            }
            errors.push(item);
            Vec::new()
        },
    };
    assert(array_view(terminal_sessions@) =~= terminal_values(*terminals));
    let web_browser_pages = match pages {
        Computed::Value(list) => page_list(list),
        Computed::Failure(error) => {
            let item = Json::Text(join3("WebBrowser inventory unavailable: ", error.as_str(), ""));
            proof {
                lemma_array_push(errors@, item);
            }
            errors.push(item);
            Vec::new()
        },
    };
    assert(array_view(web_browser_pages@) =~= page_values(*pages));
    assert(array_view(errors@) =~= observation_errors(*terminals, *pages));
    let has_sessions = terminal_sessions.len() > 0 || web_browser_pages.len() > 0;
    let value = Json::object().with("terminal_sessions", Json::Array(terminal_sessions)).with(
        "web_browser_pages",
        Json::Array(web_browser_pages),
    ).with("observation_errors", Json::Array(errors));
    CompactActiveSessions { has_sessions, json: write_json(&value) }
}

/// Whether a compaction of the kind is told of the sessions.
pub fn tells_of_sessions(kind: CompactKind, sessions: &CompactActiveSessions) -> (result: bool)
    ensures
        result == (kind.multi_turn() && sessions.has_sessions),
{
    kind.is_multi_turn() && sessions.has_sessions
}

/// A stage that is to come: its name, if the compaction has stages, and what the model is asked,
/// if the kind has anything to ask there.
#[derive(Debug)]
pub struct StagePlan {
    pub stage: Option<CompactStage>,
    pub prompt: Option<String>,
}

/// A compaction that runs. `contents` are the answers of the stages that are done.
#[derive(Debug)]
pub struct CompactRun {
    pub compact_id: EventId,
    pub tool_call_id: EventId,
    pub prompt_id: EventId,
    pub kind: CompactKind,
    pub total_stages: u8,
    pub accepted_count: bool,
    pub plan: Vec<StagePlan>,
    pub contents: Vec<String>,
}

/// A step of the compaction as it is written.
pub open spec fn run_note(
    run: &CompactRun,
    stage: Option<CompactStage>,
    state: CompactState,
    content: Seq<char>,
    detail: Seq<char>,
) -> Note {
    Note::Compacted {
        compact: run.compact_id,
        tool_call: run.tool_call_id,
        prompt: run.prompt_id,
        kind: run.kind,
        total_stages: run.total_stages,
        stage,
        state,
        content,
        detail,
    }
}

/// Whether an event is a later step of the compaction, and says so. `merged` are the sections that
/// a summary was made of, and the summary.
pub open spec fn step_of(
    body: EventBody,
    run: &CompactRun,
    note: Note,
    merged: (Seq<Seq<char>>, Seq<char>),
) -> bool {
    &&& note_of(body) == note
    &&& body matches EventBody::CompactStateUpdate(update)
    &&& update.accepted_count == run.accepted_count
    &&& update.stages is None
    &&& views(update.merged_sections@) == merged.0
    &&& update.merged_summary@ == merged.1
}

/// No summary was made of sections.
pub open spec fn not_merged() -> (Seq<Seq<char>>, Seq<char>) {
    (Seq::empty(), ""@)
}

/// The answers of which the summary of a compaction is made: all but the first, which is the
/// model's own analysis.
pub open spec fn run_sections(run: &CompactRun) -> Seq<Seq<char>> {
    if run.contents@.len() > 0 {
        views(run.contents@.skip(1))
    } else {
        Seq::empty()
    }
}

impl CompactRun {
    /// The stages that are done have a name, and there was something to ask.
    pub open spec fn wf(&self) -> bool {
        &&& self.contents@.len() <= self.plan@.len()
        &&& forall|i: int|
            0 <= i < self.contents@.len() ==> (#[trigger] self.plan@[i]).stage is Some
                && self.plan@[i].prompt is Some
    }

    /// Whether the run is another one that got further.
    pub open spec fn goes_on(&self, before: &CompactRun) -> bool {
        &&& self.compact_id == before.compact_id
        &&& self.tool_call_id == before.tool_call_id
        &&& self.prompt_id == before.prompt_id
        &&& self.kind == before.kind
        &&& self.total_stages == before.total_stages
        &&& self.accepted_count == before.accepted_count
        &&& self.plan == before.plan
    }

    fn step(
        &self,
        stage: Option<CompactStage>,
        state: CompactState,
        content: &str,
        detail: &str,
        sections: Vec<String>,
        merged_summary: &str,
    ) -> (body: EventBody)
        ensures
            step_of(
                body,
                self,
                run_note(self, stage, state, content@, detail@),
                (views(sections@), merged_summary@),
            ),
    {
        EventBody::CompactStateUpdate(
            CompactStateUpdate {
                compact_id: self.compact_id,
                tool_call_id: self.tool_call_id,
                prompt_id: self.prompt_id,
                kind: self.kind,
                total_stages: self.total_stages,
                stage,
                state,
                content: content.to_owned(),
                detail: detail.to_owned(),
                accepted_count: self.accepted_count,
                stages: None,
                merged_sections: sections,
                merged_summary: merged_summary.to_owned(),
            },
        )
    }
}

/// What is said of a compaction with more stages than can be counted.
pub const TOO_MANY_STAGES: &'static str = "out of range integral type conversion attempted";

/// The stages of a plan, if each has a name.
pub open spec fn named_stages(plan: Seq<StagePlan>) -> Option<Seq<CompactStage>> {
    if forall|i: int| 0 <= i < plan.len() ==> (#[trigger] plan[i]).stage is Some {
        Some(Seq::new(plan.len(), |i: int| plan[i].stage->Some_0))
    } else {
        None
    }
}

fn names(plan: &Vec<StagePlan>) -> (stages: Option<Vec<CompactStage>>)
    ensures
        match stages {
            Some(list) => named_stages(plan@) == Some(list@),
            None => named_stages(plan@) is None,
        },
{
    let mut list: Vec<CompactStage> = Vec::new();
    let mut place: usize = 0;
    while place < plan.len()
        invariant
            place <= plan@.len(),
            list@.len() == place,
            forall|i: int|
                0 <= i < place ==> (#[trigger] plan@[i]).stage == Some(list@[i]),
        decreases plan@.len() - place,
    {
        match plan[place].stage {
            Some(stage) => {
                list.push(stage);
            },
            None => {
                assert(plan@[place as int].stage is None);
                return None;
            },
        }
        place += 1;
    }
    assert(list@ =~= Seq::new(plan@.len(), |i: int| plan@[i].stage->Some_0));
    Some(list)
}

/// Whether an event begins the compaction.
pub open spec fn begins(body: EventBody, run: &CompactRun) -> bool {
    &&& note_of(body) == run_note(run, None, CompactState::Started, ""@, ""@)
    &&& body matches EventBody::CompactStateUpdate(update)
    &&& update.accepted_count == run.accepted_count
    &&& match (update.stages, named_stages(run.plan@)) {
        (Some(stages), Some(named)) => stages@ == named,
        (None, None) => true,
        _ => false,
    }
}

/// Begins a compaction that the tool call asked for. `accepted_count` says whether the kind allows
/// that many stages.
pub fn begin_compact(
    edb: &mut EventDataBase,
    tool_call_id: EventId,
    prompt_id: EventId,
    kind: CompactKind,
    plan: Vec<StagePlan>,
    accepted_count: bool,
) -> (result: Result<CompactRun, String>)
    requires
        old(edb).wf(),
    ensures
        final(edb).wf(),
        match result {
            Ok(run) => {
                &&& plan@.len() <= 255 && old(edb).room(1)
                &&& run.compact_id == old(edb).next_id
                &&& run.tool_call_id == tool_call_id
                &&& run.prompt_id == prompt_id
                &&& run.kind == kind
                &&& run.total_stages == plan@.len()
                &&& run.accepted_count == accepted_count
                &&& run.plan == plan
                &&& run.contents@ == Seq::<String>::empty()
                &&& run.wf()
                &&& final(edb).grown(old(edb), 1)
                &&& begins(final(edb).added(old(edb), 0), &run)
            },
            Err(error) => *final(edb) == *old(edb) && if plan@.len() > 255 {
                error@ == TOO_MANY_STAGES@
            } else {
                !old(edb).room(1) && error@ == NO_IDENTITIES@
            },
        },
{
    if plan.len() > 255 {
        return Err(TOO_MANY_STAGES.to_owned());
    }
    if !crate::notes::has_room(edb, 1) {
        return Err(NO_IDENTITIES.to_owned());
    }
    let total_stages: u8 = plan.len() as u8;
    let stages = names(&plan);
    let run = CompactRun {
        compact_id: edb.next_id,
        tool_call_id,
        prompt_id,
        kind,
        total_stages,
        accepted_count,
        plan,
        contents: Vec::new(),
    };
    let body = CompactStateUpdate {
        compact_id: run.compact_id,
        tool_call_id,
        prompt_id,
        kind,
        total_stages,
        stage: None,
        state: CompactState::Started,
        content: "".to_owned(),
        detail: "".to_owned(),
        accepted_count,
        stages,
        merged_sections: no_sections(),
        merged_summary: "".to_owned(),
    };
    edb.append(EventBody::CompactStateUpdate(body));
    Ok(run)
}

/// What the model is told of the stages that are done: what it was asked, and what it answered.
pub open spec fn told(run: &CompactRun, count: int) -> Seq<JsonView>
    decreases count,
{
    if count <= 0 {
        Seq::empty()
    } else {
        told(run, count - 1).push(
            role_message("user"@, injection("compact"@, run.plan@[count - 1].prompt->Some_0@)),
        ).push(role_message("assistant"@, run.contents@[count - 1]@))
    }
}

/// What the model is asked at the next stage: the conversation without tools, the stages that are
/// done, and the next one.
pub open spec fn stage_asked(said: Seq<JsonView>, run: &CompactRun) -> Option<Seq<JsonView>> {
    match run.plan@[run.contents@.len() as int].prompt {
        Some(prompt) => Some(
            (said + told(run, run.contents@.len() as int)).push(
                role_message("user"@, injection("compact"@, prompt@)),
            ),
        ),
        None => None,
    }
}

/// The context of the next stage, from the context of the conversation. There is none where the
/// kind has nothing to ask at the stage.
pub fn stage_context(conversation: ModelContext, run: &CompactRun) -> (context: Option<ModelContext>)
    requires
        run.wf(),
        run.contents@.len() < run.plan@.len(),
    ensures
        match context {
            Some(asked) => stage_asked(conversation.said(), run) == Some(asked.said())
                && asked.offered() == Seq::<JsonView>::empty(),
            None => stage_asked(conversation.said(), run) is None,
        },
{
    let prompt = match &run.plan[run.contents.len()].prompt {
        Some(prompt) => prompt,
        None => return None,
    };
    let mut context = conversation;
    let ghost said = context.said();
    context.tools = Vec::new();
    assert(context.offered() =~= Seq::<JsonView>::empty());
    assert(context.said() =~= said + told(run, 0));
    let mut place: usize = 0;
    while place < run.contents.len()
        invariant
            place <= run.contents@.len(),
            run.wf(),
            context.said() == said + told(run, place as int),
            context.offered() == Seq::<JsonView>::empty(),
        decreases run.contents@.len() - place,
    {
        assert(run.plan@[place as int].prompt is Some);
        if let Some(earlier) = &run.plan[place].prompt {
            context.push(
                "user",
                system_prompt_injection_envelope("compact", earlier.as_str()).as_str(),
            );
            context.push("assistant", run.contents[place].as_str());
        }
        assert(context.said() =~= said + told(run, place + 1));
        place += 1;
    }
    context.push("user", system_prompt_injection_envelope("compact", prompt.as_str()).as_str());
    Some(context)
}

/// What came of asking for a stage.
#[derive(Debug)]
pub enum StageOutcome {
    Completed(String),
    Failed(String),
    Aborted,
}

/// What is next in a compaction: another stage, the summary of the stages, or nothing.
#[derive(Clone, Copy, Debug, PartialEq, Eq, Structural)]
pub enum CompactStep {
    NextStage,
    Merge,
    Completed,
    Failed,
    Aborted,
}

/// What is next at the outset, and after a stage.
pub open spec fn step_ahead(run: &CompactRun) -> CompactStep {
    if run.contents@.len() < run.plan@.len() {
        CompactStep::NextStage
    } else {
        CompactStep::Merge
    }
}

/// What is next in a compaction that has not ended.
pub fn next_step(run: &CompactRun) -> (step: CompactStep)
    ensures
        step == step_ahead(run),
{
    if run.contents.len() < run.plan.len() {
        CompactStep::NextStage
    } else {
        CompactStep::Merge
    }
}

/// What is written once the model was asked for the next stage.
pub open spec fn stage_note(run: &CompactRun, outcome: StageOutcome) -> Note {
    match outcome {
        StageOutcome::Failed(error) => run_note(run, None, CompactState::Failed, ""@, error@),
        StageOutcome::Aborted => run_note(
            run,
            None,
            CompactState::Interrupted,
            ""@,
            ABORT_DETAIL@,
        ),
        StageOutcome::Completed(content) => match run.plan@[run.contents@.len() as int].stage {
            Some(stage) => run_note(
                run,
                Some(stage),
                CompactState::StageCompleted,
                content@,
                ""@,
            ),
            None => run_note(run, None, CompactState::Completed, content@, ""@),
        },
    }
}

/// Writes down what came of the next stage. The answer of a compaction without stages comes as the
/// summary that it gives.
pub fn end_stage(run: &mut CompactRun, edb: &mut EventDataBase, outcome: StageOutcome) -> (result:
    Result<CompactStep, String>)
    requires
        old(edb).wf(),
        old(run).wf(),
        old(run).contents@.len() < old(run).plan@.len(),
        outcome is Completed ==> old(run).plan@[old(run).contents@.len() as int].prompt is Some,
    ensures
        final(edb).wf(),
        final(run).wf(),
        final(run).goes_on(old(run)),
        if old(edb).room(1) {
            &&& final(edb).grown(old(edb), 1)
            &&& step_of(
                final(edb).added(old(edb), 0),
                old(run),
                stage_note(old(run), outcome),
                not_merged(),
            )
            &&& match (outcome, old(run).plan@[old(run).contents@.len() as int].stage) {
                (StageOutcome::Completed(content), Some(_)) => {
                    &&& final(run).contents@ == old(run).contents@.push(content)
                    &&& result == Ok::<CompactStep, String>(step_ahead(final(run)))
                },
                (StageOutcome::Completed(_), None) => *final(run) == *old(run) && result == Ok::<
                    CompactStep,
                    String,
                >(CompactStep::Completed),
                (StageOutcome::Failed(_), _) => *final(run) == *old(run) && result == Ok::<
                    CompactStep,
                    String,
                >(CompactStep::Failed),
                (StageOutcome::Aborted, _) => *final(run) == *old(run) && result == Ok::<
                    CompactStep,
                    String,
                >(CompactStep::Aborted),
            }
        } else {
            *final(edb) == *old(edb) && *final(run) == *old(run) && match result {
                Ok(_) => false,
                Err(error) => error@ == NO_IDENTITIES@,
            }
        },
{
    if !crate::notes::has_room(edb, 1) {
        return Err(NO_IDENTITIES.to_owned());
    }
    let stage = run.plan[run.contents.len()].stage;
    match outcome {
        StageOutcome::Failed(error) => {
            edb.append(
                run.step(None, CompactState::Failed, "", error.as_str(), no_sections(), ""),
            );
            Ok(CompactStep::Failed)
        },
        StageOutcome::Aborted => {
            edb.append(
                run.step(None, CompactState::Interrupted, "", ABORT_DETAIL, no_sections(), ""),
            );
            Ok(CompactStep::Aborted)
        },
        StageOutcome::Completed(content) => match stage {
            Some(name) => {
                edb.append(
                    run.step(
                        Some(name),
                        CompactState::StageCompleted,
                        content.as_str(),
                        "",
                        no_sections(),
                        "",
                    ),
                );
                run.contents.push(content);
                Ok(next_step(run))
            },
            None => {
                edb.append(
                    run.step(
                        None,
                        CompactState::Completed,
                        content.as_str(),
                        "",
                        no_sections(),
                        "",
                    ),
                );
                Ok(CompactStep::Completed)
            },
        },
    }
}

/// Ends a compaction whose stages are done with the summary that their sections give, which are
/// those of [`summary_sections`].
pub fn finish_compact(run: &CompactRun, edb: &mut EventDataBase, summary: &str) -> (result: Result<
    (),
    String,
>)
    requires
        old(edb).wf(),
    ensures
        final(edb).wf(),
        if old(edb).room(1) {
            &&& result is Ok
            &&& final(edb).grown(old(edb), 1)
            &&& step_of(
                final(edb).added(old(edb), 0),
                run,
                run_note(run, None, CompactState::Completed, summary@, ""@),
                (run_sections(run), summary@),
            )
        } else {
            *final(edb) == *old(edb) && match result {
                Ok(_) => false,
                Err(error) => error@ == NO_IDENTITIES@,
            }
        },
{
    if !crate::notes::has_room(edb, 1) {
        return Err(NO_IDENTITIES.to_owned());
    }
    let sections = summary_sections(run);
    edb.append(run.step(None, CompactState::Completed, summary, "", sections, summary));
    Ok(())
}

/// The answers of which the summary of a compaction is made: all but the first, which is the
/// model's own analysis.
pub fn summary_sections(run: &CompactRun) -> (sections: Vec<String>)
    ensures
        views(sections@) == run_sections(run),
{
    let mut sections: Vec<String> = Vec::new();
    if run.contents.len() == 0 {
        assert(views(sections@) =~= Seq::<Seq<char>>::empty());
        return sections;
    }
    let mut place: usize = 1;
    while place < run.contents.len()
        invariant
            1 <= place <= run.contents@.len(),
            sections@ == run.contents@.subrange(1, place as int),
        decreases run.contents@.len() - place,
    {
        sections.push(run.contents[place].clone());
        assert(run.contents@.subrange(1, place + 1) =~= run.contents@.subrange(
            1,
            place as int,
        ).push(run.contents@[place as int]));
        place += 1;
    }
    assert(run.contents@.subrange(1, place as int) =~= run.contents@.skip(1));
    sections
}

} // verus!
