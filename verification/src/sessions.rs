//! The rules of terminal sessions: a running call of the tool for it creates a session, and a
//! session ends once.
use vstd::prelude::*;

use crate::event::{
    ApiState, Event, EventBody, EventDataBase, EventId, TerminalSessionCreated,
    TerminalSessionState, TerminalSessionUpdate,
};
use crate::text::{blank, decimal, is_blank, join3, push_decimal, same, say1, say2};
use crate::tool_calls::{api_call_ended_before, api_ended_before, find_tool_call, tool_call_with};

verus! {

/// The tool that creates a terminal session.
pub const TERMINAL_CREATE_TOOL: &'static str = "Terminal.Create";

/// A terminal session and how it stands.
#[derive(Debug)]
pub struct TerminalSessionProjection {
    pub session_id: String,
    pub state: TerminalSessionState,
    pub exit_code: Option<i32>,
}

/// A terminal session and how it stands, as a value.
pub struct SessionView {
    pub session_id: Seq<char>,
    pub state: TerminalSessionState,
    pub exit_code: Option<i32>,
}

impl View for TerminalSessionProjection {
    type V = SessionView;

    open spec fn view(&self) -> SessionView {
        SessionView {
            session_id: self.session_id@,
            state: self.state,
            exit_code: self.exit_code,
        }
    }
}

/// The sessions as values.
pub open spec fn session_views(sessions: Seq<TerminalSessionProjection>) -> Seq<SessionView> {
    sessions.map_values(|session: TerminalSessionProjection| session@)
}

/// A rule of terminal sessions that an event breaks.
#[derive(Debug)]
pub enum SessionHistoryError {
    UnknownCall { session: String, tool_call: EventId },
    WrongTool { session: String, tool: String },
    InvalidFields { event: EventId },
    ApiNotEnded { event: EventId, api_call: EventId },
    AfterResult { session: String },
    Duplicate { session: String },
    UnknownSession { event: EventId, session: String },
    RepeatsRunning { event: EventId },
    AfterEnd { session: String, state: TerminalSessionState },
}

impl SessionHistoryError {
    /// What is said of a history that breaks the rule.
    pub open spec fn text(&self) -> Seq<char> {
        match *self {
            SessionHistoryError::UnknownCall { session, tool_call } => ("terminal session "@
                + session@ + " references unknown tool call "@) + decimal(tool_call as nat),
            SessionHistoryError::WrongTool { session, tool } => ("terminal session "@ + session@
                + " was created by "@) + tool@ + ""@,
            SessionHistoryError::InvalidFields { event } => "terminal session creation event "@
                + decimal(event as nat) + " has invalid fields"@,
            SessionHistoryError::ApiNotEnded { event, api_call } => "tool execution event "@
                + decimal(event as nat) + " appears before API call "@ + decimal(api_call as nat)
                + " reached the required terminal state"@,
            SessionHistoryError::AfterResult { session } => "terminal session "@ + session@
                + " was recorded after its Create result"@,
            SessionHistoryError::Duplicate { session } => "duplicate terminal session "@ + session@
                + ""@,
            SessionHistoryError::UnknownSession { event, session } => ("terminal state "@ + decimal(
                event as nat,
            ) + " references unknown session "@) + session@ + ""@,
            SessionHistoryError::RepeatsRunning { event } => "terminal state "@ + decimal(
                event as nat,
            ) + " repeats the implicit running state"@,
            SessionHistoryError::AfterEnd { session, state } => ("terminal session "@ + session@
                + " has state after terminal state "@) + state.name() + ""@,
        }
    }

    /// What is said of a history that breaks the rule.
    pub fn message(&self) -> (text: String)
        ensures
            text@ == self.text(),
    {
        match self {
            SessionHistoryError::UnknownCall { session, tool_call } => {
                let mut text = join3(
                    "terminal session ",
                    session.as_str(),
                    " references unknown tool call ",
                );
                push_decimal(&mut text, *tool_call);
                text
            },
            SessionHistoryError::WrongTool { session, tool } => join3(
                join3("terminal session ", session.as_str(), " was created by ").as_str(),
                tool.as_str(),
                "",
            ),
            SessionHistoryError::InvalidFields { event } => say1(
                "terminal session creation event ",
                *event,
                " has invalid fields",
            ),
            SessionHistoryError::ApiNotEnded { event, api_call } => say2(
                "tool execution event ",
                *event,
                " appears before API call ",
                *api_call,
                " reached the required terminal state",
            ),
            SessionHistoryError::AfterResult { session } => join3(
                "terminal session ",
                session.as_str(),
                " was recorded after its Create result",
            ),
            SessionHistoryError::Duplicate { session } => join3(
                "duplicate terminal session ",
                session.as_str(),
                "",
            ),
            SessionHistoryError::UnknownSession { event, session } => join3(
                say1("terminal state ", *event, " references unknown session ").as_str(),
                session.as_str(),
                "",
            ),
            SessionHistoryError::RepeatsRunning { event } => say1(
                "terminal state ",
                *event,
                " repeats the implicit running state",
            ),
            SessionHistoryError::AfterEnd { session, state } => join3(
                join3("terminal session ", session.as_str(), " has state after terminal state ").as_str(),
                state.label(),
                "",
            ),
        }
    }
}

/// The place of the session among the sessions.
pub open spec fn session_place(sessions: Seq<SessionView>, session_id: Seq<char>) -> Option<int>
    decreases sessions.len(),
{
    if sessions.len() == 0 {
        None
    } else {
        match session_place(sessions.drop_last(), session_id) {
            Some(place) => Some(place),
            None => if sessions.last().session_id == session_id {
                Some(sessions.len() - 1)
            } else {
                None
            },
        }
    }
}

proof fn lemma_session_place(sessions: Seq<SessionView>, session_id: Seq<char>, place: int)
    requires
        0 <= place <= sessions.len(),
        forall|i: int| 0 <= i < place ==> (#[trigger] sessions[i]).session_id != session_id,
        place < sessions.len() ==> sessions[place].session_id == session_id,
    ensures
        session_place(sessions, session_id) == (if place < sessions.len() {
            Some(place)
        } else {
            None
        }),
    decreases sessions.len(),
{
    if sessions.len() > 0 {
        let front = sessions.drop_last();
        assert forall|i: int| 0 <= i < front.len() implies front[i] == sessions[i] by {}
        if place < sessions.len() {
            lemma_session_place(front, session_id, place);
        } else {
            assert(sessions[sessions.len() - 1].session_id != session_id);
            lemma_session_place(front, session_id, front.len() as int);
        }
    }
}

fn find_session(sessions: &Vec<TerminalSessionProjection>, session_id: &String) -> (place: Option<
    usize,
>)
    ensures
        place matches Some(found) ==> found < sessions@.len() && session_place(
            session_views(sessions@),
            session_id@,
        ) == Some(found as int),
        place is None ==> session_place(session_views(sessions@), session_id@) is None,
{
    let mut place: usize = 0;
    while place < sessions.len()
        invariant
            place <= sessions.len(),
            forall|i: int|
                0 <= i < place ==> (#[trigger] session_views(sessions@)[i]).session_id
                    != session_id@,
        decreases sessions.len() - place,
    {
        if sessions[place].session_id == *session_id {
            proof {
                lemma_session_place(session_views(sessions@), session_id@, place as int);
            }
            return Some(place);
        }
        place += 1;
    }
    proof {
        lemma_session_place(session_views(sessions@), session_id@, place as int);
    }
    None
}

/// Whether the event is a result of the tool call, before another event.
pub open spec fn closes_before(event: Event, tool_call: EventId, before: EventId) -> bool {
    &&& event.id < before
    &&& event.body matches EventBody::ToolCallResult(result)
    &&& result.tool_call_id == tool_call
}

/// Whether the tool call has a result before the event.
pub open spec fn closed_before(events: Seq<Event>, tool_call: EventId, before: EventId) -> bool {
    exists|i: int| 0 <= i < events.len() && closes_before(#[trigger] events[i], tool_call, before)
}

fn is_closed_before(events: &Vec<Event>, tool_call: EventId, before: EventId) -> (closed: bool)
    ensures
        closed == closed_before(events@, tool_call, before),
{
    let mut place: usize = 0;
    while place < events.len()
        invariant
            place <= events.len(),
            forall|i: int|
                0 <= i < place ==> !closes_before(#[trigger] events@[i], tool_call, before),
        decreases events.len() - place,
    {
        let event = &events[place];
        if let EventBody::ToolCallResult(result) = &event.body {
            if event.id < before && result.tool_call_id == tool_call {
                assert(closes_before(events@[place as int], tool_call, before));
                return true;
            }
        }
        place += 1;
    }
    false
}

/// The identity of the session that a tool call creates.
pub open spec fn session_name(tool_call: EventId) -> Seq<char> {
    "pty-"@ + decimal(tool_call as nat) + ""@
}

/// A running call of the tool for it creates the session that is named after the call.
pub open spec fn created_step(
    events: Seq<Event>,
    sessions: Seq<SessionView>,
    id: EventId,
    created: TerminalSessionCreated,
) -> Result<Seq<SessionView>, SessionHistoryError> {
    match tool_call_with(events, created.tool_call_id) {
        None => Err(
            SessionHistoryError::UnknownCall {
                session: created.session_id,
                tool_call: created.tool_call_id,
            },
        ),
        Some(call) => if call.name@ != TERMINAL_CREATE_TOOL@ {
            Err(SessionHistoryError::WrongTool { session: created.session_id, tool: call.name })
        } else if created.session_id@ != session_name(created.tool_call_id) || is_blank(
            created.shell@,
        ) || is_blank(created.cwd@) || created.width == 0 || created.height == 0 {
            Err(SessionHistoryError::InvalidFields { event: id })
        } else if !api_ended_before(events, call.api_call_id, id, Some(ApiState::Completed)) {
            Err(SessionHistoryError::ApiNotEnded { event: id, api_call: call.api_call_id })
        } else if closed_before(events, created.tool_call_id, id) {
            Err(SessionHistoryError::AfterResult { session: created.session_id })
        } else if session_place(sessions, created.session_id@) is Some {
            Err(SessionHistoryError::Duplicate { session: created.session_id })
        } else {
            Ok(
                sessions.push(
                    SessionView {
                        session_id: created.session_id@,
                        state: TerminalSessionState::Running,
                        exit_code: None,
                    },
                ),
            )
        },
    }
}

fn record_created(
    events: &Vec<Event>,
    sessions: &mut Vec<TerminalSessionProjection>,
    id: EventId,
    created: &TerminalSessionCreated,
) -> (result: Result<(), SessionHistoryError>)
    ensures
        match result {
            Ok(_) => created_step(events@, session_views(old(sessions)@), id, *created) == Ok::<
                _,
                SessionHistoryError,
            >(session_views(final(sessions)@)),
            Err(error) => created_step(events@, session_views(old(sessions)@), id, *created)
                == Err::<Seq<SessionView>, _>(error),
        },
{
    match find_tool_call(events, created.tool_call_id) {
        None => Err(
            SessionHistoryError::UnknownCall {
                session: created.session_id.clone(),
                tool_call: created.tool_call_id,
            },
        ),
        Some(call) => {
            if !same(call.name.as_str(), TERMINAL_CREATE_TOOL) {
                return Err(
                    SessionHistoryError::WrongTool {
                        session: created.session_id.clone(),
                        tool: call.name.clone(),
                    },
                );
            }
            let name = say1("pty-", created.tool_call_id, "");
            if created.session_id != name || blank(created.shell.as_str()) || blank(
                created.cwd.as_str(),
            ) || created.width == 0 || created.height == 0 {
                return Err(SessionHistoryError::InvalidFields { event: id });
            }
            let api_call = call.api_call_id;
            if !api_call_ended_before(events, api_call, id, Some(ApiState::Completed)) {
                return Err(SessionHistoryError::ApiNotEnded { event: id, api_call });
            }
            if is_closed_before(events, created.tool_call_id, id) {
                return Err(
                    SessionHistoryError::AfterResult { session: created.session_id.clone() },
                );
            }
            if find_session(sessions, &created.session_id).is_some() {
                return Err(SessionHistoryError::Duplicate { session: created.session_id.clone() });
            }
            let session = TerminalSessionProjection {
                session_id: created.session_id.clone(),
                state: TerminalSessionState::Running,
                exit_code: None,
            };
            assert(session_views(sessions@.push(session)) =~= session_views(sessions@).push(
                session@,
            ));
            sessions.push(session);
            Ok(())
        },
    }
}

/// A session ends once.
pub open spec fn update_step(
    sessions: Seq<SessionView>,
    id: EventId,
    update: TerminalSessionUpdate,
) -> Result<Seq<SessionView>, SessionHistoryError> {
    match session_place(sessions, update.session_id@) {
        None => Err(
            SessionHistoryError::UnknownSession { event: id, session: update.session_id },
        ),
        Some(place) => if update.state == TerminalSessionState::Running {
            Err(SessionHistoryError::RepeatsRunning { event: id })
        } else if sessions[place].state.terminal() {
            Err(
                SessionHistoryError::AfterEnd {
                    session: update.session_id,
                    state: sessions[place].state,
                },
            )
        } else {
            Ok(
                sessions.update(
                    place,
                    SessionView {
                        state: update.state,
                        exit_code: update.exit_code,
                        ..sessions[place]
                    },
                ),
            )
        },
    }
}

fn record_update(
    sessions: &mut Vec<TerminalSessionProjection>,
    id: EventId,
    update: &TerminalSessionUpdate,
) -> (result: Result<(), SessionHistoryError>)
    ensures
        match result {
            Ok(_) => update_step(session_views(old(sessions)@), id, *update) == Ok::<
                _,
                SessionHistoryError,
            >(session_views(final(sessions)@)),
            Err(error) => update_step(session_views(old(sessions)@), id, *update) == Err::<
                Seq<SessionView>,
                _,
            >(error),
        },
{
    match find_session(sessions, &update.session_id) {
        None => Err(
            SessionHistoryError::UnknownSession { event: id, session: update.session_id.clone() },
        ),
        Some(place) => {
            if update.state == TerminalSessionState::Running {
                return Err(SessionHistoryError::RepeatsRunning { event: id });
            }
            if sessions[place].state.is_terminal() {
                return Err(
                    SessionHistoryError::AfterEnd {
                        session: update.session_id.clone(),
                        state: sessions[place].state,
                    },
                );
            }
            let session = TerminalSessionProjection {
                session_id: sessions[place].session_id.clone(),
                state: update.state,
                exit_code: update.exit_code,
            };
            assert(session_views(sessions@.update(place as int, session)) =~= session_views(
                sessions@,
            ).update(place as int, session@));
            sessions.set(place, session);
            Ok(())
        },
    }
}

/// What an event does to the sessions before it, or the rule that it breaks.
pub open spec fn session_step(
    events: Seq<Event>,
    sessions: Seq<SessionView>,
    event: Event,
) -> Result<Seq<SessionView>, SessionHistoryError> {
    match event.body {
        EventBody::TerminalSessionCreated(created) => created_step(
            events,
            sessions,
            event.id,
            created,
        ),
        EventBody::TerminalSessionState(update) => update_step(sessions, event.id, update),
        _ => Ok(sessions),
    }
}

/// The sessions of the first events, or the first rule that one of them breaks.
pub open spec fn session_histories(events: Seq<Event>, count: int) -> Result<
    Seq<SessionView>,
    SessionHistoryError,
>
    decreases count,
{
    if count <= 0 {
        Ok(Seq::empty())
    } else {
        match session_histories(events, count - 1) {
            Ok(sessions) => session_step(events, sessions, events[count - 1]),
            Err(error) => Err(error),
        }
    }
}

proof fn lemma_session_error_stays(events: Seq<Event>, early: int, late: int)
    requires
        0 <= early <= late,
        session_histories(events, early) is Err,
    ensures
        session_histories(events, late) == session_histories(events, early),
    decreases late,
{
    if early < late {
        lemma_session_error_stays(events, early, late - 1);
    }
}

/// The terminal sessions of the history in the order of their creation, or the first rule of
/// terminal sessions that it breaks.
pub fn terminal_session_states(edb: &EventDataBase) -> (result: Result<
    Vec<TerminalSessionProjection>,
    SessionHistoryError,
>)
    ensures
        match result {
            Ok(sessions) => session_histories(edb@, edb@.len() as int) == Ok::<
                _,
                SessionHistoryError,
            >(session_views(sessions@)),
            Err(error) => session_histories(edb@, edb@.len() as int) == Err::<Seq<SessionView>, _>(
                error,
            ),
        },
{
    let mut sessions: Vec<TerminalSessionProjection> = Vec::new();
    assert(session_views(sessions@) =~= Seq::<SessionView>::empty());
    let mut place: usize = 0;
    while place < edb.events.len()
        invariant
            place <= edb@.len(),
            session_histories(edb@, place as int) == Ok::<_, SessionHistoryError>(
                session_views(sessions@),
            ),
        decreases edb@.len() - place,
    {
        let event = &edb.events[place];
        let result = match &event.body {
            EventBody::TerminalSessionCreated(created) => record_created(
                &edb.events,
                &mut sessions,
                event.id,
                created,
            ),
            EventBody::TerminalSessionState(update) => record_update(
                &mut sessions,
                event.id,
                update,
            ),
            _ => Ok(()),
        };
        if let Err(error) = result {
            proof {
                lemma_session_error_stays(edb@, place + 1, edb@.len() as int);
            }
            return Err(error);
        }
        place += 1;
    }
    Ok(sessions)
}

proof fn lemma_session_found(sessions: Seq<SessionView>, session_id: Seq<char>)
    ensures
        session_place(sessions, session_id) matches Some(place) ==> 0 <= place < sessions.len()
            && sessions[place].session_id == session_id,
        session_place(sessions, session_id) is None ==> forall|i: int|
            0 <= i < sessions.len() ==> (#[trigger] sessions[i]).session_id != session_id,
    decreases sessions.len(),
{
    if sessions.len() > 0 {
        let front = sessions.drop_last();
        lemma_session_found(front, session_id);
        assert forall|i: int| 0 <= i < front.len() implies front[i] == sessions[i] by {}
        if session_place(front, session_id) is None {
            assert forall|i: int|
                0 <= i < sessions.len() && sessions.last().session_id != session_id implies (
            #[trigger] sessions[i]).session_id != session_id by {
                if i < front.len() {
                    assert(front[i].session_id != session_id);
                }
            }
        }
    }
}

/// In a history that keeps the rules, no two sessions have the same identity.
pub proof fn law_sessions_are_distinct(events: Seq<Event>, count: int)
    requires
        session_histories(events, count) is Ok,
    ensures
        ({
            let sessions = session_histories(events, count)->Ok_0;
            forall|i: int, j: int|
                0 <= i < j < sessions.len() ==> (#[trigger] sessions[i]).session_id != (
                #[trigger] sessions[j]).session_id
        }),
    decreases count,
{
    if count > 0 {
        law_sessions_are_distinct(events, count - 1);
        let before = session_histories(events, count - 1)->Ok_0;
        match events[count - 1].body {
            EventBody::TerminalSessionCreated(created) => {
                lemma_session_found(before, created.session_id@);
            },
            EventBody::TerminalSessionState(update) => {
                lemma_session_found(before, update.session_id@);
            },
            _ => {},
        }
    }
}

} // verus!
