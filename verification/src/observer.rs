//! What the tools of an agent keep running.
use vstd::prelude::*;

use crate::event::Computed;

verus! {

/// A terminal session that is alive.
#[derive(Debug)]
pub struct LiveTerminal {
    pub session_id: String,
    pub width: u16,
    pub height: u16,
}

/// A page of the web browser that is open.
#[derive(Debug)]
pub struct OpenPage {
    pub page_id: String,
    pub state: String,
    pub title: String,
    pub url: String,
}

/// What the tools of an agent keep running, as far as it can be looked at.
#[derive(Debug)]
pub struct ToolboxObserver {
    pub terminals: Computed<Vec<LiveTerminal>>,
    pub pages: Computed<Vec<OpenPage>>,
}

/// How many terminal sessions are alive, or why that cannot be said. Without an observer there are
/// none.
pub open spec fn live_terminals(observer: Option<&ToolboxObserver>) -> Result<nat, Seq<char>> {
    match observer {
        None => Ok(0),
        Some(tools) => match tools.terminals {
            Computed::Value(sessions) => Ok(sessions@.len()),
            Computed::Failure(error) => Err(error@),
        },
    }
}

impl ToolboxObserver {
    /// Of tools that keep nothing running.
    pub fn empty() -> (observer: ToolboxObserver)
        ensures
            live_terminals(Some(&observer)) == Ok::<nat, Seq<char>>(0),
            match observer.pages {
                Computed::Value(open) => open@.len() == 0,
                Computed::Failure(_) => false,
            },
    {
        ToolboxObserver {
            terminals: Computed::Value(Vec::new()),
            pages: Computed::Value(Vec::new()),
        }
    }

    /// How many terminal sessions are alive.
    pub fn active_count(&self) -> (count: Result<usize, String>)
        ensures
            match (count, live_terminals(Some(self))) {
                (Ok(alive), Ok(expected)) => alive == expected,
                (Err(error), Err(text)) => error@ == text,
                _ => false,
            },
    {
        match &self.terminals {
            Computed::Value(sessions) => Ok(sessions.len()),
            Computed::Failure(error) => Err(error.clone()),
        }
    }
}

} // verus!
