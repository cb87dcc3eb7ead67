//! What is asked of an agent while it works, and how busy its model is.
use vstd::prelude::*;

use crate::event::{EventId, NO_ABORT_TARGET};

verus! {

/// Something that is asked of an agent.
#[derive(Clone, Debug, PartialEq, Eq)]
pub enum OrchestratorInput {
    UserPrompt(String),
    ManagerPrompt(String),
    ParentAgentPrompt(String),
    ChangeModel(String),
    ChangeEffort(String),
    ClearContext,
    RewindContext(EventId),
    AbortTurn(EventId),
}

/// What is asked of an agent, in the order in which it came, and the turn that is to be aborted.
#[derive(Debug)]
pub struct OrchestratorInputQueue {
    pub pending: Vec<OrchestratorInput>,
    pub abort_target: EventId,
}

impl Default for OrchestratorInputQueue {
    fn default() -> (queue: OrchestratorInputQueue)
        ensures
            queue.pending@ == Seq::<OrchestratorInput>::empty(),
            queue.abort_target == NO_ABORT_TARGET,
    {
        OrchestratorInputQueue { pending: Vec::new(), abort_target: NO_ABORT_TARGET }
    }
}

impl OrchestratorInputQueue {
    /// Whether nothing is asked.
    pub fn is_empty(&self) -> (empty: bool)
        ensures
            empty == (self.pending@.len() == 0),
    {
        self.pending.len() == 0
    }

    /// Asks for something behind all that was asked before.
    pub fn push(&mut self, input: OrchestratorInput)
        ensures
            final(self).pending@ == old(self).pending@.push(input),
            final(self).abort_target == old(self).abort_target,
    {
        self.pending.push(input);
    }

    /// Takes what was asked first.
    pub fn pop(&mut self) -> (input: Option<OrchestratorInput>)
        ensures
            final(self).abort_target == old(self).abort_target,
            if old(self).pending@.len() == 0 {
                input is None && final(self).pending@ == old(self).pending@
            } else {
                input == Some(old(self).pending@[0]) && final(self).pending@
                    == old(self).pending@.skip(1)
            },
    {
        if self.pending.len() == 0 {
            None
        } else {
            let input = self.pending.remove(0);
            assert(self.pending@ =~= old(self).pending@.skip(1));
            Some(input)
        }
    }

    /// Whether a prompt of the user waits.
    pub fn has_pending_user_prompt(&self) -> (found: bool)
        ensures
            found == exists|i: int|
                0 <= i < self.pending@.len() && (#[trigger] self.pending@[i]) is UserPrompt,
    {
        let mut place: usize = 0;
        while place < self.pending.len()
            invariant
                place <= self.pending@.len(),
                forall|i: int| 0 <= i < place ==> !((#[trigger] self.pending@[i]) is UserPrompt),
            decreases self.pending@.len() - place,
        {
            if let OrchestratorInput::UserPrompt(_) = &self.pending[place] {
                assert(self.pending@[place as int] is UserPrompt);
                return true;
            }
            place += 1;
        }
        false
    }

    /// Asks for the end of a turn: behind all that was asked before, and at once.
    pub fn request_abort(&mut self, prompt_id: EventId)
        ensures
            final(self).pending@ == old(self).pending@.push(
                OrchestratorInput::AbortTurn(prompt_id),
            ),
            final(self).abort_target == prompt_id,
    {
        self.push(OrchestratorInput::AbortTurn(prompt_id));
        self.abort_target = prompt_id;
    }

    /// Whether the end of the turn is asked for at once. It is not asked for twice.
    pub fn consume_abort_signal(&mut self, prompt_id: EventId) -> (asked: bool)
        ensures
            asked == (old(self).abort_target == prompt_id),
            final(self).pending == old(self).pending,
            final(self).abort_target == (if asked {
                NO_ABORT_TARGET
            } else {
                old(self).abort_target
            }),
    {
        if self.abort_target == prompt_id {
            self.abort_target = NO_ABORT_TARGET;
            true
        } else {
            false
        }
    }

    /// Whether the end of the turn is asked for at once.
    pub fn abort_requested(&self, prompt_id: EventId) -> (asked: bool)
        ensures
            asked == (self.abort_target == prompt_id),
    {
        self.abort_target == prompt_id
    }

    /// No longer asks for the end of the turn at once.
    pub fn clear_abort_signal(&mut self, prompt_id: EventId)
        ensures
            final(self).pending == old(self).pending,
            final(self).abort_target == (if old(self).abort_target == prompt_id {
                NO_ABORT_TARGET
            } else {
                old(self).abort_target
            }),
    {
        if self.abort_target == prompt_id {
            self.abort_target = NO_ABORT_TARGET;
        }
    }

    /// Nothing is asked any more.
    pub fn clear(&mut self)
        ensures
            final(self).pending@ == Seq::<OrchestratorInput>::empty(),
            final(self).abort_target == NO_ABORT_TARGET,
    {
        self.pending.clear();
        self.abort_target = NO_ABORT_TARGET;
    }
}

/// What is left of a queue after it was taken from, one by one.
pub open spec fn popped(pending: Seq<OrchestratorInput>, times: nat) -> Seq<OrchestratorInput>
    decreases times,
{
    if times == 0 {
        pending
    } else {
        popped(pending.skip(1), (times - 1) as nat)
    }
}

/// What was asked comes out in the order in which it was asked: behind all that waited before.
pub proof fn law_first_asked_is_first_taken(
    pending: Seq<OrchestratorInput>,
    input: OrchestratorInput,
)
    ensures
        popped(pending.push(input), pending.len()) == seq![input],
    decreases pending.len(),
{
    if pending.len() > 0 {
        assert(pending.push(input).skip(1) =~= pending.skip(1).push(input));
        law_first_asked_is_first_taken(pending.skip(1), input);
    } else {
        assert(pending.push(input) =~= seq![input]);
    }
}

/// How busy a model is.
#[derive(Clone, Copy, Debug, PartialEq, Eq, Structural)]
pub struct ApiActivitySnapshot {
    pub active: bool,
    pub received_sse_events: u64,
}

/// How busy a model is: whether a request is under way, and how many lines of its answer came.
#[derive(Clone, Copy, Debug, PartialEq, Eq, Structural)]
pub struct ApiActivity {
    pub active: bool,
    pub received_sse_events: u64,
}

impl Default for ApiActivity {
    fn default() -> (activity: ApiActivity)
        ensures
            activity == ApiActivity::idle(),
    {
        ApiActivity { active: false, received_sse_events: 0 }
    }
}

impl ApiActivity {
    /// No request is under way.
    pub open spec fn idle() -> ApiActivity {
        ApiActivity { active: false, received_sse_events: 0 }
    }

    /// A request has begun, and nothing of its answer came yet.
    pub open spec fn begun() -> ApiActivity {
        ApiActivity { active: true, received_sse_events: 0 }
    }

    /// After a line of the answer. The count begins anew after the largest number.
    pub open spec fn after_line(self) -> ApiActivity {
        ApiActivity {
            received_sse_events: if self.received_sse_events == u64::MAX {
                0
            } else {
                (self.received_sse_events + 1) as u64
            },
            ..self
        }
    }

    /// After so many lines of the answer.
    pub open spec fn after_lines(self, lines: nat) -> ApiActivity
        decreases lines,
    {
        if lines == 0 {
            self
        } else {
            self.after_lines((lines - 1) as nat).after_line()
        }
    }

    /// What is shown of it. Lines only count while a request is under way.
    pub open spec fn shown(self) -> ApiActivitySnapshot {
        ApiActivitySnapshot {
            active: self.active,
            received_sse_events: if self.active {
                self.received_sse_events
            } else {
                0
            },
        }
    }

    /// A request begins.
    pub fn begin(&mut self)
        ensures
            *final(self) == ApiActivity::begun(),
    {
        self.received_sse_events = 0;
        self.active = true;
    }

    /// A line of the answer came.
    pub fn received_sse(&mut self)
        ensures
            *final(self) == old(self).after_line(),
    {
        if self.received_sse_events == u64::MAX {
            self.received_sse_events = 0;
        } else {
            self.received_sse_events += 1;
        }
    }

    /// The request ends.
    pub fn finish(&mut self)
        ensures
            *final(self) == ApiActivity::idle(),
    {
        self.active = false;
        self.received_sse_events = 0;
    }

    /// How busy the model is. Lines only count while a request is under way.
    pub fn snapshot(&self) -> (snapshot: ApiActivitySnapshot)
        ensures
            snapshot == self.shown(),
    {
        ApiActivitySnapshot {
            active: self.active,
            received_sse_events: if self.active {
                self.received_sse_events
            } else {
                0
            },
        }
    }
}

proof fn lemma_lines_counted(lines: nat)
    requires
        lines <= u64::MAX,
    ensures
        ApiActivity::begun().after_lines(lines) == (ApiActivity {
            active: true,
            received_sse_events: lines as u64,
        }),
    decreases lines,
{
    if lines > 0 {
        lemma_lines_counted((lines - 1) as nat);
    }
}

/// While a request is under way, what is shown counts the lines of its answer alone, from the first
/// one on; while none is, nothing is shown, whatever lines come.
pub proof fn law_lines_of_one_request_are_counted(lines: nat)
    requires
        lines <= u64::MAX,
    ensures
        ApiActivity::begun().after_lines(lines).shown() == (ApiActivitySnapshot {
            active: true,
            received_sse_events: lines as u64,
        }),
        ApiActivity::idle().after_lines(lines).shown() == (ApiActivitySnapshot {
            active: false,
            received_sse_events: 0,
        }),
    decreases lines,
{
    lemma_lines_counted(lines);
    if lines > 0 {
        law_lines_of_one_request_are_counted((lines - 1) as nat);
    }
}

} // verus!
