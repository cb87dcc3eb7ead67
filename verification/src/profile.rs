//! The parts that an agent can play.
use vstd::prelude::*;

use crate::event::CompactKind;

verus! {

/// The part that an agent plays.
#[derive(Clone, Copy, Debug, PartialEq, Eq, Structural)]
pub enum MainAgentProfile {
    Standard,
    Manager,
    Worker,
}

impl MainAgentProfile {
    /// How the conversation of such an agent is compacted.
    pub open spec fn compaction(self) -> CompactKind {
        match self {
            MainAgentProfile::Standard => CompactKind::MainAgentMultiTurn,
            MainAgentProfile::Manager => CompactKind::ManagerMultiTurn,
            MainAgentProfile::Worker => CompactKind::WorkerSingleTurn,
        }
    }

    /// How the conversation of such an agent is compacted.
    pub fn compact_kind(self) -> (kind: CompactKind)
        ensures
            kind == self.compaction(),
    {
        match self {
            MainAgentProfile::Standard => CompactKind::MainAgentMultiTurn,
            MainAgentProfile::Manager => CompactKind::ManagerMultiTurn,
            MainAgentProfile::Worker => CompactKind::WorkerSingleTurn,
        }
    }

    /// The name of such an agent's orchestrator.
    pub open spec fn orchestrator(self) -> Seq<char> {
        match self {
            MainAgentProfile::Standard => "main-agent"@,
            MainAgentProfile::Manager => "manager-agent"@,
            MainAgentProfile::Worker => "worker-agent"@,
        }
    }

    /// The name of such an agent's orchestrator.
    pub fn name(self) -> (name: &'static str)
        ensures
            name@ == self.orchestrator(),
    {
        match self {
            MainAgentProfile::Standard => "main-agent",
            MainAgentProfile::Manager => "manager-agent",
            MainAgentProfile::Worker => "worker-agent",
        }
    }
}

} // verus!
