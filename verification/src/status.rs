//! The status that herdr reports for an agent, and what the board makes of it.

use vstd::prelude::*;

verus! {

/// What an agent is doing, as herdr reports it.
#[derive(Debug, Clone, PartialEq, Eq, Structural)]
pub enum AgentStatus {
    Idle,
    Working,
    Blocked,
    Done,
    Unknown,
}

/// Rank in the attention queue: the more an agent needs a human, the smaller.
pub open spec fn priority_of(status: AgentStatus) -> u8 {
    match status {
        AgentStatus::Blocked => 0,
        AgentStatus::Done => 1,
        AgentStatus::Working => 2,
        AgentStatus::Idle => 3,
        AgentStatus::Unknown => 4,
    }
}

/// The word shown for a status.
pub open spec fn label_text(status: AgentStatus) -> Seq<char> {
    match status {
        AgentStatus::Idle => "Idle"@,
        AgentStatus::Working => "Working"@,
        AgentStatus::Blocked => "Blocked"@,
        AgentStatus::Done => "Done"@,
        AgentStatus::Unknown => "Unknown"@,
    }
}

/// The status named by herdr's `agent_status` field; any other text is `Unknown`.
pub open spec fn status_from_text(text: Seq<char>) -> AgentStatus {
    if text == "idle"@ {
        AgentStatus::Idle
    } else if text == "working"@ {
        AgentStatus::Working
    } else if text == "blocked"@ {
        AgentStatus::Blocked
    } else if text == "done"@ {
        AgentStatus::Done
    } else {
        AgentStatus::Unknown
    }
}

impl AgentStatus {
    /// Same idea as the attention queue of herdr's agent panel: the more an
    /// agent needs a hand, the smaller the value.
    pub fn priority(&self) -> (p: u8)
        ensures
            p == priority_of(*self),
    {
        match self {
            AgentStatus::Blocked => 0,
            AgentStatus::Done => 1,
            AgentStatus::Working => 2,
            AgentStatus::Idle => 3,
            AgentStatus::Unknown => 4,
        }
    }

    pub fn label(&self) -> (l: &'static str)
        ensures
            l@ == label_text(*self),
    {
        match self {
            AgentStatus::Idle => "Idle",
            AgentStatus::Working => "Working",
            AgentStatus::Blocked => "Blocked",
            AgentStatus::Done => "Done",
            AgentStatus::Unknown => "Unknown",
        }
    }
}

/// Whether two texts hold the same characters.
pub fn same_text(a: &str, b: &str) -> (same: bool)
    ensures
        same == (a@ == b@),
{
    let n = a.unicode_len();
    if n != b.unicode_len() {
        return false;
    }
    let mut i: usize = 0;
    while i < n
        invariant
            n == a@.len(),
            n == b@.len(),
            i <= n,
            forall|k: int| 0 <= k < i ==> a@[k] == b@[k],
        decreases n - i,
    {
        if a.get_char(i) != b.get_char(i) {
            return false;
        }
        i = i + 1;
    }
    assert(a@ =~= b@);
    true
}

/// Reads herdr's `agent_status` field.
pub fn parse_status(s: &str) -> (status: AgentStatus)
    ensures
        status == status_from_text(s@),
{
    if same_text(s, "idle") {
        AgentStatus::Idle
    } else if same_text(s, "working") {
        AgentStatus::Working
    } else if same_text(s, "blocked") {
        AgentStatus::Blocked
    } else if same_text(s, "done") {
        AgentStatus::Done
    } else {
        AgentStatus::Unknown
    }
}

/// Statuses whose bubble outline pulses: the ones waiting for a human.
pub fn should_pulse(status: &AgentStatus) -> (pulse: bool)
    ensures
        pulse == (*status == AgentStatus::Blocked || *status == AgentStatus::Done),
{
    match status {
        AgentStatus::Blocked | AgentStatus::Done => true,
        _ => false,
    }
}

/// Law: the rows that pulse are exactly the ones at the head of the
/// attention queue, blocked and done agents.
pub proof fn lemma_pulse_marks_head_of_queue(status: AgentStatus)
    ensures
        (status == AgentStatus::Blocked || status == AgentStatus::Done) <==> priority_of(status)
            <= 1,
{
}

} // verus!
