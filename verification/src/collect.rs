//! Gathering the agents of one or all herdr sessions.
//!
//! Asking herdr is outside work, so the gathering is a state machine: the
//! collector says what to ask next, the caller asks and hands the answer
//! back, until the collector has the board's list of agents.

use vstd::prelude::*;

use crate::agents::{attention_order, sort_agents, AgentInfo};

verus! {

/// Which sessions' agents the board shows.
#[derive(Debug, Clone, Copy, PartialEq, Eq, Structural)]
pub enum SessionScope {
    /// The agents of every running session.
    All,
    /// The agents of the session the board was started from.
    Current,
}

impl Default for SessionScope {
    fn default() -> (scope: Self)
        ensures
            scope == SessionScope::All,
    {
        SessionScope::All
    }
}

/// Outside work the collector needs done.
#[derive(Debug)]
pub enum Request {
    /// List the running sessions.
    ListSessions,
    /// List the agents of the named session; `None` names the session the
    /// board was started from.
    ListAgents(Option<String>),
}

/// What the collector wants next.
#[derive(Debug)]
pub enum CollectStep {
    Perform(Request),
    /// The board's agents, attention first; `None` when no session answered.
    Finished(Option<Vec<AgentInfo>>),
}

/// The answer to a request.
#[derive(Debug)]
pub enum Reply {
    /// Names of the running sessions (empty when they could not be listed).
    Sessions(Vec<String>),
    /// Agents of the session asked for, or `None` when it did not answer.
    Agents(Option<Vec<AgentInfo>>),
}

/// A step, in terms of views.
pub enum Planned {
    ListSessions,
    ListAgents(Option<Seq<char>>),
    Finished(Option<Seq<AgentInfo>>),
}

pub open spec fn option_view(o: Option<Vec<AgentInfo>>) -> Option<Seq<AgentInfo>> {
    match o {
        Some(v) => Some(v@),
        None => None,
    }
}

pub open spec fn names_view(names: Seq<String>) -> Seq<Seq<char>> {
    names.map_values(|n: String| n@)
}

impl CollectStep {
    pub open spec fn planned(&self) -> Planned {
        match self {
            CollectStep::Perform(Request::ListSessions) => Planned::ListSessions,
            CollectStep::Perform(Request::ListAgents(session)) => Planned::ListAgents(
                match session {
                    Some(name) => Some(name@),
                    None => None,
                },
            ),
            CollectStep::Finished(agents) => Planned::Finished(option_view(*agents)),
        }
    }
}

/// The sessions whose agents are listed, in order: every listed session for
/// `All`, but the starting session alone (`None`) for `Current` or when no
/// session could be listed.
pub open spec fn targets(scope: SessionScope, listed: Option<Seq<Seq<char>>>) -> Seq<
    Option<Seq<char>>,
> {
    match listed {
        Some(names) => if scope == SessionScope::All && names.len() > 0 {
            names.map_values(|n: Seq<char>| Some(n))
        } else {
            seq![None]
        },
        None => seq![None],
    }
}

/// The agents of the sessions that answered, session after session.
pub open spec fn gathered(replies: Seq<Option<Seq<AgentInfo>>>) -> Seq<AgentInfo>
    decreases replies.len(),
{
    if replies.len() == 0 {
        Seq::empty()
    } else {
        gathered(replies.drop_last()) + match replies.last() {
            Some(agents) => agents,
            None => Seq::empty(),
        }
    }
}

/// Whether some session answered.
pub open spec fn any_answered(replies: Seq<Option<Seq<AgentInfo>>>) -> bool {
    exists|i: int| 0 <= i < replies.len() && (#[trigger] replies[i]) is Some
}

/// What the sessions' answers add up to: `None` when none answered.
pub open spec fn collected(replies: Seq<Option<Seq<AgentInfo>>>) -> Option<Seq<AgentInfo>> {
    if any_answered(replies) {
        Some(gathered(replies))
    } else {
        None
    }
}

/// The board's list for the given answers: collected, attention first.
pub open spec fn fetched(replies: Seq<Option<Seq<AgentInfo>>>) -> Option<Seq<AgentInfo>> {
    match collected(replies) {
        Some(agents) => Some(attention_order(agents)),
        None => None,
    }
}

/// The step that follows the answers received so far.
pub open spec fn next_planned(
    scope: SessionScope,
    listed: Option<Seq<Seq<char>>>,
    replies: Seq<Option<Seq<AgentInfo>>>,
) -> Planned {
    if scope == SessionScope::All && listed is None {
        Planned::ListSessions
    } else if replies.len() < targets(scope, listed).len() {
        Planned::ListAgents(targets(scope, listed)[replies.len() as int])
    } else {
        Planned::Finished(fetched(replies))
    }
}

/// Whether the reply answers the pending request.
pub open spec fn answers(
    scope: SessionScope,
    listed: Option<Seq<Seq<char>>>,
    replies: Seq<Option<Seq<AgentInfo>>>,
    reply: Reply,
) -> bool {
    match reply {
        Reply::Sessions(_) => next_planned(scope, listed, replies) is ListSessions,
        Reply::Agents(_) => next_planned(scope, listed, replies) is ListAgents,
    }
}

/// Collects the agents of the sessions in scope.
pub struct AgentCollector {
    scope: SessionScope,
    sessions: Option<Vec<String>>,
    found: Vec<AgentInfo>,
    reached_any: bool,
    answered: usize,
    finished: bool,
    replies: Ghost<Seq<Option<Seq<AgentInfo>>>>,
}

impl AgentCollector {
    pub closed spec fn scope(&self) -> SessionScope {
        self.scope
    }

    /// The running sessions, once listed.
    pub closed spec fn listed(&self) -> Option<Seq<Seq<char>>> {
        match self.sessions {
            Some(names) => Some(names_view(names@)),
            None => None,
        }
    }

    /// The agent lists received so far, in order.
    pub closed spec fn replies(&self) -> Seq<Option<Seq<AgentInfo>>> {
        self.replies@
    }

    /// The collector's state agrees with the answers it has received.
    pub closed spec fn wf(&self) -> bool {
        &&& self.answered == self.replies@.len()
        &&& self.replies@.len() <= targets(self.scope, self.listed()).len()
        &&& (self.scope == SessionScope::All && self.sessions is None) ==> self.replies@.len()
            == 0
        &&& self.finished ==> self.replies@.len() == targets(self.scope, self.listed()).len()
        &&& !self.finished ==> {
            &&& self.found@ == gathered(self.replies@)
            &&& self.reached_any == any_answered(self.replies@)
        }
    }

    /// Starts collecting the agents of `scope`. The collector finishes with
    /// the agents sorted for the board, attention first.
    pub fn collect_agents(scope: SessionScope) -> (res: (AgentCollector, CollectStep))
        ensures
            res.0.wf(),
            res.0.scope() == scope,
            res.0.listed() is None,
            res.0.replies() == Seq::<Option<Seq<AgentInfo>>>::empty(),
            res.1.planned() == next_planned(scope, None, Seq::empty()),
    {
        let collector = AgentCollector {
            scope,
            sessions: None,
            found: Vec::new(),
            reached_any: false,
            answered: 0,
            finished: false,
            replies: Ghost(Seq::empty()),
        };
        let step = match scope {
            SessionScope::All => CollectStep::Perform(Request::ListSessions),
            SessionScope::Current => CollectStep::Perform(Request::ListAgents(None)),
        };
        (collector, step)
    }

    /// How many sessions are asked for their agents (known once listed).
    fn target_count(&self) -> (count: usize)
        requires
            !(self.scope == SessionScope::All && self.sessions is None),
        ensures
            count == targets(self.scope, self.listed()).len(),
    {
        match &self.sessions {
            Some(names) => if self.scope == SessionScope::All && names.len() > 0 {
                names.len()
            } else {
                1
            },
            None => 1,
        }
    }

    fn target(&self, i: usize) -> (target: Option<String>)
        requires
            !(self.scope == SessionScope::All && self.sessions is None),
            i < targets(self.scope, self.listed()).len(),
        ensures
            match target {
                Some(name) => targets(self.scope, self.listed())[i as int] == Some(name@),
                None => targets(self.scope, self.listed())[i as int] is None,
            },
    {
        match &self.sessions {
            Some(names) => if self.scope == SessionScope::All && names.len() > 0 {
                Some(names[i].clone())
            } else {
                None
            },
            None => None,
        }
    }

    /// The step that follows, computed from the state.
    fn next_step(&mut self) -> (step: CollectStep)
        requires
            old(self).wf(),
            !old(self).finished,
            !(old(self).scope == SessionScope::All && old(self).sessions is None),
        ensures
            final(self).wf(),
            final(self).scope() == old(self).scope(),
            final(self).listed() == old(self).listed(),
            final(self).replies() == old(self).replies(),
            step.planned() == next_planned(
                final(self).scope(),
                final(self).listed(),
                final(self).replies(),
            ),
    {
        let count = self.target_count();
        if self.answered < count {
            CollectStep::Perform(Request::ListAgents(self.target(self.answered)))
        } else if self.reached_any {
            self.finished = true;
            let mut agents: Vec<AgentInfo> = Vec::new();
            std::mem::swap(&mut agents, &mut self.found);
            sort_agents(&mut agents);
            CollectStep::Finished(Some(agents))
        } else {
            self.finished = true;
            CollectStep::Finished(None)
        }
    }

    /// Whether `reply` answers the pending request.
    pub fn accepts(&self, reply: &Reply) -> (ok: bool)
        requires
            self.wf(),
        ensures
            ok == answers(self.scope(), self.listed(), self.replies(), *reply),
    {
        let listing = self.scope == SessionScope::All && self.sessions.is_none();
        match reply {
            Reply::Sessions(_) => listing,
            Reply::Agents(_) => !listing && self.answered < self.target_count(),
        }
    }

    /// Takes the answer to the pending request and says what comes next.
    pub fn reply(&mut self, reply: Reply) -> (step: CollectStep)
        requires
            old(self).wf(),
            answers(old(self).scope(), old(self).listed(), old(self).replies(), reply),
        ensures
            final(self).wf(),
            final(self).scope() == old(self).scope(),
            match reply {
                Reply::Sessions(names) => {
                    &&& final(self).listed() == Some(names_view(names@))
                    &&& final(self).replies() == old(self).replies()
                },
                Reply::Agents(agents) => {
                    &&& final(self).listed() == old(self).listed()
                    &&& final(self).replies() == old(self).replies().push(option_view(agents))
                },
            },
            step.planned() == next_planned(
                final(self).scope(),
                final(self).listed(),
                final(self).replies(),
            ),
    {
        match reply {
            Reply::Sessions(names) => {
                self.sessions = Some(names);
                self.next_step()
            },
            Reply::Agents(agents) => {
                let count = self.target_count();
                let ghost before = self.replies@;
                let ghost answer = option_view(agents);
                match agents {
                    Some(mut more) => {
                        self.found.append(&mut more);
                        self.reached_any = true;
                    },
                    None => {},
                }
                self.answered = self.answered + 1;
                self.replies = Ghost(before.push(answer));
                proof {
                    let now = before.push(answer);
                    assert(now.drop_last() =~= before);
                    if answer is Some {
                        assert(now[now.len() - 1] is Some);
                    }
                    assert(any_answered(now) == (any_answered(before) || answer is Some)) by {
                        if any_answered(before) {
                            let i = choose|i: int| 0 <= i < before.len() && (#[trigger] before[i]) is Some;
                            assert(now[i] == before[i]);
                        }
                        if any_answered(now) {
                            let i = choose|i: int| 0 <= i < now.len() && (#[trigger] now[i]) is Some;
                            if i < before.len() {
                                assert(now[i] == before[i]);
                            }
                        }
                    }
                }
                self.next_step()
            },
        }
    }
}

proof fn lemma_single_reply(reply: Option<Seq<AgentInfo>>)
    ensures
        collected(seq![reply]) == reply,
{
    let replies = seq![reply];
    assert(replies.drop_last() =~= Seq::<Option<Seq<AgentInfo>>>::empty());
    match reply {
        Some(agents) => {
            assert(replies[0] is Some);
            assert(gathered(replies.drop_last()) == Seq::<AgentInfo>::empty());
            assert(Seq::<AgentInfo>::empty() + agents =~= agents);
            assert(gathered(replies) =~= agents);
        },
        None => {},
    }
}

/// Law: with scope `Current` the board asks for no session list; it asks the
/// session it was started from, and shows exactly what that session answers,
/// attention first.
pub proof fn lemma_current_scope_asks_own_session(reply: Option<Seq<AgentInfo>>)
    ensures
        next_planned(SessionScope::Current, None, Seq::empty()) == Planned::ListAgents(None),
        next_planned(SessionScope::Current, None, seq![reply]) == Planned::Finished(
            match reply {
                Some(agents) => Some(attention_order(agents)),
                None => None,
            },
        ),
{
    lemma_single_reply(reply);
}

/// Law: when no running session can be listed, the board falls back to the
/// session it was started from.
pub proof fn lemma_no_sessions_falls_back_to_own_session(reply: Option<Seq<AgentInfo>>)
    ensures
        next_planned(SessionScope::All, Some(Seq::empty()), Seq::empty()) == Planned::ListAgents(
            None,
        ),
        next_planned(SessionScope::All, Some(Seq::empty()), seq![reply]) == Planned::Finished(
            match reply {
                Some(agents) => Some(attention_order(agents)),
                None => None,
            },
        ),
{
    lemma_single_reply(reply);
}

/// Law: with scope `All` every listed session is asked, once and in the
/// listed order, before the board is finished.
pub proof fn lemma_listed_sessions_asked_in_order(
    names: Seq<Seq<char>>,
    replies: Seq<Option<Seq<AgentInfo>>>,
)
    requires
        names.len() > 0,
        replies.len() <= names.len(),
    ensures
        replies.len() < names.len() ==> next_planned(SessionScope::All, Some(names), replies)
            == Planned::ListAgents(Some(names[replies.len() as int])),
        replies.len() == names.len() ==> next_planned(SessionScope::All, Some(names), replies)
            == Planned::Finished(fetched(replies)),
{
}

/// Law: a session that does not answer adds no agent, and the board has no
/// list at all only when no session answered.
pub proof fn lemma_silent_sessions_add_nothing(replies: Seq<Option<Seq<AgentInfo>>>)
    ensures
        gathered(replies.push(None)) == gathered(replies),
        collected(replies) is None <==> forall|i: int|
            0 <= i < replies.len() ==> (#[trigger] replies[i]) is None,
{
    assert(replies.push(None).drop_last() =~= replies);
    assert(gathered(replies) + Seq::<AgentInfo>::empty() =~= gathered(replies));
}

} // verus!
