//! One row of the board per agent, and the order in which rows are shown.

use vstd::prelude::*;

use crate::path::{project_name, project_name_of};
use crate::status::{parse_status, priority_of, status_from_text, AgentStatus};

verus! {

/// An agent as the board shows it.
#[derive(Debug, Clone)]
pub struct AgentInfo {
    pub display_name: String,
    pub status: AgentStatus,
    pub project_name: String,
    pub git_branch: Option<String>,
    pub terminal_title_stripped: Option<String>,
}

/// What the poller shares with the board.
#[derive(Debug, Clone)]
pub struct HerdrState {
    pub agents: Vec<AgentInfo>,
}

impl Default for HerdrState {
    fn default() -> (state: Self)
        ensures
            state.agents@.len() == 0,
    {
        HerdrState { agents: Vec::new() }
    }
}

/// An agent as `herdr agent list` reports it.
#[derive(Debug, Clone)]
pub struct RawAgentInfo {
    pub terminal_id: String,
    pub name: Option<String>,
    pub agent: Option<String>,
    pub agent_status: String,
    pub cwd: Option<String>,
    pub terminal_title_stripped: Option<String>,
}

/// The name shown for an agent: its own name, else the kind of agent, else
/// the terminal it runs in.
pub open spec fn display_name_of(raw: RawAgentInfo) -> Seq<char> {
    match raw.name {
        Some(name) => name@,
        None => match raw.agent {
            Some(agent) => agent@,
            None => raw.terminal_id@,
        },
    }
}

/// `info` is the board's row for `raw`, where `branch` is what git reports
/// as the current branch of `raw`'s working directory.
pub open spec fn describes(info: AgentInfo, raw: RawAgentInfo, branch: Option<String>) -> bool {
    &&& info.display_name@ == display_name_of(raw)
    &&& info.status == status_from_text(raw.agent_status@)
    &&& info.project_name@ == match raw.cwd {
        Some(cwd) => project_name_of(cwd@),
        None => "?"@,
    }
    &&& info.git_branch == match raw.cwd {
        Some(_) => branch,
        None => None,
    }
    &&& info.terminal_title_stripped == raw.terminal_title_stripped
}

/// The board's row for one agent of `herdr agent list`; `branch` is the git
/// branch of its working directory, which only counts when it has one.
pub fn agent_info(raw: RawAgentInfo, branch: Option<String>) -> (info: AgentInfo)
    ensures
        describes(info, raw, branch),
{
    let display_name = match raw.name {
        Some(name) => name,
        None => match raw.agent {
            Some(agent) => agent,
            None => raw.terminal_id,
        },
    };
    let (project, git_branch) = match &raw.cwd {
        Some(cwd) => (project_name(cwd.as_str()), branch),
        None => ("?".to_owned(), None),
    };
    AgentInfo {
        display_name,
        status: parse_status(raw.agent_status.as_str()),
        project_name: project,
        git_branch,
        terminal_title_stripped: raw.terminal_title_stripped,
    }
}

/// The board's rows for the agents of one session, in the order herdr listed
/// them; `branches[i]` is the git branch of `raw[i]`'s working directory.
pub fn session_agents(raw: Vec<RawAgentInfo>, branches: Vec<Option<String>>) -> (agents: Vec<
    AgentInfo,
>)
    requires
        raw@.len() == branches@.len(),
    ensures
        agents@.len() == raw@.len(),
        forall|i: int|
            0 <= i < raw@.len() ==> describes(#[trigger] agents@[i], raw@[i], branches@[i]),
{
    let ghost all_raw = raw@;
    let ghost all_branches = branches@;
    let mut raw = raw;
    let mut branches = branches;
    let mut agents: Vec<AgentInfo> = Vec::new();
    while raw.len() > 0
        invariant
            raw@.len() == branches@.len(),
            agents@.len() + raw@.len() == all_raw.len(),
            raw@ == all_raw.skip(agents@.len() as int),
            branches@ == all_branches.skip(agents@.len() as int),
            all_raw.len() == all_branches.len(),
            forall|i: int|
                0 <= i < agents@.len() ==> describes(
                    #[trigger] agents@[i],
                    all_raw[i],
                    all_branches[i],
                ),
        decreases raw@.len(),
    {
        let ghost done = agents@.len() as int;
        let one = raw.remove(0);
        let branch = branches.remove(0);
        assert(one == all_raw[done] && branch == all_branches[done]);
        agents.push(agent_info(one, branch));
        assert(raw@ =~= all_raw.skip(done + 1));
        assert(branches@ =~= all_branches.skip(done + 1));
    }
    agents
}

/// Holds for the agents whose status has the given rank.
pub open spec fn has_priority(p: u8) -> spec_fn(AgentInfo) -> bool {
    |a: AgentInfo| priority_of(a.status) == p
}

/// The agents of the given rank, in the order they came in.
pub open spec fn with_priority(agents: Seq<AgentInfo>, p: u8) -> Seq<AgentInfo> {
    agents.filter(has_priority(p))
}

/// The board's order: blocked agents first, then done, working, idle and
/// unknown ones; within a status the agents keep the order they came in.
pub open spec fn attention_order(agents: Seq<AgentInfo>) -> Seq<AgentInfo> {
    with_priority(agents, 0) + with_priority(agents, 1) + with_priority(agents, 2)
        + with_priority(agents, 3) + with_priority(agents, 4)
}

proof fn lemma_with_priority_push(agents: Seq<AgentInfo>, a: AgentInfo, p: u8)
    ensures
        with_priority(agents.push(a), p) == if priority_of(a.status) == p {
            with_priority(agents, p).push(a)
        } else {
            with_priority(agents, p)
        },
{
    reveal(Seq::filter);
    assert(agents.push(a).drop_last() =~= agents);
}

/// Puts the agents that need a hand on top. Agents of one status keep the
/// order they were fetched in (session order, then pane order).
pub fn sort_agents(agents: &mut Vec<AgentInfo>)
    ensures
        final(agents)@ == attention_order(old(agents)@),
{
    let ghost input = agents@;
    let mut blocked: Vec<AgentInfo> = Vec::new();
    let mut done: Vec<AgentInfo> = Vec::new();
    let mut working: Vec<AgentInfo> = Vec::new();
    let mut idle: Vec<AgentInfo> = Vec::new();
    let mut unknown: Vec<AgentInfo> = Vec::new();
    let mut rest: Vec<AgentInfo> = Vec::new();
    std::mem::swap(&mut rest, agents);
    let ghost mut taken: int = 0;
    assert(input.take(0) =~= Seq::<AgentInfo>::empty());
    reveal(Seq::filter);
    while rest.len() > 0
        invariant
            0 <= taken <= input.len(),
            rest@ == input.skip(taken),
            blocked@ == with_priority(input.take(taken), 0),
            done@ == with_priority(input.take(taken), 1),
            working@ == with_priority(input.take(taken), 2),
            idle@ == with_priority(input.take(taken), 3),
            unknown@ == with_priority(input.take(taken), 4),
        decreases rest.len(),
    {
        let a = rest.remove(0);
        proof {
            assert(a == input[taken]);
            assert(input.take(taken + 1) =~= input.take(taken).push(a));
            lemma_with_priority_push(input.take(taken), a, 0);
            lemma_with_priority_push(input.take(taken), a, 1);
            lemma_with_priority_push(input.take(taken), a, 2);
            lemma_with_priority_push(input.take(taken), a, 3);
            lemma_with_priority_push(input.take(taken), a, 4);
            taken = taken + 1;
            assert(rest@ =~= input.skip(taken));
        }
        match a.status {
            AgentStatus::Blocked => blocked.push(a),
            AgentStatus::Done => done.push(a),
            AgentStatus::Working => working.push(a),
            AgentStatus::Idle => idle.push(a),
            AgentStatus::Unknown => unknown.push(a),
        }
    }
    assert(input.take(taken) =~= input);
    blocked.append(&mut done);
    blocked.append(&mut working);
    blocked.append(&mut idle);
    blocked.append(&mut unknown);
    *agents = blocked;
}

/// Every agent kept by `with_priority(_, p)` has rank `p`.
proof fn lemma_with_priority_ranks(agents: Seq<AgentInfo>, p: u8)
    ensures
        forall|i: int|
            0 <= i < with_priority(agents, p).len() ==> priority_of(
                #[trigger] with_priority(agents, p)[i].status,
            ) == p,
{
    broadcast use Seq::lemma_filter_pred;

    assert forall|i: int| 0 <= i < with_priority(agents, p).len() implies priority_of(
        #[trigger] with_priority(agents, p)[i].status,
    ) == p by {
        agents.lemma_filter_pred(has_priority(p), i);
    }
}

/// Selecting rank `q` among agents already selected for rank `p`.
proof fn lemma_with_priority_twice(agents: Seq<AgentInfo>, p: u8, q: u8)
    ensures
        with_priority(with_priority(agents, p), q) == if p == q {
            with_priority(agents, p)
        } else {
            Seq::<AgentInfo>::empty()
        },
    decreases agents.len(),
{
    if agents.len() == 0 {
        reveal(Seq::filter);
    } else {
        let init = agents.drop_last();
        let a = agents.last();
        assert(init.push(a) =~= agents);
        lemma_with_priority_twice(init, p, q);
        lemma_with_priority_push(init, a, p);
        lemma_with_priority_push(with_priority(init, p), a, q);
    }
}

/// Ranks never decrease along a sequence.
pub open spec fn ranks_ascending(agents: Seq<AgentInfo>) -> bool {
    forall|i: int, j: int|
        0 <= i < j < agents.len() ==> priority_of(agents[i].status) <= priority_of(
            agents[j].status,
        )
}

proof fn lemma_ascending_concat(front: Seq<AgentInfo>, back: Seq<AgentInfo>, bound: u8)
    requires
        ranks_ascending(front),
        ranks_ascending(back),
        forall|i: int| 0 <= i < front.len() ==> priority_of(#[trigger] front[i].status) <= bound,
        forall|i: int| 0 <= i < back.len() ==> bound <= priority_of(#[trigger] back[i].status),
    ensures
        ranks_ascending(front + back),
{
    let whole = front + back;
    assert forall|i: int, j: int| 0 <= i < j < whole.len() implies priority_of(
        whole[i].status,
    ) <= priority_of(whole[j].status) by {
        if j < front.len() {
            assert(whole[i] == front[i] && whole[j] == front[j]);
        } else if i >= front.len() {
            assert(whole[i] == back[i - front.len()] && whole[j] == back[j - front.len()]);
        } else {
            assert(whole[i] == front[i] && whole[j] == back[j - front.len()]);
        }
    }
}

/// Law: in the board's order the rank never goes down, so every agent that
/// needs more attention stands above every agent that needs less.
pub proof fn lemma_attention_order_ascending(agents: Seq<AgentInfo>)
    ensures
        ranks_ascending(attention_order(agents)),
{
    let b0 = with_priority(agents, 0);
    let b1 = with_priority(agents, 1);
    let b2 = with_priority(agents, 2);
    let b3 = with_priority(agents, 3);
    let b4 = with_priority(agents, 4);
    lemma_with_priority_ranks(agents, 0);
    lemma_with_priority_ranks(agents, 1);
    lemma_with_priority_ranks(agents, 2);
    lemma_with_priority_ranks(agents, 3);
    lemma_with_priority_ranks(agents, 4);
    lemma_ascending_concat(b0, b1, 0);
    assert forall|i: int| 0 <= i < (b0 + b1).len() implies priority_of(
        #[trigger] (b0 + b1)[i].status,
    ) <= 1 by {
        if i < b0.len() {
            assert((b0 + b1)[i] == b0[i]);
        } else {
            assert((b0 + b1)[i] == b1[i - b0.len()]);
        }
    }
    lemma_ascending_concat(b0 + b1, b2, 1);
    assert forall|i: int| 0 <= i < (b0 + b1 + b2).len() implies priority_of(
        #[trigger] (b0 + b1 + b2)[i].status,
    ) <= 2 by {
        if i < (b0 + b1).len() {
            assert((b0 + b1 + b2)[i] == (b0 + b1)[i]);
        } else {
            assert((b0 + b1 + b2)[i] == b2[i - (b0 + b1).len()]);
        }
    }
    lemma_ascending_concat(b0 + b1 + b2, b3, 2);
    assert forall|i: int| 0 <= i < (b0 + b1 + b2 + b3).len() implies priority_of(
        #[trigger] (b0 + b1 + b2 + b3)[i].status,
    ) <= 3 by {
        if i < (b0 + b1 + b2).len() {
            assert((b0 + b1 + b2 + b3)[i] == (b0 + b1 + b2)[i]);
        } else {
            assert((b0 + b1 + b2 + b3)[i] == b3[i - (b0 + b1 + b2).len()]);
        }
    }
    lemma_ascending_concat(b0 + b1 + b2 + b3, b4, 3);
}

/// Law: the board keeps, for each status, the agents of that status in the
/// order they were fetched.
pub proof fn lemma_attention_order_keeps_group_order(agents: Seq<AgentInfo>, p: u8)
    ensures
        with_priority(attention_order(agents), p) == with_priority(agents, p),
{
    broadcast use Seq::filter_distributes_over_add;

    lemma_with_priority_twice(agents, 0, p);
    lemma_with_priority_twice(agents, 1, p);
    lemma_with_priority_twice(agents, 2, p);
    lemma_with_priority_twice(agents, 3, p);
    lemma_with_priority_twice(agents, 4, p);
    if p > 4 {
        reveal(Seq::filter);
        lemma_no_rank_above_four(agents, p);
    }
}

proof fn lemma_no_rank_above_four(agents: Seq<AgentInfo>, p: u8)
    requires
        p > 4,
    ensures
        with_priority(agents, p) == Seq::<AgentInfo>::empty(),
    decreases agents.len(),
{
    reveal(Seq::filter);
    if agents.len() > 0 {
        lemma_no_rank_above_four(agents.drop_last(), p);
    }
}

/// Law: ordering the board neither loses, adds nor duplicates an agent.
pub proof fn lemma_attention_order_is_permutation(agents: Seq<AgentInfo>)
    ensures
        attention_order(agents).to_multiset() == agents.to_multiset(),
    decreases agents.len(),
{
    broadcast use vstd::seq_lib::lemma_multiset_commutative;
    broadcast use vstd::multiset::group_multiset_axioms;

    if agents.len() == 0 {
        reveal(Seq::filter);
        assert(attention_order(agents) =~= agents);
    } else {
        let init = agents.drop_last();
        let a = agents.last();
        assert(init.push(a) =~= agents);
        lemma_attention_order_is_permutation(init);
        lemma_with_priority_push(init, a, 0);
        lemma_with_priority_push(init, a, 1);
        lemma_with_priority_push(init, a, 2);
        lemma_with_priority_push(init, a, 3);
        lemma_with_priority_push(init, a, 4);
        init.to_multiset_ensures();
        with_priority(init, 0).to_multiset_ensures();
        with_priority(init, 1).to_multiset_ensures();
        with_priority(init, 2).to_multiset_ensures();
        with_priority(init, 3).to_multiset_ensures();
        with_priority(init, 4).to_multiset_ensures();
        assert(attention_order(agents).to_multiset() =~= attention_order(init).to_multiset().insert(a));
    }
}

/// Law: ordering an already ordered board changes nothing.
pub proof fn lemma_attention_order_idempotent(agents: Seq<AgentInfo>)
    ensures
        attention_order(attention_order(agents)) == attention_order(agents),
{
    lemma_attention_order_keeps_group_order(agents, 0);
    lemma_attention_order_keeps_group_order(agents, 1);
    lemma_attention_order_keeps_group_order(agents, 2);
    lemma_attention_order_keeps_group_order(agents, 3);
    lemma_attention_order_keeps_group_order(agents, 4);
}

/// Law: a row keeps the terminal title of its herdr entry, whether or not
/// the entry has a working directory, and whatever branch git reported.
pub proof fn lemma_row_keeps_terminal_title(info: AgentInfo, raw: RawAgentInfo, branch: Option<String>)
    requires
        describes(info, raw, branch),
    ensures
        info.terminal_title_stripped == raw.terminal_title_stripped,
{
}

/// Law: the row's name is the entry's own name when it has one, else the
/// kind of agent when it has one, else the terminal id; an entry without a
/// working directory shows project `?` and no branch, whatever git said.
pub proof fn lemma_row_name_and_place(info: AgentInfo, raw: RawAgentInfo, branch: Option<String>)
    requires
        describes(info, raw, branch),
    ensures
        raw.name is Some ==> info.display_name@ == raw.name->0@,
        raw.name is None && raw.agent is Some ==> info.display_name@ == raw.agent->0@,
        raw.name is None && raw.agent is None ==> info.display_name@ == raw.terminal_id@,
        raw.cwd is None ==> info.project_name@ == "?"@ && info.git_branch is None,
        raw.cwd is Some ==> info.git_branch == branch,
{
}

} // verus!
