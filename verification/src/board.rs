//! What the overlay shows for the agents: one line of text per agent, the
//! colour of its status, where the window sits and how often it redraws.

use vstd::prelude::*;

use crate::agents::AgentInfo;
use crate::status::{label_text, should_pulse, AgentStatus};

verus! {

/// Titles longer than this many characters are cut.
pub const TITLE_LIMIT: usize = 20;

/// A terminal title as the label shows it: at most `TITLE_LIMIT` characters,
/// followed by an ellipsis when cut.
pub open spec fn shortened_title(title: Seq<char>) -> Seq<char> {
    if title.len() > TITLE_LIMIT {
        title.take(TITLE_LIMIT as int) + "\u{2026}"@
    } else {
        title
    }
}

/// The project, with the git branch in brackets when there is one.
pub open spec fn project_part(agent: AgentInfo) -> Seq<char> {
    match agent.git_branch {
        Some(branch) => agent.project_name@ + " ("@ + branch@ + ")"@,
        None => agent.project_name@,
    }
}

/// The terminal title, after two spaces, when there is a non-empty one.
pub open spec fn title_part(agent: AgentInfo) -> Seq<char> {
    match agent.terminal_title_stripped {
        Some(title) => if title@.len() > 0 {
            "  "@ + shortened_title(title@)
        } else {
            Seq::empty()
        },
        None => Seq::empty(),
    }
}

/// The line shown for an agent: project (and branch), terminal title and
/// status, separated by two spaces.
pub open spec fn label_line(agent: AgentInfo) -> Seq<char> {
    project_part(agent) + title_part(agent) + "  ["@ + label_text(agent.status) + "]"@
}

/// The text of an agent's row.
pub fn format_label(agent: &AgentInfo) -> (line: String)
    ensures
        line@ == label_line(*agent),
{
    let mut line = agent.project_name.clone();
    match &agent.git_branch {
        Some(branch) => {
            line.append(" (");
            line.append(branch.as_str());
            line.append(")");
            assert(line@ =~= project_part(*agent));
        },
        None => {},
    }
    let ghost head = line@;
    match &agent.terminal_title_stripped {
        Some(title) => {
            let count = title.as_str().unicode_len();
            if count > TITLE_LIMIT {
                line.append("  ");
                line.append(title.as_str().substring_char(0, TITLE_LIMIT));
                line.append("\u{2026}");
                assert(line@ =~= head + title_part(*agent));
            } else if count > 0 {
                line.append("  ");
                line.append(title.as_str());
                assert(line@ =~= head + title_part(*agent));
            } else {
                assert(line@ =~= head + title_part(*agent));
            }
        },
        None => {
            assert(line@ =~= head + title_part(*agent));
        },
    }
    line.append("  [");
    line.append(agent.status.label());
    line.append("]");
    assert(line@ =~= label_line(*agent));
    line
}

/// The project text at the front of a row, spelled out from the agent's
/// fields.
pub open spec fn project_text(agent: AgentInfo) -> Seq<char> {
    match agent.git_branch {
        Some(branch) => agent.project_name@ + " ("@ + branch@ + ")"@,
        None => agent.project_name@,
    }
}

/// Law: a terminal title longer than `TITLE_LIMIT` characters shows as its
/// first `TITLE_LIMIT` characters and an ellipsis, whatever the git branch;
/// the row is the project text, two spaces, that cut title, two spaces and
/// the bracketed status.
pub proof fn lemma_long_title_is_cut(agent: AgentInfo, title: String)
    requires
        agent.terminal_title_stripped == Some(title),
        title@.len() > TITLE_LIMIT,
    ensures
        label_line(agent) == project_text(agent) + "  "@ + title@.take(TITLE_LIMIT as int)
            + "\u{2026}"@ + "  ["@ + label_text(agent.status) + "]"@,
{
    assert(label_line(agent) =~= project_text(agent) + "  "@ + title@.take(TITLE_LIMIT as int)
        + "\u{2026}"@ + "  ["@ + label_text(agent.status) + "]"@);
}

/// Law: a non-empty title of at most `TITLE_LIMIT` characters shows in
/// full, and an absent or empty title adds nothing, whatever the branch.
pub proof fn lemma_short_title_is_whole(agent: AgentInfo)
    ensures
        match agent.terminal_title_stripped {
            Some(title) => if 0 < title@.len() <= TITLE_LIMIT {
                label_line(agent) == project_text(agent) + "  "@ + title@ + "  ["@ + label_text(
                    agent.status,
                ) + "]"@
            } else if title@.len() == 0 {
                label_line(agent) == project_text(agent) + "  ["@ + label_text(agent.status)
                    + "]"@
            } else {
                true
            },
            None => label_line(agent) == project_text(agent) + "  ["@ + label_text(agent.status)
                + "]"@,
        },
{
    match agent.terminal_title_stripped {
        Some(title) => {
            assert(label_line(agent) =~= project_text(agent) + title_part(agent) + "  ["@
                + label_text(agent.status) + "]"@);
            if 0 < title@.len() <= TITLE_LIMIT {
                assert(label_line(agent) =~= project_text(agent) + "  "@ + title@ + "  ["@
                    + label_text(agent.status) + "]"@);
            } else if title@.len() == 0 {
                assert(label_line(agent) =~= project_text(agent) + "  ["@ + label_text(
                    agent.status,
                ) + "]"@);
            }
        },
        None => {
            assert(label_line(agent) =~= project_text(agent) + "  ["@ + label_text(agent.status)
                + "]"@);
        },
    }
}

/// Law: the git branch only changes the project text at the front of the
/// row; two agents that differ in nothing else share the rest of the row.
pub proof fn lemma_branch_only_changes_project_text(a: AgentInfo, b: AgentInfo)
    requires
        a.project_name == b.project_name,
        a.terminal_title_stripped == b.terminal_title_stripped,
        a.status == b.status,
    ensures
        label_line(a).len() >= project_text(a).len(),
        label_line(b).len() >= project_text(b).len(),
        label_line(a).take(project_text(a).len() as int) == project_text(a),
        label_line(b).take(project_text(b).len() as int) == project_text(b),
        label_line(a).skip(project_text(a).len() as int) == label_line(b).skip(
            project_text(b).len() as int,
        ),
{
    let rest = title_part(a) + "  ["@ + label_text(a.status) + "]"@;
    assert(title_part(a) == title_part(b));
    assert(label_line(a) =~= project_text(a) + rest);
    assert(label_line(b) =~= project_text(b) + rest);
    assert((project_text(a) + rest).skip(project_text(a).len() as int) =~= rest);
    assert((project_text(b) + rest).skip(project_text(b).len() as int) =~= rest);
    assert((project_text(a) + rest).take(project_text(a).len() as int) =~= project_text(a));
    assert((project_text(b) + rest).take(project_text(b).len() as int) =~= project_text(b));
}

/// An opaque colour.
#[derive(Debug, Clone, Copy, PartialEq, Eq, Structural)]
pub struct Rgb {
    pub r: u8,
    pub g: u8,
    pub b: u8,
}

/// The colour of a status: green for working, amber for blocked, blue for
/// done, grey otherwise.
pub open spec fn status_rgb_of(status: AgentStatus) -> Rgb {
    match status {
        AgentStatus::Working => Rgb { r: 80, g: 200, b: 80 },
        AgentStatus::Blocked => Rgb { r: 220, g: 180, b: 0 },
        AgentStatus::Idle | AgentStatus::Unknown => Rgb { r: 160, g: 160, b: 160 },
        AgentStatus::Done => Rgb { r: 100, g: 180, b: 220 },
    }
}

/// The colour in which an agent's robot, label and bubble are drawn.
pub fn status_color(status: &AgentStatus) -> (color: Rgb)
    ensures
        color == status_rgb_of(*status),
{
    match status {
        AgentStatus::Working => Rgb { r: 80, g: 200, b: 80 },
        AgentStatus::Blocked => Rgb { r: 220, g: 180, b: 0 },
        AgentStatus::Idle | AgentStatus::Unknown => Rgb { r: 160, g: 160, b: 160 },
        AgentStatus::Done => Rgb { r: 100, g: 180, b: 220 },
    }
}

/// Where along one axis of the monitor the window sits.
#[derive(Debug, Clone, Copy, PartialEq, Eq, Structural)]
pub enum Anchor {
    /// Against the left or top edge, one margin away.
    Start,
    /// Centred.
    Center,
    /// Against the right or bottom edge, one margin away.
    End,
}

/// Where on the monitor the overlay sits.
#[derive(Debug, Clone, Copy, PartialEq, Eq, Structural)]
pub enum Position {
    TopLeft,
    TopCenter,
    TopRight,
    MiddleLeft,
    MiddleCenter,
    MiddleRight,
    BottomLeft,
    BottomCenter,
    BottomRight,
}

impl Default for Position {
    fn default() -> (position: Self)
        ensures
            position == Position::TopCenter,
    {
        Position::TopCenter
    }
}

pub open spec fn horizontal_of(position: Position) -> Anchor {
    match position {
        Position::TopLeft | Position::MiddleLeft | Position::BottomLeft => Anchor::Start,
        Position::TopCenter | Position::MiddleCenter | Position::BottomCenter => Anchor::Center,
        Position::TopRight | Position::MiddleRight | Position::BottomRight => Anchor::End,
    }
}

pub open spec fn vertical_of(position: Position) -> Anchor {
    match position {
        Position::TopLeft | Position::TopCenter | Position::TopRight => Anchor::Start,
        Position::MiddleLeft | Position::MiddleCenter | Position::MiddleRight => Anchor::Center,
        Position::BottomLeft | Position::BottomCenter | Position::BottomRight => Anchor::End,
    }
}

impl Position {
    /// The column of the position.
    pub fn horizontal(self) -> (anchor: Anchor)
        ensures
            anchor == horizontal_of(self),
    {
        match self {
            Position::TopLeft | Position::MiddleLeft | Position::BottomLeft => Anchor::Start,
            Position::TopCenter | Position::MiddleCenter | Position::BottomCenter => Anchor::Center,
            Position::TopRight | Position::MiddleRight | Position::BottomRight => Anchor::End,
        }
    }

    /// The row of the position.
    pub fn vertical(self) -> (anchor: Anchor)
        ensures
            anchor == vertical_of(self),
    {
        match self {
            Position::TopLeft | Position::TopCenter | Position::TopRight => Anchor::Start,
            Position::MiddleLeft | Position::MiddleCenter | Position::MiddleRight => Anchor::Center,
            Position::BottomLeft | Position::BottomCenter | Position::BottomRight => Anchor::End,
        }
    }
}

/// Law: each position is a distinct pair of column and row, so the nine
/// positions cover the nine places of the monitor.
pub proof fn lemma_position_is_column_and_row(a: Position, b: Position)
    ensures
        (horizontal_of(a) == horizontal_of(b) && vertical_of(a) == vertical_of(b)) <==> a == b,
{
}

/// Law: a position's row is the first word of its name: the `Top*`
/// positions sit against the top edge, the `Middle*` ones in the middle and
/// the `Bottom*` ones against the bottom edge.
pub proof fn lemma_row_follows_name(p: Position)
    ensures
        vertical_of(p) == Anchor::Start <==> (p == Position::TopLeft || p == Position::TopCenter
            || p == Position::TopRight),
        vertical_of(p) == Anchor::Center <==> (p == Position::MiddleLeft || p
            == Position::MiddleCenter || p == Position::MiddleRight),
        vertical_of(p) == Anchor::End <==> (p == Position::BottomLeft || p
            == Position::BottomCenter || p == Position::BottomRight),
{
}

/// Law: a position's column is the second word of its name: the `*Left`
/// positions sit against the left edge, the `*Center` ones in the middle and
/// the `*Right` ones against the right edge.
pub proof fn lemma_column_follows_name(p: Position)
    ensures
        horizontal_of(p) == Anchor::Start <==> (p == Position::TopLeft || p
            == Position::MiddleLeft || p == Position::BottomLeft),
        horizontal_of(p) == Anchor::Center <==> (p == Position::TopCenter || p
            == Position::MiddleCenter || p == Position::BottomCenter),
        horizontal_of(p) == Anchor::End <==> (p == Position::TopRight || p
            == Position::MiddleRight || p == Position::BottomRight),
{
}

/// Whether an agent's row moves: its bubble pulses, or it is working.
pub open spec fn animated(status: AgentStatus) -> bool {
    status == AgentStatus::Blocked || status == AgentStatus::Done || status
        == AgentStatus::Working
}

/// How long the overlay may wait before it redraws: briefly while a row
/// moves, a second while agents are shown, two seconds for an empty board.
pub open spec fn repaint_delay_of(agents: Seq<AgentInfo>) -> u64 {
    if exists|i: int| 0 <= i < agents.len() && animated(#[trigger] agents[i].status) {
        100
    } else if agents.len() > 0 {
        1000
    } else {
        2000
    }
}

/// Milliseconds until the next redraw.
pub fn repaint_delay_millis(agents: &Vec<AgentInfo>) -> (millis: u64)
    ensures
        millis == repaint_delay_of(agents@),
{
    let mut i: usize = 0;
    while i < agents.len()
        invariant
            i <= agents@.len(),
            forall|k: int| 0 <= k < i ==> !animated(#[trigger] agents@[k].status),
        decreases agents@.len() - i,
    {
        let status = &agents[i].status;
        if should_pulse(status) || *status == AgentStatus::Working {
            return 100;
        }
        i = i + 1;
    }
    if agents.len() > 0 {
        1000
    } else {
        2000
    }
}

/// Law: as soon as one agent anywhere on the board is blocked, done or
/// working, the overlay redraws within 100 ms; a board of agents that are
/// all idle or unknown waits a second, an empty one two seconds.
pub proof fn lemma_repaint_delay_by_rows(agents: Seq<AgentInfo>, i: int)
    ensures
        0 <= i < agents.len() && (agents[i].status == AgentStatus::Blocked || agents[i].status
            == AgentStatus::Done || agents[i].status == AgentStatus::Working)
            ==> repaint_delay_of(agents) == 100,
        agents.len() > 0 && (forall|k: int|
            0 <= k < agents.len() ==> (#[trigger] agents[k]).status == AgentStatus::Idle
                || agents[k].status == AgentStatus::Unknown) ==> repaint_delay_of(agents) == 1000,
        agents.len() == 0 ==> repaint_delay_of(agents) == 2000,
{
    if agents.len() > 0 && (forall|k: int|
        0 <= k < agents.len() ==> (#[trigger] agents[k]).status == AgentStatus::Idle
            || agents[k].status == AgentStatus::Unknown) {
        assert(!exists|k: int| 0 <= k < agents.len() && animated(#[trigger] agents[k].status)) by {
            if exists|k: int| 0 <= k < agents.len() && animated(#[trigger] agents[k].status) {
                let k = choose|k: int| 0 <= k < agents.len() && animated(#[trigger] agents[k].status);
                assert(agents[k].status == AgentStatus::Idle || agents[k].status == AgentStatus::Unknown);
            }
        }
    }
    if 0 <= i < agents.len() && animated(agents[i].status) {
        assert(animated(agents[i].status));
    }
}

/// Law: adding rows to a board that moves keeps it redrawing quickly, and
/// the delay does not depend on the order of the rows.
pub proof fn lemma_repaint_delay_ignores_order(a: Seq<AgentInfo>, b: Seq<AgentInfo>)
    ensures
        repaint_delay_of(a + b) == repaint_delay_of(b + a),
        repaint_delay_of(a) == 100 ==> repaint_delay_of(a + b) == 100,
{
    let ab = a + b;
    let ba = b + a;
    if exists|i: int| 0 <= i < ab.len() && animated(#[trigger] ab[i].status) {
        let i = choose|i: int| 0 <= i < ab.len() && animated(#[trigger] ab[i].status);
        if i < a.len() {
            assert(ab[i] == a[i] && ba[b.len() + i] == a[i]);
        } else {
            assert(ab[i] == b[i - a.len()] && ba[i - a.len()] == b[i - a.len()]);
        }
    }
    if exists|i: int| 0 <= i < ba.len() && animated(#[trigger] ba[i].status) {
        let i = choose|i: int| 0 <= i < ba.len() && animated(#[trigger] ba[i].status);
        if i < b.len() {
            assert(ba[i] == b[i] && ab[a.len() + i] == b[i]);
        } else {
            assert(ba[i] == a[i - b.len()] && ab[i - b.len()] == a[i - b.len()]);
        }
    }
    if exists|i: int| 0 <= i < a.len() && animated(#[trigger] a[i].status) {
        let i = choose|i: int| 0 <= i < a.len() && animated(#[trigger] a[i].status);
        assert(ab[i] == a[i]);
    }
}

} // verus!
