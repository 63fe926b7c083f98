use herdr_agents_status::agents::{
    agent_info, session_agents, sort_agents, AgentInfo, HerdrState, RawAgentInfo,
};
use herdr_agents_status::board::{
    format_label, repaint_delay_millis, status_color, Anchor, Position, Rgb,
};
use herdr_agents_status::cli::{
    agent_list_args, running_session_names, SessionEntry, SessionListResponse,
};
use herdr_agents_status::collect::{AgentCollector, CollectStep, Reply, Request, SessionScope};
use herdr_agents_status::path::{final_component, project_name};
use herdr_agents_status::status::{parse_status, should_pulse, AgentStatus};
use herdr_agents_status::text::{parse_i32, parse_pid, trim};

fn agent(status: AgentStatus, name: &str) -> AgentInfo {
    AgentInfo {
        display_name: name.to_owned(),
        status,
        project_name: name.to_owned(),
        git_branch: None,
        terminal_title_stripped: None,
    }
}

fn names(agents: &[AgentInfo]) -> Vec<String> {
    agents.iter().map(|a| a.project_name.clone()).collect()
}

fn raw(id: &str) -> RawAgentInfo {
    RawAgentInfo {
        terminal_id: id.to_owned(),
        name: None,
        agent: None,
        agent_status: String::new(),
        cwd: None,
        terminal_title_stripped: None,
    }
}

#[test]
fn labels_name_each_status() {
    assert_eq!(AgentStatus::Idle.label(), "Idle");
    assert_eq!(AgentStatus::Working.label(), "Working");
    assert_eq!(AgentStatus::Blocked.label(), "Blocked");
    assert_eq!(AgentStatus::Done.label(), "Done");
    assert_eq!(AgentStatus::Unknown.label(), "Unknown");
}

#[test]
fn priorities_are_exact() {
    assert_eq!(AgentStatus::Blocked.priority(), 0);
    assert_eq!(AgentStatus::Done.priority(), 1);
    assert_eq!(AgentStatus::Working.priority(), 2);
    assert_eq!(AgentStatus::Idle.priority(), 3);
    assert_eq!(AgentStatus::Unknown.priority(), 4);
}

#[test]
fn parse_status_is_case_sensitive_and_exact() {
    assert_eq!(parse_status("Idle"), AgentStatus::Unknown);
    assert_eq!(parse_status("idle "), AgentStatus::Unknown);
    assert_eq!(parse_status(""), AgentStatus::Unknown);
    assert_eq!(parse_status("don"), AgentStatus::Unknown);
}

#[test]
fn final_component_follows_path_rules() {
    assert_eq!(final_component("/usr/bin/"), Some("bin"));
    assert_eq!(final_component("tmp/foo.txt"), Some("foo.txt"));
    assert_eq!(final_component("foo.txt/."), Some("foo.txt"));
    assert_eq!(final_component("foo.txt/.//"), Some("foo.txt"));
    assert_eq!(final_component("foo.txt/.."), None);
    assert_eq!(final_component("/"), None);
    assert_eq!(final_component("."), None);
    assert_eq!(final_component(""), None);
    assert_eq!(final_component("./a"), Some("a"));
    assert_eq!(final_component("..."), Some("..."));
    assert_eq!(final_component("/home/ユーザー/プロジェクト"), Some("プロジェクト"));
}

#[test]
fn project_name_falls_back_to_question_mark() {
    assert_eq!(project_name("/srv/app/.."), "?");
    assert_eq!(project_name("repo"), "repo");
    assert_eq!(project_name("/srv/app/"), "app");
}

#[test]
fn sorting_twice_is_sorting_once() {
    let mut agents = vec![
        agent(AgentStatus::Unknown, "u1"),
        agent(AgentStatus::Done, "d1"),
        agent(AgentStatus::Idle, "i1"),
        agent(AgentStatus::Done, "d2"),
        agent(AgentStatus::Working, "w1"),
        agent(AgentStatus::Blocked, "b1"),
        agent(AgentStatus::Idle, "i2"),
    ];
    sort_agents(&mut agents);
    let once = names(&agents);
    assert_eq!(once, ["b1", "d1", "d2", "w1", "i1", "i2", "u1"]);
    sort_agents(&mut agents);
    assert_eq!(names(&agents), once);
}

#[test]
fn sorting_an_empty_board() {
    let mut agents: Vec<AgentInfo> = Vec::new();
    sort_agents(&mut agents);
    assert!(agents.is_empty());
}

#[test]
fn agent_info_prefers_name_then_agent_then_terminal() {
    let mut r = raw("t1");
    assert_eq!(agent_info(r.clone(), None).display_name, "t1");
    r.agent = Some("aider".to_owned());
    assert_eq!(agent_info(r.clone(), None).display_name, "aider");
    r.name = Some("planner".to_owned());
    assert_eq!(agent_info(r, None).display_name, "planner");
}

#[test]
fn agent_info_uses_branch_only_with_a_working_directory() {
    let mut r = raw("t1");
    r.agent_status = "blocked".to_owned();
    r.terminal_title_stripped = Some("title".to_owned());
    let without_cwd = agent_info(r.clone(), Some("main".to_owned()));
    assert_eq!(without_cwd.project_name, "?");
    assert_eq!(without_cwd.git_branch, None);
    assert_eq!(without_cwd.status, AgentStatus::Blocked);
    assert_eq!(without_cwd.terminal_title_stripped.as_deref(), Some("title"));
    r.cwd = Some("/home/user/herdr".to_owned());
    let with_cwd = agent_info(r, Some("main".to_owned()));
    assert_eq!(with_cwd.project_name, "herdr");
    assert_eq!(with_cwd.git_branch.as_deref(), Some("main"));
}

#[test]
fn session_agents_keeps_herdr_order() {
    let mut a = raw("a");
    a.cwd = Some("/x/one".to_owned());
    let b = raw("b");
    let agents = session_agents(vec![a, b], vec![Some("dev".to_owned()), None]);
    assert_eq!(agents.len(), 2);
    assert_eq!(agents[0].display_name, "a");
    assert_eq!(agents[0].project_name, "one");
    assert_eq!(agents[0].git_branch.as_deref(), Some("dev"));
    assert_eq!(agents[1].display_name, "b");
    assert_eq!(agents[1].status, AgentStatus::Unknown);
}

#[test]
fn running_session_names_of_an_unreadable_list_is_empty() {
    assert!(running_session_names(None).is_empty());
    let listing = SessionListResponse {
        sessions: vec![
            SessionEntry { name: "a".to_owned(), running: false },
            SessionEntry { name: "b".to_owned(), running: true },
            SessionEntry { name: "c".to_owned(), running: true },
        ],
    };
    assert_eq!(running_session_names(Some(listing)), vec!["b", "c"]);
}

#[test]
fn named_session_only_prefixes_the_arguments() {
    let mut expected = vec!["--session", "s"];
    expected.extend(agent_list_args(None));
    assert_eq!(agent_list_args(Some("s")), expected);
}

fn run(scope: SessionScope, sessions: Vec<&str>, mut answers: Vec<Option<Vec<AgentInfo>>>) -> (Vec<Option<String>>, bool, Option<Vec<AgentInfo>>) {
    let (mut collector, mut step) = AgentCollector::collect_agents(scope);
    let mut asked = Vec::new();
    let mut listed = false;
    loop {
        step = match step {
            CollectStep::Perform(Request::ListSessions) => {
                listed = true;
                let reply = Reply::Sessions(sessions.iter().map(|s| s.to_string()).collect());
                assert!(collector.accepts(&reply));
                collector.reply(reply)
            }
            CollectStep::Perform(Request::ListAgents(session)) => {
                asked.push(session);
                let reply = Reply::Agents(answers.remove(0));
                assert!(collector.accepts(&reply));
                assert!(!collector.accepts(&Reply::Sessions(Vec::new())));
                collector.reply(reply)
            }
            CollectStep::Finished(result) => return (asked, listed, result),
        }
    }
}

#[test]
fn current_scope_asks_only_its_own_session() {
    let (asked, listed, result) = run(
        SessionScope::Current,
        vec!["x"],
        vec![Some(vec![agent(AgentStatus::Idle, "i"), agent(AgentStatus::Done, "d")])],
    );
    assert!(!listed);
    assert_eq!(asked, vec![None]);
    assert_eq!(names(&result.unwrap()), ["d", "i"]);
}

#[test]
fn no_running_session_falls_back_to_own_session() {
    let (asked, listed, result) = run(SessionScope::All, vec![], vec![None]);
    assert!(listed);
    assert_eq!(asked, vec![None]);
    assert!(result.is_none());
}

#[test]
fn all_scope_gathers_sessions_in_order_and_skips_silent_ones() {
    let (asked, _, result) = run(
        SessionScope::All,
        vec!["one", "two", "three"],
        vec![
            Some(vec![agent(AgentStatus::Working, "w1"), agent(AgentStatus::Idle, "i1")]),
            None,
            Some(vec![agent(AgentStatus::Working, "w3"), agent(AgentStatus::Blocked, "b3")]),
        ],
    );
    assert_eq!(
        asked,
        vec![Some("one".to_owned()), Some("two".to_owned()), Some("three".to_owned())]
    );
    assert_eq!(names(&result.unwrap()), ["b3", "w1", "w3", "i1"]);
}

#[test]
fn all_scope_without_any_answer_has_no_board() {
    let (_, _, result) = run(SessionScope::All, vec!["one", "two"], vec![None, None]);
    assert!(result.is_none());
    let (_, _, result) = run(SessionScope::All, vec!["one"], vec![Some(vec![])]);
    assert_eq!(result.map(|v| v.len()), Some(0));
}

#[test]
fn defaults() {
    assert_eq!(SessionScope::default(), SessionScope::All);
    assert_eq!(Position::default(), Position::TopCenter);
    assert!(HerdrState::default().agents.is_empty());
}

fn labelled(branch: Option<&str>, title: Option<&str>, status: AgentStatus) -> String {
    let mut a = agent(status, "herdr");
    a.git_branch = branch.map(str::to_owned);
    a.terminal_title_stripped = title.map(str::to_owned);
    format_label(&a)
}

#[test]
fn format_label_parts() {
    assert_eq!(labelled(None, None, AgentStatus::Idle), "herdr  [Idle]");
    assert_eq!(labelled(Some("main"), None, AgentStatus::Done), "herdr (main)  [Done]");
    assert_eq!(labelled(None, Some(""), AgentStatus::Working), "herdr  [Working]");
    assert_eq!(
        labelled(Some("dev"), Some("vim"), AgentStatus::Blocked),
        "herdr (dev)  vim  [Blocked]"
    );
}

#[test]
fn format_label_cuts_titles_after_twenty_characters() {
    assert_eq!(
        labelled(None, Some("01234567890123456789"), AgentStatus::Unknown),
        "herdr  01234567890123456789  [Unknown]"
    );
    assert_eq!(
        labelled(None, Some("012345678901234567890"), AgentStatus::Unknown),
        "herdr  01234567890123456789\u{2026}  [Unknown]"
    );
    assert_eq!(
        labelled(None, Some("日本語のタイトルはとても長くなることがあります"), AgentStatus::Idle),
        "herdr  日本語のタイトルはとても長くなることがあ\u{2026}  [Idle]"
    );
}

#[test]
fn status_colors() {
    assert_eq!(status_color(&AgentStatus::Working), Rgb { r: 80, g: 200, b: 80 });
    assert_eq!(status_color(&AgentStatus::Blocked), Rgb { r: 220, g: 180, b: 0 });
    assert_eq!(status_color(&AgentStatus::Idle), Rgb { r: 160, g: 160, b: 160 });
    assert_eq!(status_color(&AgentStatus::Unknown), Rgb { r: 160, g: 160, b: 160 });
    assert_eq!(status_color(&AgentStatus::Done), Rgb { r: 100, g: 180, b: 220 });
}

#[test]
fn positions_split_into_column_and_row() {
    assert_eq!(Position::TopLeft.horizontal(), Anchor::Start);
    assert_eq!(Position::TopLeft.vertical(), Anchor::Start);
    assert_eq!(Position::MiddleCenter.horizontal(), Anchor::Center);
    assert_eq!(Position::MiddleCenter.vertical(), Anchor::Center);
    assert_eq!(Position::BottomRight.horizontal(), Anchor::End);
    assert_eq!(Position::BottomRight.vertical(), Anchor::End);
    assert_eq!(Position::TopCenter.vertical(), Anchor::Start);
    assert_eq!(Position::BottomCenter.horizontal(), Anchor::Center);
}

#[test]
fn repaint_delays() {
    assert_eq!(repaint_delay_millis(&vec![]), 2000);
    assert_eq!(repaint_delay_millis(&vec![agent(AgentStatus::Idle, "i")]), 1000);
    assert_eq!(
        repaint_delay_millis(&vec![agent(AgentStatus::Idle, "i"), agent(AgentStatus::Working, "w")]),
        100
    );
    assert_eq!(repaint_delay_millis(&vec![agent(AgentStatus::Done, "d")]), 100);
    assert_eq!(repaint_delay_millis(&vec![agent(AgentStatus::Unknown, "u")]), 1000);
}

#[test]
fn trim_removes_unicode_white_space_at_both_ends() {
    assert_eq!(trim("  main\n"), "main");
    assert_eq!(trim("\u{3000}\u{a0}x y\t\r\n"), "x y");
    assert_eq!(trim(" \n\t "), "");
    assert_eq!(trim(""), "");
    assert_eq!(trim("a"), "a");
}

#[test]
fn parse_pid_reads_a_trimmed_decimal_i32() {
    assert_eq!(parse_pid("1234\n"), Some(1234));
    assert_eq!(parse_pid("  -5 "), Some(-5));
    assert_eq!(parse_pid("+7"), Some(7));
    assert_eq!(parse_pid("007"), Some(7));
    assert_eq!(parse_pid("12a"), None);
    assert_eq!(parse_pid(""), None);
    assert_eq!(parse_pid("-"), None);
    assert_eq!(parse_pid("+"), None);
    assert_eq!(parse_pid("2147483647"), Some(i32::MAX));
    assert_eq!(parse_pid("2147483648"), None);
    assert_eq!(parse_pid("-2147483648"), Some(i32::MIN));
    assert_eq!(parse_pid("-2147483649"), None);
    assert_eq!(parse_pid("99999999999999999999"), None);
    assert_eq!(parse_i32(" 1"), None);
    assert_eq!(parse_i32("1 2"), None);
    assert_eq!(parse_i32("\u{0661}"), None);
    for text in ["0", "42", "-1", "+3", "x", "", "2147483648", "-0", "1e3"] {
        assert_eq!(parse_i32(text), text.parse::<i32>().ok(), "{text}");
    }
}

#[test]
fn project_names_are_single_non_empty_components() {
    for cwd in ["", "/", ".", "..", "a/..", "/x/y", "x//", "./", "/a/./b/."] {
        let name = project_name(cwd);
        assert!(!name.is_empty(), "{cwd}");
        assert!(!name.contains('/'), "{cwd}");
    }
}

#[test]
fn trimming_twice_is_trimming_once() {
    for text in ["  a b  ", "\n\n", "x", "\u{2028}y\u{205f}", ""] {
        assert_eq!(trim(trim(text)), trim(text));
    }
}

#[test]
fn pulsing_rows_head_the_attention_queue() {
    for status in [
        AgentStatus::Idle,
        AgentStatus::Working,
        AgentStatus::Blocked,
        AgentStatus::Done,
        AgentStatus::Unknown,
    ] {
        assert_eq!(should_pulse(&status), status.priority() <= 1);
    }
}

#[test]
fn nine_positions_nine_places() {
    let all = [
        Position::TopLeft,
        Position::TopCenter,
        Position::TopRight,
        Position::MiddleLeft,
        Position::MiddleCenter,
        Position::MiddleRight,
        Position::BottomLeft,
        Position::BottomCenter,
        Position::BottomRight,
    ];
    for a in all {
        for b in all {
            let same_place = a.horizontal() == b.horizontal() && a.vertical() == b.vertical();
            assert_eq!(same_place, a == b);
        }
    }
}
