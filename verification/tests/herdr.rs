use herdr_agents_status::agents::{sort_agents, AgentInfo};
use herdr_agents_status::cli::{
    agent_list_args, running_session_names, SessionEntry, SessionListResponse,
};
use herdr_agents_status::path::project_name;
use herdr_agents_status::status::{parse_status, AgentStatus};

/// Reads a session list the way the board's JSON types do: `running` defaults
/// to false, anything malformed makes the whole list unreadable.
fn read_session_list(json: &str) -> Option<SessionListResponse> {
    let value: serde_json::Value = serde_json::from_str(json).ok()?;
    let mut sessions = Vec::new();
    for entry in value.get("sessions")?.as_array()? {
        let name = entry.get("name")?.as_str()?.to_string();
        let running = match entry.get("running") {
            Some(flag) => flag.as_bool()?,
            None => false,
        };
        sessions.push(SessionEntry { name, running });
    }
    Some(SessionListResponse { sessions })
}

fn parse_session_list(json: &str) -> Vec<String> {
    running_session_names(read_session_list(json))
}

#[test]
fn parse_status_variants() {
    assert_eq!(parse_status("idle"), AgentStatus::Idle);
    assert_eq!(parse_status("working"), AgentStatus::Working);
    assert_eq!(parse_status("blocked"), AgentStatus::Blocked);
    assert_eq!(parse_status("done"), AgentStatus::Done);
    assert_eq!(parse_status("???"), AgentStatus::Unknown);
}

#[test]
fn project_name_extracts_basename() {
    assert_eq!(project_name("/home/user/herdr"), "herdr");
    assert_eq!(project_name("/"), "?");
}

#[test]
fn parse_session_list_returns_running_names() {
    let json = r#"{"sessions":[
        {"default":true,"name":"default","running":true,
         "session_dir":"/x","socket_path":"/x/herdr.sock"},
        {"default":false,"name":"private","running":true,
         "session_dir":"/y","socket_path":"/y/herdr.sock"}
    ]}"#;
    assert_eq!(parse_session_list(json), vec!["default", "private"]);
}

#[test]
fn parse_session_list_skips_stopped_sessions() {
    let json = r#"{"sessions":[
        {"name":"default","running":true},
        {"name":"stopped","running":false}
    ]}"#;
    assert_eq!(parse_session_list(json), vec!["default"]);
}

#[test]
fn parse_session_list_returns_empty_on_broken_json() {
    assert!(parse_session_list("not json").is_empty());
    assert!(parse_session_list("").is_empty());
}

fn agent(status: AgentStatus, name: &str) -> AgentInfo {
    AgentInfo {
        display_name: name.to_owned(),
        status,
        project_name: name.to_owned(),
        git_branch: None,
        terminal_title_stripped: None,
    }
}

fn names(agents: &[AgentInfo]) -> Vec<&str> {
    agents.iter().map(|a| a.project_name.as_str()).collect()
}

#[test]
fn attention_priority_orders_blocked_first_and_idle_last() {
    assert!(AgentStatus::Blocked.priority() < AgentStatus::Done.priority());
    assert!(AgentStatus::Done.priority() < AgentStatus::Working.priority());
    assert!(AgentStatus::Working.priority() < AgentStatus::Idle.priority());
    assert!(AgentStatus::Idle.priority() <= AgentStatus::Unknown.priority());
}

#[test]
fn sort_agents_puts_the_ones_needing_attention_on_top() {
    let mut agents = vec![
        agent(AgentStatus::Idle, "idle"),
        agent(AgentStatus::Working, "working"),
        agent(AgentStatus::Unknown, "unknown"),
        agent(AgentStatus::Done, "done"),
        agent(AgentStatus::Blocked, "blocked"),
    ];
    sort_agents(&mut agents);
    assert_eq!(
        names(&agents),
        ["blocked", "done", "working", "idle", "unknown"]
    );
}

#[test]
fn sort_agents_keeps_original_order_within_a_status() {
    let mut agents = vec![
        agent(AgentStatus::Working, "w1"),
        agent(AgentStatus::Blocked, "b1"),
        agent(AgentStatus::Working, "w2"),
        agent(AgentStatus::Blocked, "b2"),
    ];
    sort_agents(&mut agents);
    assert_eq!(names(&agents), ["b1", "b2", "w1", "w2"]);
}

#[test]
fn agent_list_args_without_session() {
    assert_eq!(agent_list_args(None), vec!["agent", "list"]);
}

#[test]
fn agent_list_args_with_session() {
    assert_eq!(
        agent_list_args(Some("private")),
        vec!["--session", "private", "agent", "list"]
    );
}
