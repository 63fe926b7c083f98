use herdr_agents_status::status::{should_pulse, AgentStatus};

#[test]
fn should_pulse_blocked() {
    assert!(should_pulse(&AgentStatus::Blocked));
}

#[test]
fn should_pulse_done() {
    assert!(should_pulse(&AgentStatus::Done));
}

#[test]
fn should_not_pulse_working() {
    assert!(!should_pulse(&AgentStatus::Working));
}

#[test]
fn should_not_pulse_idle() {
    assert!(!should_pulse(&AgentStatus::Idle));
}

#[test]
fn should_not_pulse_unknown() {
    assert!(!should_pulse(&AgentStatus::Unknown));
}
