use kiwi_core::agent::{AgentId, AgentManager, AgentManagerError, AgentState, AgentStatus};

fn sample_pty(name: &str) -> AgentState {
    let mut pty = AgentState::new();
    pty.agent_name = name.to_string();
    pty
}

#[test]
fn starts_with_one_default_session() {
    let manager = AgentManager::with_initial_agent(sample_pty("cursor"));
    assert_eq!(manager.session_count(), 1);
    assert_eq!(manager.active_id(), AgentId::first());
    assert_eq!(manager.active_session().label, "cursor");
}

#[test]
fn create_agent_adds_session_and_activates_it() {
    let mut manager = AgentManager::with_initial_agent(sample_pty("cursor"));
    let id = manager
        .create_agent(Some("tests".to_string()), Some(42))
        .expect("create");

    assert_eq!(manager.session_count(), 2);
    assert_eq!(manager.active_id(), id);
    assert_eq!(manager.active_session().label, "tests");
    assert_eq!(manager.active_session().linked_issue, Some(42));
}

#[test]
fn create_agent_respects_capacity() {
    let mut manager = AgentManager::with_initial_agent(sample_pty("cursor")).with_max_agents(2);
    manager.create_agent(None, None).expect("second");
    let err = manager.create_agent(None, None).expect_err("full");
    assert_eq!(err, AgentManagerError::AtCapacity);
}

#[test]
fn set_active_switches_pty_target() {
    let mut manager = AgentManager::with_initial_agent(sample_pty("first"));
    let second = manager
        .create_agent(Some("second".to_string()), None)
        .expect("create");
    manager.set_active(AgentId::first()).expect("switch");
    assert_eq!(manager.active_session().label, "first");
    manager.set_active(second).expect("switch back");
    assert_eq!(manager.active_session().label, "second");
}

#[test]
fn set_active_unknown_id_is_not_found() {
    let mut manager = AgentManager::with_initial_agent(sample_pty("first"));
    let err = manager.set_active(AgentId::from_u32(99)).expect_err("missing");
    assert_eq!(err, AgentManagerError::UnknownAgent(AgentId::from_u32(99)));
    assert_eq!(manager.active_id(), AgentId::first());
}

#[test]
fn remove_agent_reassigns_active_when_needed() {
    let mut manager = AgentManager::with_initial_agent(sample_pty("first"));
    let second = manager
        .create_agent(Some("second".to_string()), None)
        .expect("create");
    manager.remove_agent(second).expect("remove");
    assert_eq!(manager.session_count(), 1);
    assert_eq!(manager.active_id(), AgentId::first());
}

#[test]
fn create_then_remove_restores_session_ids() {
    let mut manager = AgentManager::with_initial_agent(sample_pty("first"));
    let before = manager.session_ids();
    let id = manager.create_agent(None, None).expect("create");
    manager.remove_agent(id).expect("remove");
    assert_eq!(manager.session_ids(), before);
}

#[test]
fn cannot_remove_last_agent() {
    let mut manager = AgentManager::with_initial_agent(sample_pty("only"));
    let err = manager.remove_agent(AgentId::first()).expect_err("last");
    assert_eq!(err, AgentManagerError::CannotRemoveLast);
}

#[test]
fn cycle_active_wraps_sessions() {
    let mut manager = AgentManager::with_initial_agent(sample_pty("first"));
    let second = manager
        .create_agent(Some("second".to_string()), None)
        .expect("create");
    assert_eq!(manager.active_id(), second);
    assert_eq!(manager.cycle_active(1), AgentId::first());
    assert_eq!(manager.cycle_active(1), second);
    assert_eq!(manager.cycle_active(-1), AgentId::first());
}

#[test]
fn status_bar_label_single_agent_uses_pty_status() {
    let mut manager = AgentManager::with_initial_agent(sample_pty("cursor"));
    manager.active_pty_mut().running = true;
    manager.active_pty_mut().status = AgentStatus::Idle;
    assert_eq!(manager.status_bar_label(), "Agent Running");
}

#[test]
fn status_bar_label_multi_agent_shows_counts() {
    let mut manager = AgentManager::with_initial_agent(sample_pty("first"));
    manager.active_pty_mut().running = true;
    manager.create_agent(None, None).expect("second");
    assert_eq!(manager.status_bar_label(), "2 Agents (1 Running)");
}
