//! Tests of the shared text utilities and the smaller modules: hashing,
//! truncation, workflows, sessions, memory edits, goal helpers and the
//! tunnel state.

use hermitdroid::brain::{build_chat_prompt, build_system_prompt, build_tick_prompt, AgentAction, AgentResponse};
use hermitdroid::oneshot::{build_oneshot_step_prompt, format_action_desc, is_done};
use hermitdroid::session::{Session, SessionMessage};
use hermitdroid::simple_hash;
use hermitdroid::soul::{append_long_term_memory, BootstrapContext, SkillContext};
use hermitdroid::tailscale::{ConnectionState, TailscaleConfig, TailscaleManager};
use hermitdroid::util::{truncate, u64_to_string};
use hermitdroid::workflow::{build_effective_goal, sanitize_filename, WorkflowStep};

#[test]
fn simple_hash_is_deterministic() {
    assert_eq!(simple_hash("screen one"), simple_hash("screen one"));
    assert_ne!(simple_hash("screen one"), simple_hash("screen two"));
    assert_eq!(simple_hash(""), 0xcbf29ce484222325);
}

#[test]
fn truncate_keeps_short_and_bounds_long() {
    assert_eq!(truncate("short", 10), "short");
    let long = truncate("abcdefghij", 6);
    assert_eq!(long.chars().count(), 6);
    assert!(long.starts_with("abcde"));
}

#[test]
fn decimal_formatting_exact() {
    assert_eq!(u64_to_string(0), "0");
    assert_eq!(u64_to_string(8420), "8420");
    assert_eq!(u64_to_string(u64::MAX), "18446744073709551615");
}

#[test]
fn effective_goal_injects_form_data() {
    let step = WorkflowStep {
        app: None,
        goal: "post the update".into(),
        form_data: vec![("message".to_string(), "hello world".to_string())],
        max_steps: None,
    };
    assert_eq!(
        build_effective_goal(&step),
        "post the update\n\nContext data to use:\n  message: hello world"
    );
    let bare = WorkflowStep {
        app: None,
        goal: "just do it".into(),
        form_data: Vec::new(),
        max_steps: None,
    };
    assert_eq!(build_effective_goal(&bare), "just do it");
}

#[test]
fn sanitize_filename_maps_and_lowers() {
    assert_eq!(sanitize_filename("Slack Standup!"), "slack-standup-");
    assert_eq!(sanitize_filename("a_b-C9"), "a_b-c9");
}

#[test]
fn session_append_trims_to_window() {
    let mut s = Session {
        id: "main".into(),
        name: "Main".into(),
        created_at: "t0".into(),
        last_active: "t0".into(),
        messages: Vec::new(),
        thinking_level: None,
        model_override: None,
    };
    for i in 0..55 {
        s.append_message(
            SessionMessage { role: "user".into(), content: format!("m{}", i), timestamp: "t".into() },
            "t1".to_string(),
        );
    }
    assert_eq!(s.messages.len(), 50);
    assert_eq!(s.messages[0].content, "m5");
    assert_eq!(s.messages[49].content, "m54");
    assert_eq!(s.last_active, "t1");
    s.reset("t2".to_string());
    assert_eq!(s.messages.len(), 0);
    assert_eq!(s.last_active, "t2");
}

#[test]
fn memory_insert_under_section_and_append() {
    let content = "# Memory\n## Contacts\n- old entry\n";
    let updated = append_long_term_memory(content, "Contacts", "new entry");
    assert_eq!(updated, "# Memory\n## Contacts\n- new entry\n- old entry\n");
    let fresh = append_long_term_memory("", "Habits", "runs daily");
    assert_eq!(fresh, "\n## Habits\n- runs daily\n");
}

#[test]
fn tailscale_address_and_status() {
    let mut mgr = TailscaleManager::new(TailscaleConfig::default());
    assert!(!mgr.is_enabled());
    assert!(mgr.adb_address().is_none());
    mgr.set_resolved(
        "100.64.1.2".to_string(),
        ConnectionState::Connected { ip: "100.64.1.2".to_string(), latency_ms: Some(42) },
    );
    assert_eq!(mgr.adb_address().as_deref(), Some("100.64.1.2:5555"));
    let status = mgr.api_status(Some("100.64.1.1".to_string()), Vec::new());
    assert_eq!(status.connection_state, "connected");
    assert_eq!(status.latency_ms, Some(42));
    assert_eq!(status.adb_address.as_deref(), Some("100.64.1.2:5555"));
}

fn done_action() -> AgentAction {
    AgentAction {
        action_type: "done".into(),
        params: None,
        classification: "GREEN".into(),
        reason: "all set".into(),
        x: None,
        y: None,
        text: None,
        app: None,
    }
}

#[test]
fn is_done_by_action_or_reflection() {
    let by_action = AgentResponse {
        actions: vec![done_action()],
        reflection: None,
        message: None,
        memory_write: None,
    };
    assert!(is_done(&by_action));
    let by_reflection = AgentResponse {
        actions: Vec::new(),
        reflection: Some("The goal is complete.".into()),
        message: None,
        memory_write: None,
    };
    assert!(is_done(&by_reflection));
    let not_done = AgentResponse {
        actions: Vec::new(),
        reflection: Some("still working".into()),
        message: None,
        memory_write: None,
    };
    assert!(!is_done(&not_done));
}

#[test]
fn action_descriptions_are_compact() {
    let mut tap = done_action();
    tap.action_type = "tap".into();
    tap.x = Some(540);
    tap.y = Some(150);
    tap.reason = "open chat".into();
    assert_eq!(format_action_desc(&tap), "tap @(540,150) open chat");
    let mut typed = done_action();
    typed.action_type = "type_text".into();
    typed.text = Some("hello".into());
    assert_eq!(format_action_desc(&typed), "type \"hello\"");
}

#[test]
fn step_prompt_counts_and_warns() {
    let early = build_oneshot_step_prompt("SCREEN", "send it", 2, 20, "10:00");
    assert!(early.starts_with("Step 2/20 | 10:00\nGoal: \"send it\""));
    assert!(!early.contains("Running low on steps"));
    let late = build_oneshot_step_prompt("SCREEN", "send it", 19, 20, "10:09");
    assert!(late.contains("Running low on steps"));
    assert!(late.contains("=== CURRENT SCREEN ===\nSCREEN"));
}

#[test]
fn prompt_builders_compose_sections() {
    let ctx = BootstrapContext {
        soul: "be kind".into(),
        identity: String::new(),
        agents: String::new(),
        tools: "adb".into(),
        user: String::new(),
        heartbeat: String::new(),
        memory: String::new(),
        goals: String::new(),
        bootstrap: None,
        skills: vec![SkillContext { name: "timer".into(), content: "set timers".into() }],
    };
    let sys = build_system_prompt(&ctx, false);
    assert_eq!(
        sys,
        "--- SOUL.md ---\nbe kind\n\n--- TOOLS.md ---\nadb\n\n--- SKILL: timer ---\nset timers\n\n"
    );
    let sys_vision = build_system_prompt(&ctx, true);
    assert!(sys_vision.contains("VISION INSTRUCTIONS"));

    let tick = build_tick_prompt(
        "reply to John",
        "",
        "No new notifications.",
        "App: x",
        &vec!["say hi".to_string()],
        "12:00",
    );
    assert!(tick.starts_with("Current time: 12:00\n\n--- Active Goals ---\nreply to John\n\n"));
    assert!(tick.contains("--- User Commands ---\n- say hi\n"));
    assert!(tick.ends_with("or HEARTBEAT_OK if nothing needs attention."));

    assert_eq!(
        build_chat_prompt("m", "g", "hello"),
        "--- Long-term Memory ---\nm\n\n--- Goals ---\ng\n\nUser message: hello"
    );
}
