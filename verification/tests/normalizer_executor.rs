//! Tests of the response normalizer's layered repair and of the guardrail
//! executor's decisions.

use hermitdroid::action::{device_command, ActionExecutor, ConfirmOutcome, DeviceCommand, ExecutionPlan};
use hermitdroid::brain::{
    extract_json, parse_response, repair_truncated_json, sanitize_llm_json, AgentAction,
};

fn plain_action(ty: &str, classification: &str, params_json: Option<&str>) -> AgentAction {
    AgentAction {
        action_type: ty.to_string(),
        params: params_json.map(|j| serde_json::from_str(j).unwrap()),
        classification: classification.to_string(),
        reason: String::new(),
        x: None,
        y: None,
        text: None,
        app: None,
    }
}

#[test]
fn parse_full_response() {
    let raw = r#"{"actions": [{"type": "tap", "x": 540, "y": 150, "classification": "GREEN", "reason": "open chat"}], "reflection": "tapping", "message": null, "memory_write": null}"#;
    let resp = parse_response(raw);
    assert_eq!(resp.actions.len(), 1);
    assert_eq!(resp.actions[0].action_type, "tap");
    assert_eq!(resp.actions[0].x, Some(540));
    assert_eq!(resp.actions[0].y, Some(150));
    assert_eq!(resp.actions[0].classification, "GREEN");
    assert_eq!(resp.actions[0].reason, "open chat");
    assert_eq!(resp.reflection.as_deref(), Some("tapping"));
    assert_eq!(resp.message, None);
}

#[test]
fn parse_heartbeat_sentinel() {
    let resp = parse_response("  all quiet, HEARTBEAT_OK  ");
    assert_eq!(resp.actions.len(), 0);
    assert_eq!(resp.reflection.as_deref(), Some("HEARTBEAT_OK"));
}

#[test]
fn parse_is_idempotent() {
    // Re-parsing the same raw text yields an identical response.
    let raw = "Sure! ```json\n{\"actions\": [{\"type\": \"wait\"}], \"reflection\": \"r\"}\n``` done";
    let a = parse_response(raw);
    let b = parse_response(raw);
    assert_eq!(a.actions.len(), b.actions.len());
    assert_eq!(a.actions[0].action_type, b.actions[0].action_type);
    assert_eq!(a.reflection, b.reflection);
    assert_eq!(a.message, b.message);
    assert_eq!(a.memory_write, b.memory_write);
}

#[test]
fn parse_recovers_from_trailing_open_brace() {
    // One unbalanced trailing open brace: the repair step restores a
    // parseable document and the actions survive.
    let raw = r#"{"actions": [{"type": "tap", "x": 5, "y": 6}], "reflection": "r""#;
    let repaired = repair_truncated_json(raw);
    assert!(serde_json::from_str::<serde_json::Value>(&repaired).is_ok());
    let resp = parse_response(raw);
    assert_eq!(resp.actions.len(), 1);
    assert_eq!(resp.actions[0].action_type, "tap");
    assert_eq!(resp.actions[0].x, Some(5));
}

#[test]
fn parse_salvages_one_good_action_among_broken() {
    // The second object is malformed beyond repair; the first is salvaged
    // independently.
    let raw = r#"{"actions": [{"type": "tap", "x": 1, "y": 2}, {"type": }]}"#;
    let resp = parse_response(raw);
    assert_eq!(resp.actions.len(), 1);
    assert_eq!(resp.actions[0].action_type, "tap");
    assert_eq!(resp.actions[0].x, Some(1));
    assert_eq!(resp.reflection.as_deref(), Some("(partial response recovered)"));
}

#[test]
fn parse_last_resort_reports_prefix() {
    let resp = parse_response("no json at all here");
    assert_eq!(resp.actions.len(), 0);
    assert_eq!(resp.reflection.as_deref(), Some("no json at all here"));
}

#[test]
fn sanitize_fixes_smart_quotes_and_commas() {
    assert_eq!(sanitize_llm_json("{\u{201c}a\u{201d}: 1,}"), "{\\\"a\\\": 1}");
    assert_eq!(sanitize_llm_json("[1, 2, ]"), "[1, 2 ]");
    assert_eq!(sanitize_llm_json("a \u{2014} b\u{00a0}c"), "a - b c");
}

#[test]
fn extract_json_finds_balanced_and_fenced_spans() {
    assert_eq!(extract_json("{\"a\": {\"b\": 1}} trailing"), Some("{\"a\": {\"b\": 1}}".into()));
    assert_eq!(extract_json("text ```json\n{\"a\": 1}\n``` more"), Some("{\"a\": 1}".into()));
    assert_eq!(extract_json("prefix {\"a\": 1} suffix"), Some("{\"a\": 1}".into()));
    assert_eq!(extract_json("no braces"), None);
}

#[test]
fn missing_classification_defaults_to_green() {
    let resp = parse_response(r#"{"actions": [{"type": "wait"}]}"#);
    assert_eq!(resp.actions[0].classification, "GREEN");
    assert_eq!(resp.actions[0].reason, "");
}

#[test]
fn malformed_action_drops_whole_typed_list() {
    // One action without a "type" fails the strict list, leaving no actions,
    // as an all-or-nothing typed decode would.
    let resp = parse_response(r#"{"actions": [{"type": "tap"}, {"x": 1}], "reflection": "r"}"#);
    assert_eq!(resp.actions.len(), 0);
    assert_eq!(resp.reflection.as_deref(), Some("r"));
}

#[test]
fn restricted_app_always_queues() {
    // Declared green, auto-confirmation on: the restricted-app override
    // still queues the action for confirmation, and the decision is logged.
    let mut ex = ActionExecutor::new(false, None, vec!["com.whatsapp".to_string()]);
    let action = plain_action("launch_app", "GREEN", Some(r#"{"package": "com.whatsapp"}"#));
    let plan = ex.execute(&action);
    assert!(matches!(plan, ExecutionPlan::Pending(_)));
    assert_eq!(ex.pending().len(), 1);
    assert_eq!(ex.pending()[0].confirmed, None);
    assert_eq!(ex.pending()[0].action.action_type, "launch_app");
    assert_eq!(ex.action_log().len(), 1);
    assert!(ex.action_log()[0].result.starts_with("PENDING:"));
    assert_eq!(ex.action_log()[0].classification, "RED");
}

#[test]
fn auto_confirm_is_an_operator_option() {
    // With auto-confirmation switched off, a plain high-risk action queues
    // instead of running.
    let mut ex = ActionExecutor::new(false, None, Vec::new());
    ex.set_auto_confirm(false);
    let action = plain_action("tap", "RED", Some(r#"{"x": 1, "y": 2}"#));
    assert!(matches!(ex.execute(&action), ExecutionPlan::Pending(_)));
    assert_eq!(ex.pending().len(), 1);
    // With it on (the observed default), the same action runs immediately.
    let mut auto = ActionExecutor::new(false, None, Vec::new());
    assert!(matches!(auto.execute(&action), ExecutionPlan::Run(_)));
    assert_eq!(auto.pending().len(), 0);
}

#[test]
fn confirm_denied_never_runs_and_unknown_fails() {
    let mut ex = ActionExecutor::new(false, None, vec!["com.whatsapp".to_string()]);
    let action = plain_action("tap", "GREEN", Some(r#"{"package": "com.whatsapp", "x": 3, "y": 4}"#));
    let plan = ex.execute(&action);
    let id = match plan {
        ExecutionPlan::Pending(id) => id,
        _ => panic!("expected a pending plan"),
    };
    // An unknown identifier fails with no side effect.
    assert!(ex.confirm("nope", true).is_err());
    assert_eq!(ex.pending()[0].confirmed, None);
    // Denial records the decision, logs it, and hands back no command.
    let denied = ex.confirm(&id, false);
    assert!(matches!(denied, Ok(ConfirmOutcome::Denied)));
    assert_eq!(ex.pending()[0].confirmed, Some(false));
    let last = &ex.action_log()[ex.action_log().len() - 1];
    assert_eq!(last.classification, "RED-DENIED");
    assert_eq!(last.result, "DENIED");
    // A second decision on the same entry fails: never executed twice.
    assert!(ex.confirm(&id, false).is_err());
    assert!(ex.confirm(&id, true).is_err());
}

#[test]
fn confirm_approved_runs_exactly_once() {
    let mut ex = ActionExecutor::new(false, None, vec!["com.whatsapp".to_string()]);
    let action = plain_action("tap", "RED", Some(r#"{"package": "com.whatsapp", "x": 3, "y": 4}"#));
    let plan = ex.execute(&action);
    let id = match plan {
        ExecutionPlan::Pending(id) => id,
        _ => panic!("expected a pending plan"),
    };
    let approved = ex.confirm(&id, true);
    let cmd = match approved {
        Ok(ConfirmOutcome::Approved(cmd)) => cmd,
        _ => panic!("expected an approved command"),
    };
    match cmd {
        DeviceCommand::Adb(args) => {
            assert_eq!(args, vec!["shell", "input", "tap", "3", "4"]);
        },
        _ => panic!("expected a device shell command"),
    }
    assert_eq!(ex.pending()[0].confirmed, Some(true));
    let last = &ex.action_log()[ex.action_log().len() - 1];
    assert_eq!(last.classification, "RED-CONFIRMED");
    assert_eq!(last.result, "CONFIRMED");
    // The decision is final.
    assert!(ex.confirm(&id, true).is_err());
}

#[test]
fn green_runs_and_dry_run_simulates() {
    let mut ex = ActionExecutor::new(false, None, Vec::new());
    let action = plain_action("tap", "green", Some(r#"{"x": 540, "y": 150}"#));
    match ex.execute(&action) {
        ExecutionPlan::Run(DeviceCommand::Adb(args)) => {
            assert_eq!(args, vec!["shell", "input", "tap", "540", "150"]);
        },
        _ => panic!("expected an immediate run"),
    }
    // Dry-run mode logs a simulated execution instead.
    let mut dry = ActionExecutor::new(true, None, Vec::new());
    match dry.execute(&action) {
        ExecutionPlan::Simulated(msg) => assert!(msg.contains("DRY_RUN")),
        _ => panic!("expected a simulated run"),
    }
    assert_eq!(dry.action_log().len(), 1);
    assert_eq!(dry.action_log()[0].result, "DRY_RUN");
}

#[test]
fn unknown_classification_blocks_and_logs() {
    let mut ex = ActionExecutor::new(false, None, Vec::new());
    let action = plain_action("tap", "PURPLE", None);
    assert!(matches!(ex.execute(&action), ExecutionPlan::Blocked));
    assert_eq!(ex.pending().len(), 0);
    // The blocked decision leaves a trace.
    assert_eq!(ex.action_log().len(), 1);
    assert_eq!(ex.action_log()[0].result, "BLOCKED");
    assert_eq!(ex.action_log()[0].classification, "PURPLE");
}

#[test]
fn device_commands_by_type() {
    let wait = plain_action("wait", "GREEN", Some(r#"{"ms": 250}"#));
    assert!(matches!(device_command(&wait, "id1"), DeviceCommand::Sleep(250)));
    let back = plain_action("back", "GREEN", None);
    match device_command(&back, "id2") {
        DeviceCommand::Adb(args) => {
            assert_eq!(args, vec!["shell", "input", "keyevent", "KEYCODE_BACK"]);
        },
        _ => panic!("expected a key event"),
    }
    let typed = plain_action("type_text", "GREEN", Some(r#"{"text": "hi there"}"#));
    match device_command(&typed, "id3") {
        DeviceCommand::Adb(args) => {
            assert_eq!(args, vec!["shell", "input", "text", "hi%sthere"]);
        },
        _ => panic!("expected a text input"),
    }
    let custom = plain_action("play_music", "GREEN", None);
    match device_command(&custom, "id4") {
        DeviceCommand::Forward(da) => {
            assert_eq!(da.action_type, "play_music");
            assert_eq!(da.id, "id4");
        },
        _ => panic!("expected a forwarded action"),
    }
}

#[test]
fn effective_classification_uppercases_and_forces_red() {
    let ex = ActionExecutor::new(false, None, vec!["com.bank".to_string()]);
    let low = plain_action("tap", "yellow", None);
    assert_eq!(ex.effective_classification(&low), "YELLOW");
    let banked = plain_action("tap", "green", Some(r#"{"package": "com.bank.app"}"#));
    assert_eq!(ex.effective_classification(&banked), "RED");
}
