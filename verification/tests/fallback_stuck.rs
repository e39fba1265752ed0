//! Tests of the provider fallback chain and the stuck detector.

use hermitdroid::fallback::{ErrorClass, FallbackConfig, FallbackManager, ModelConfig};
use hermitdroid::stuck::{action_target_key, RecoveryAction, StuckConfig, StuckDetector, StuckStatus};

fn test_primary() -> ModelConfig {
    ModelConfig {
        backend: "openai".to_string(),
        model: "gpt-4o".to_string(),
        endpoint: "https://api.openai.com/v1".to_string(),
        api_key: "sk-test".to_string(),
        vision_enabled: true,
    }
}

fn test_fallbacks() -> Vec<ModelConfig> {
    vec![
        ModelConfig {
            backend: "groq".to_string(),
            model: "llama-3.3-70b-versatile".to_string(),
            endpoint: "https://api.groq.com/openai/v1".to_string(),
            api_key: "gsk-test".to_string(),
            vision_enabled: false,
        },
        ModelConfig {
            backend: "ollama".to_string(),
            model: "llama3.2".to_string(),
            endpoint: "http://localhost:11434/v1".to_string(),
            api_key: String::new(),
            vision_enabled: false,
        },
    ]
}

#[test]
fn test_error_classification() {
    assert_eq!(ErrorClass::classify("HTTP 429 Too Many Requests"), ErrorClass::RateLimit);
    assert_eq!(ErrorClass::classify("rate_limit_exceeded"), ErrorClass::RateLimit);
    assert_eq!(ErrorClass::classify("HTTP 401 Unauthorized"), ErrorClass::AuthError);
    assert_eq!(ErrorClass::classify("invalid api key"), ErrorClass::AuthError);
    assert_eq!(ErrorClass::classify("request timed out after 30s"), ErrorClass::Timeout);
    assert_eq!(ErrorClass::classify("HTTP 500 Internal Server Error"), ErrorClass::ServerError);
    assert_eq!(ErrorClass::classify("HTTP 400 model not found"), ErrorClass::ClientError);
    assert_eq!(ErrorClass::classify("something weird happened"), ErrorClass::Unknown);
}

#[test]
fn test_fallback_chain() {
    let config = FallbackConfig {
        fallbacks: test_fallbacks(),
        fallback_cooldown_secs: 1,
        ..Default::default()
    };
    let mut mgr = FallbackManager::new(test_primary(), config);

    assert_eq!(mgr.active_model().backend, "openai");

    let next = mgr.report_failure("HTTP 429 rate limit");
    assert!(next.is_some());
    assert_eq!(next.unwrap().backend, "groq");
    assert_eq!(mgr.active_model().backend, "groq");

    let next = mgr.report_failure("HTTP 429 too many requests");
    assert!(next.is_some());
    assert_eq!(next.unwrap().backend, "ollama");
}

#[test]
fn test_no_fallback_on_client_error() {
    let config = FallbackConfig { fallbacks: test_fallbacks(), ..Default::default() };
    let mut mgr = FallbackManager::new(test_primary(), config);

    let next = mgr.report_failure("HTTP 400 model not found");
    assert!(next.is_none());
    assert_eq!(mgr.active_model().backend, "openai");
}

#[test]
fn classify_network_and_precedence() {
    assert_eq!(ErrorClass::classify("connection refused"), ErrorClass::NetworkError);
    assert_eq!(ErrorClass::classify("DNS lookup failed"), ErrorClass::NetworkError);
    // The first matching class wins: a rate-limit pattern outranks a 400.
    assert_eq!(ErrorClass::classify("HTTP 400 rate limit"), ErrorClass::RateLimit);
    let cfg = FallbackConfig::default();
    assert!(!ErrorClass::ClientError.should_fallback(&cfg));
    assert!(ErrorClass::ServerError.should_fallback(&cfg));
    assert!(ErrorClass::NetworkError.should_fallback(&cfg));
    assert!(!ErrorClass::Unknown.should_fallback(&cfg));
}

#[test]
fn fallback_chain_wraps_to_primary_after_cooldown() {
    // Two fallbacks, a cooldown of 60 seconds, explicit clock values.
    let config = FallbackConfig {
        fallbacks: test_fallbacks(),
        fallback_cooldown_secs: 60,
        ..Default::default()
    };
    let mut mgr = FallbackManager::new(test_primary(), config);

    // Primary fails at t=0: fallback 1 activates.
    let next = mgr.report_failure_at("HTTP 429 rate limit", 1000);
    assert_eq!(next.unwrap().backend, "groq");
    // Fallback 1 fails at t=1: fallback 2 activates.
    let next = mgr.report_failure_at("HTTP 503 service unavailable", 1001);
    assert_eq!(next.unwrap().backend, "ollama");
    // Fallback 2 fails at t=2: everything is cooling down.
    let next = mgr.report_failure_at("HTTP 429 rate limit", 1002);
    assert!(next.is_none());
    assert_eq!(mgr.active_model().backend, "ollama");
    // After the cooldown elapses, the next failure wraps back to primary.
    let next = mgr.report_failure_at("HTTP 429 rate limit", 1075);
    assert_eq!(next.unwrap().backend, "openai");
    assert_eq!(mgr.active_model().backend, "openai");
}

#[test]
fn repeated_failure_renews_cooldown() {
    // Each failure re-stamps the provider's cooldown entry, so a provider
    // that failed again recently stays out of rotation even after its first
    // stamp would have expired.
    let config = FallbackConfig {
        fallbacks: test_fallbacks(),
        fallback_cooldown_secs: 60,
        ..Default::default()
    };
    let mut mgr = FallbackManager::new(test_primary(), config);
    assert_eq!(mgr.report_failure_at("429", 0).unwrap().backend, "groq");
    assert_eq!(mgr.report_failure_at("429", 10).unwrap().backend, "ollama");
    // Everything still cooling: nothing activates, the entry is renewed.
    assert!(mgr.report_failure_at("429", 50).is_none());
    // The primary's cooldown has elapsed: wrap back.
    assert_eq!(mgr.report_failure_at("429", 65).unwrap().backend, "openai");
    // Groq's stamp from t=10 has expired by t=70.
    assert_eq!(mgr.report_failure_at("429", 70).unwrap().backend, "groq");
    // Ollama was re-stamped at t=65 (not t=50), so at t=112 it still cools
    // and nothing activates.
    assert!(mgr.report_failure_at("429", 112).is_none());
    assert_eq!(mgr.active_model().backend, "groq");
}

#[test]
fn primary_recovery_switches_back() {
    let config = FallbackConfig {
        fallbacks: test_fallbacks(),
        fallback_cooldown_secs: 60,
        ..Default::default()
    };
    let mut mgr = FallbackManager::new(test_primary(), config);
    mgr.report_failure_at("HTTP 429 rate limit", 500);
    assert_eq!(mgr.active_model().backend, "groq");
    // Cooldown not yet elapsed: stay on the fallback.
    mgr.check_primary_recovery_at(510);
    assert_eq!(mgr.active_model().backend, "groq");
    // Cooldown elapsed: back to primary.
    mgr.check_primary_recovery_at(561);
    assert_eq!(mgr.active_model().backend, "openai");
}

#[test]
fn status_summary_names_active_model() {
    let config = FallbackConfig { fallbacks: test_fallbacks(), ..Default::default() };
    let mgr = FallbackManager::new(test_primary(), config);
    assert_eq!(mgr.status_summary(), "openai/gpt-4o (primary, 2 fallback(s) configured)");
    assert!(mgr.has_fallbacks());
}

fn test_config() -> StuckConfig {
    StuckConfig {
        screen_threshold: 3,
        repetition_window: 6,
        repetition_threshold: 3,
        drift_threshold: 5,
        max_recovery_attempts: 3,
        recovery_strategy: "escalate".to_string(),
    }
}

#[test]
fn test_screen_unchanged_detection() {
    let mut detector = StuckDetector::new(test_config());

    assert!(matches!(detector.check_screen(12345), StuckStatus::Continue));
    assert!(matches!(detector.check_screen(12345), StuckStatus::Continue));
    assert!(!matches!(detector.check_screen(12345), StuckStatus::Continue));
}

#[test]
fn test_screen_change_resets() {
    let mut detector = StuckDetector::new(test_config());

    detector.check_screen(111);
    detector.check_screen(111);
    detector.check_screen(222);
    detector.check_screen(222);
    assert!(matches!(detector.check_screen(222), StuckStatus::Continue));
}

#[test]
fn test_action_repetition() {
    let mut detector = StuckDetector::new(test_config());

    assert!(matches!(detector.record_action("tap", "320,480"), StuckStatus::Continue));
    assert!(matches!(detector.record_action("tap", "320,480"), StuckStatus::Continue));
    assert!(!matches!(detector.record_action("tap", "320,480"), StuckStatus::Continue));
}

#[test]
fn test_drift_detection() {
    let mut detector = StuckDetector::new(test_config());

    for _ in 0..4 {
        assert!(matches!(detector.record_action("swipe", "up"), StuckStatus::Continue));
    }
    assert!(!matches!(detector.record_action("back", ""), StuckStatus::Continue));
}

#[test]
fn test_escalation() {
    // Drive the detector through the levels with one unchanged screen: a
    // hint first, then back, then home-and-relaunch, then give-up.
    let mut detector = StuckDetector::new(test_config());
    detector.check_screen(999);
    detector.check_screen(999);
    let result = detector.check_screen(999);
    assert!(matches!(result, StuckStatus::Hint(_)));

    let result = detector.check_screen(999);
    assert!(matches!(result, StuckStatus::Recover(RecoveryAction::Back)));

    detector.check_screen(999);
    detector.check_screen(999);
    let result = detector.check_screen(999);
    assert!(matches!(result, StuckStatus::Recover(RecoveryAction::HomeAndRelaunch { .. })));

    detector.check_screen(999);
    detector.check_screen(999);
    let result = detector.check_screen(999);
    assert!(matches!(result, StuckStatus::GiveUp(_)));
    assert_eq!(detector.recovery_attempts(), 4);
}

#[test]
fn test_mixed_actions_no_false_positive() {
    let mut detector = StuckDetector::new(test_config());

    detector.record_action("tap", "100,200");
    detector.record_action("type_text", "hello");
    detector.record_action("tap", "300,400");
    detector.record_action("swipe", "up");
    detector.record_action("tap", "100,200");
    assert!(matches!(detector.record_action("back", ""), StuckStatus::Continue));
}

#[test]
fn escalation_deescalates_on_change() {
    let mut detector = StuckDetector::new(test_config());
    detector.check_screen(7);
    detector.check_screen(7);
    assert!(matches!(detector.check_screen(7), StuckStatus::Hint(_)));
    // A changed screen resets the counter and lowers the escalation level,
    // so the next stuck episode starts at a hint again.
    assert!(matches!(detector.check_screen(8), StuckStatus::Continue));
    detector.check_screen(8);
    detector.check_screen(8);
    assert!(matches!(detector.check_screen(8), StuckStatus::Hint(_)));
}

#[test]
fn reset_clears_counters() {
    let mut detector = StuckDetector::new(test_config());
    detector.record_action("tap", "1,1");
    detector.record_action("tap", "1,1");
    detector.reset();
    assert!(matches!(detector.record_action("tap", "1,1"), StuckStatus::Continue));
    assert!(matches!(detector.record_action("tap", "1,1"), StuckStatus::Continue));
    assert_eq!(detector.recovery_attempts(), 0);
}

#[test]
fn action_target_key_by_type() {
    assert_eq!(action_target_key("tap", Some(320), Some(480), None, None), "320,480");
    assert_eq!(action_target_key("tap", None, Some(480), None, None), "unknown");
    assert_eq!(
        action_target_key("type_text", None, None, Some("hello world"), None),
        "hello world"
    );
    assert_eq!(
        action_target_key("launch_app", None, None, None, Some("com.whatsapp")),
        "com.whatsapp"
    );
    assert_eq!(action_target_key("swipe", None, None, Some("up"), None), "up");
    assert_eq!(action_target_key("wait", None, None, None, None), "wait");
}
