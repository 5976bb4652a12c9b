use limit::{GovernancePolicy, PolicyViolation, Timestamp, TraceFlag, TraceFlagInfo};

fn flag(kind: TraceFlag, severity: u8, reason: &str) -> TraceFlagInfo {
    TraceFlagInfo {
        flag: kind,
        reason: reason.to_string(),
        timestamp: Timestamp { secs: 1_700_000_000, nanos: 0 },
        severity,
        auto_detected: false,
    }
}

#[test]
fn presets_have_their_documented_gates() {
    let balanced = GovernancePolicy::default();
    assert!(balanced.block_unsafe_merge);
    assert!(balanced.require_provenance);
    assert!(balanced.block_jailbreak_traces);
    assert!(balanced.block_anomaly_traces);
    assert_eq!(balanced.max_anomaly_severity, 7);
    assert!(!balanced.require_human_review);
    assert!(balanced.auto_quarantine);
    assert!(balanced.block_malicious_traces);

    let permissive = GovernancePolicy::permissive();
    assert!(!permissive.block_unsafe_merge);
    assert!(!permissive.require_provenance);
    assert!(!permissive.block_jailbreak_traces);
    assert!(!permissive.block_anomaly_traces);
    assert_eq!(permissive.max_anomaly_severity, 10);
    assert!(!permissive.require_human_review);
    assert!(!permissive.auto_quarantine);
    assert!(!permissive.block_malicious_traces);

    let strict = GovernancePolicy::strict();
    assert!(strict.block_unsafe_merge);
    assert!(strict.require_provenance);
    assert!(strict.block_jailbreak_traces);
    assert!(strict.block_anomaly_traces);
    assert_eq!(strict.max_anomaly_severity, 5);
    assert!(strict.require_human_review);
    assert!(strict.auto_quarantine);
    assert!(strict.block_malicious_traces);
}

#[test]
fn empty_flag_list_passes_every_preset() {
    assert!(GovernancePolicy::default().validate_trace(&[]).is_ok());
    assert!(GovernancePolicy::strict().validate_trace(&[]).is_ok());
    assert!(GovernancePolicy::permissive().validate_trace(&[]).is_ok());
}

#[test]
fn default_policy_refuses_jailbreak() {
    let policy = GovernancePolicy::default();
    let flags = vec![flag(TraceFlag::Jailbreak, 3, "prompt injection")];
    let violation = policy.validate_trace(&flags).unwrap_err();
    assert_eq!(violation.flag, TraceFlag::Jailbreak);
    assert_eq!(violation.severity, 3);
    assert_eq!(violation.reason, "prompt injection");
}

#[test]
fn jailbreak_anywhere_in_the_list_is_refused_by_closed_presets() {
    let flags = vec![
        flag(TraceFlag::Anomaly, 1, "odd but harmless"),
        flag(TraceFlag::Anomaly, 2, "still harmless"),
        flag(TraceFlag::Jailbreak, 1, "hidden at the end"),
    ];
    let by_default = GovernancePolicy::default().validate_trace(&flags).unwrap_err();
    assert_eq!(by_default.flag, TraceFlag::Jailbreak);
    assert_eq!(by_default.reason, "hidden at the end");
    let by_strict = GovernancePolicy::strict().validate_trace(&flags).unwrap_err();
    assert_eq!(by_strict.flag, TraceFlag::Jailbreak);
    assert!(GovernancePolicy::permissive().validate_trace(&flags).is_ok());
}

#[test]
fn anomaly_is_refused_only_above_the_ceiling() {
    let strict = GovernancePolicy::strict();
    assert!(strict.validate_trace(&[flag(TraceFlag::Anomaly, 5, "at ceiling")]).is_ok());
    let refused = strict.validate_trace(&[flag(TraceFlag::Anomaly, 6, "above ceiling")]).unwrap_err();
    assert_eq!(refused.flag, TraceFlag::Anomaly);
    assert_eq!(refused.severity, 6);
    assert_eq!(refused.threshold, 5);
    assert_eq!(refused.reason, "above ceiling");

    let balanced = GovernancePolicy::default();
    assert!(balanced.validate_trace(&[flag(TraceFlag::Anomaly, 7, "at ceiling")]).is_ok());
    let refused = balanced.validate_trace(&[flag(TraceFlag::Anomaly, 8, "above ceiling")]).unwrap_err();
    assert_eq!(refused.severity, 8);
    assert_eq!(refused.threshold, 7);
}

#[test]
fn anomaly_gate_is_off_when_anomalies_are_not_blocked() {
    let mut policy = GovernancePolicy::default();
    policy.block_anomaly_traces = false;
    policy.max_anomaly_severity = 1;
    assert!(policy.validate_trace(&[flag(TraceFlag::Anomaly, 10, "loud")]).is_ok());
}

#[test]
fn each_binary_gate_blocks_its_flag() {
    let policy = GovernancePolicy::default();
    for kind in [
        TraceFlag::Jailbreak,
        TraceFlag::HighRisk,
        TraceFlag::Unsafe,
        TraceFlag::Unverified,
        TraceFlag::Malicious,
    ] {
        let violation = policy.validate_trace(&[flag(kind, 1, "r")]).unwrap_err();
        assert_eq!(violation.flag, kind);
        assert!(policy.is_blocked(&flag(kind, 1, "r")));
        assert!(!GovernancePolicy::permissive().is_blocked(&flag(kind, 10, "r")));
    }
}

#[test]
fn single_gates_can_be_opened_one_by_one() {
    let mut policy = GovernancePolicy::default();
    policy.block_unsafe_merge = false;
    assert!(policy.validate_trace(&[flag(TraceFlag::HighRisk, 9, "a"), flag(TraceFlag::Unsafe, 9, "b")]).is_ok());
    assert!(policy.validate_trace(&[flag(TraceFlag::Unverified, 1, "c")]).is_err());
    policy.require_provenance = false;
    assert!(policy.validate_trace(&[flag(TraceFlag::Unverified, 1, "c")]).is_ok());
    assert!(policy.validate_trace(&[flag(TraceFlag::Malicious, 1, "d")]).is_err());
    policy.block_malicious_traces = false;
    assert!(policy.validate_trace(&[flag(TraceFlag::Malicious, 1, "d")]).is_ok());
    assert!(policy.validate_trace(&[flag(TraceFlag::Jailbreak, 1, "e")]).is_err());
    policy.block_jailbreak_traces = false;
    assert!(policy.validate_trace(&[flag(TraceFlag::Jailbreak, 1, "e")]).is_ok());
}

#[test]
fn first_violation_in_recording_order_wins() {
    let policy = GovernancePolicy::default();
    let flags = vec![
        flag(TraceFlag::Anomaly, 7, "tolerated"),
        flag(TraceFlag::Unverified, 2, "no provenance"),
        flag(TraceFlag::Jailbreak, 10, "later"),
    ];
    let violation = policy.validate_trace(&flags).unwrap_err();
    assert_eq!(violation.flag, TraceFlag::Unverified);
    assert_eq!(violation.reason, "no provenance");
}

#[test]
fn violation_messages_are_exact() {
    let policy = GovernancePolicy::default();
    let text = |kind: TraceFlag, severity: u8| {
        policy.validate_trace(&[flag(kind, severity, "why")]).unwrap_err().message()
    };
    assert_eq!(text(TraceFlag::Jailbreak, 1), "Governance violation: Jailbreak detected - why");
    assert_eq!(
        text(TraceFlag::Anomaly, 9),
        "Governance violation: Anomaly severity 9 exceeds threshold 7 - why"
    );
    assert_eq!(text(TraceFlag::HighRisk, 1), "Governance violation: Unsafe operation - why");
    assert_eq!(text(TraceFlag::Unsafe, 1), "Governance violation: Unsafe operation - why");
    assert_eq!(text(TraceFlag::Unverified, 1), "Governance violation: Missing provenance - why");
    assert_eq!(
        text(TraceFlag::Malicious, 1),
        "Governance violation: Malicious activity detected - why"
    );
}

#[test]
fn violation_message_writes_numbers_in_decimal() {
    let message = |severity: u8, threshold: u8| {
        PolicyViolation { flag: TraceFlag::Anomaly, severity, threshold, reason: "r".to_string() }
            .message()
    };
    assert_eq!(message(10, 5), "Governance violation: Anomaly severity 10 exceeds threshold 5 - r");
    assert_eq!(
        message(255, 100),
        "Governance violation: Anomaly severity 255 exceeds threshold 100 - r"
    );
    assert_eq!(message(109, 0), "Governance violation: Anomaly severity 109 exceeds threshold 0 - r");
    assert_eq!(message(42, 99), "Governance violation: Anomaly severity 42 exceeds threshold 99 - r");
}

#[test]
fn decimal_text_of_every_byte() {
    for n in 0..=255u8 {
        assert_eq!(limit::format::decimal(n), n.to_string());
    }
}
