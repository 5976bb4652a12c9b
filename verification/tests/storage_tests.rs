use limit::{make_key, FileStorage, Timestamp, TraceFlag, TraceFlagInfo};

const SESSION: u128 = 0x01234567_89ab_4def_8123_456789abcdef;

const TRACE: u128 = 0xfedcba98_7654_4321_8fed_cba987654321;

#[test]
fn file_storage_paths_are_exact() {
    let storage = FileStorage { root: "data/test".to_string() };
    assert_eq!(storage.session_dir(SESSION), "data/test/01234567-89ab-4def-8123-456789abcdef");
    assert_eq!(
        storage.trace_path(SESSION, TRACE),
        "data/test/01234567-89ab-4def-8123-456789abcdef/trace-fedcba98-7654-4321-8fed-cba987654321.json"
    );
    assert_eq!(
        storage.rd_series_path(SESSION),
        "data/test/01234567-89ab-4def-8123-456789abcdef/rd-series.json"
    );
    assert_eq!(
        storage.provenance_path(SESSION, TRACE),
        "data/test/01234567-89ab-4def-8123-456789abcdef/prov-fedcba98-7654-4321-8fed-cba987654321.jsonl"
    );
    assert_eq!(
        storage.checkpoint_path(SESSION, TRACE),
        "data/test/01234567-89ab-4def-8123-456789abcdef/chk-fedcba98-7654-4321-8fed-cba987654321.jsonl"
    );
    assert_eq!(
        storage.trace_path(SESSION, TRACE),
        format!(
            "data/test/{}/trace-{}.json",
            uuid::Uuid::from_u128(SESSION),
            uuid::Uuid::from_u128(TRACE)
        )
    );
}

#[test]
fn storage_keys_are_exact() {
    assert_eq!(
        make_key("trace", SESSION, Some(TRACE)),
        "trace:01234567-89ab-4def-8123-456789abcdef:fedcba98-7654-4321-8fed-cba987654321"
    );
    assert_eq!(make_key("rd", SESSION, None), "rd:01234567-89ab-4def-8123-456789abcdef");
    assert_eq!(make_key("", 0, None), ":00000000-0000-0000-0000-000000000000");
}

#[test]
fn flag_requests_name_five_kinds() {
    assert_eq!(TraceFlag::from_request_name("jailbreak"), Some(TraceFlag::Jailbreak));
    assert_eq!(TraceFlag::from_request_name("anomaly"), Some(TraceFlag::Anomaly));
    assert_eq!(TraceFlag::from_request_name("high_risk"), Some(TraceFlag::HighRisk));
    assert_eq!(TraceFlag::from_request_name("unsafe"), Some(TraceFlag::Unsafe));
    assert_eq!(TraceFlag::from_request_name("malicious"), Some(TraceFlag::Malicious));
    assert_eq!(TraceFlag::from_request_name("unverified"), None);
    assert_eq!(TraceFlag::from_request_name("Jailbreak"), None);
    assert_eq!(TraceFlag::from_request_name(""), None);

    let seen = Timestamp { secs: 9, nanos: 1 };
    let info = TraceFlagInfo::requested("unsafe", "by hand".to_string(), 4, seen).unwrap();
    assert_eq!(info.flag, TraceFlag::Unsafe);
    assert_eq!(info.reason, "by hand");
    assert_eq!(info.severity, 4);
    assert_eq!(info.timestamp, seen);
    assert!(!info.auto_detected);
    assert!(TraceFlagInfo::requested("other", "r".to_string(), 4, seen).is_none());
}
