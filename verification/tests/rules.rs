use openshell::clock::{
    clamp_millis, current_time_ms, described, elapsed_millis, elapsed_secs, signed_secs,
};
use openshell::crypto::hmac_sha256;
use openshell::discovery::{DiscoveryContext, MockDiscoveryContext};
use openshell::driver::{
    credentials_reply, Connect, ConnectEffect, ConnectReply, Driver, ErrorKind,
};
use openshell::gateway::flow::LoadResult;
use openshell::gateway::logs::{
    accept_batch, at_least_as_severe, level_matches, level_rank, source_matches, LogFilter,
};
use openshell::gateway::model::{
    PolicyRecord, PolicyStatus, PushSandboxLogsRequest, SandboxLogLine, SandboxPolicy,
};
use openshell::gateway::policy_rules::{
    deterministic_policy_hash, digest_input, policy_record_to_revision,
    validate_network_mode_unchanged, validate_static_fields_unchanged,
};
use openshell::string_map::StringMap;

// ---- maps ----

#[test]
fn map_keeps_its_keys_in_order() {
    let mut m = StringMap::new();
    for key in ["b", "", "ab", "é", "a", "z"] {
        m.insert(key.to_string(), key.len());
    }
    m.insert("a".to_string(), 10);
    let keys: Vec<&str> = (0..m.len()).map(|i| m.key_at(i).as_str()).collect();
    assert_eq!(keys, ["", "a", "ab", "b", "z", "é"]);
    assert_eq!(m.get("a"), Some(&10));
    assert_eq!(*m.value_at(5), 2);
    assert_eq!(m.get("c"), None);
    m.remove_prefix("a");
    assert_eq!(m.len(), 4);
    assert!(!m.contains_key("ab") && m.contains_key("b"));
    assert_eq!(m, m.clone());
}

// ---- discovery ----

#[test]
fn mock_context_has_what_it_was_given() {
    let context = MockDiscoveryContext::new().with_env("A", "1").with_env("A", "2");
    assert_eq!(context.env_var("A"), Some("2".to_string()));
    assert_eq!(context.env_var("B"), None);
    assert_eq!(MockDiscoveryContext::default().env_var("A"), None);
}

// ---- digests ----

#[test]
fn hmac_of_a_known_text() {
    assert_eq!(
        hmac_sha256(b"key", b"The quick brown fox jumps over the lazy dog"),
        "f7bc83f430538424b13298e6aa6fb143ef4d59a14946175997479dbc2d1a3cd8"
    );
}

// ---- time ----

#[test]
fn time_fits_its_units() {
    assert_eq!(clamp_millis(0, 12_999_999), 12);
    assert_eq!(clamp_millis(3, 999_999_999), 3_999);
    assert_eq!(clamp_millis(9_223_372_036_854_775, 807_000_000), i64::MAX);
    assert_eq!(clamp_millis(9_223_372_036_854_775, 806_999_999), i64::MAX - 1);
    assert_eq!(clamp_millis(u64::MAX, 0), i64::MAX);
    assert_eq!(signed_secs(7), Some(7));
    assert_eq!(signed_secs(u64::MAX), None);
    assert_eq!(signed_secs(i64::MAX as u64), Some(i64::MAX));
    assert!(current_time_ms().unwrap() > 1_600_000_000_000);
}

#[test]
fn time_that_cannot_be_told_is_an_error() {
    let error = || {
        let epoch = std::time::UNIX_EPOCH;
        epoch.duration_since(epoch + std::time::Duration::from_secs(1)).unwrap_err()
    };
    assert_eq!(elapsed_millis(Ok((2, 5_000_000))).unwrap(), 2_005);
    assert_eq!(elapsed_millis(Ok((u64::MAX, 0))).unwrap(), i64::MAX);
    assert_eq!(elapsed_millis(Err(error())).unwrap_err().duration().as_secs(), 1);
    assert_eq!(elapsed_secs(Ok((7, 999_999_999))), Some(7));
    assert_eq!(elapsed_secs(Ok((u64::MAX, 0))), None);
    assert_eq!(elapsed_secs(Err(error())), None);
    assert_eq!(described(Ok(3)), Ok(3));
    assert_eq!(described(Err(error())), Err(error().to_string()));
}

// ---- policies ----

fn policy(rules: &[(&str, &str)]) -> SandboxPolicy {
    let mut network_policies = StringMap::new();
    for (key, rule) in rules {
        network_policies.insert((*key).to_string(), rule.as_bytes().to_vec());
    }
    SandboxPolicy {
        version: 1,
        filesystem: Some(b"fs".to_vec()),
        landlock: None,
        process: Some(b"proc".to_vec()),
        inference: None,
        network_policies,
        extra: vec![9],
    }
}

#[test]
fn policy_digest_of_known_policies() {
    let expected = "f74941d8c4fd10297ef0f164eb3a51657b14255f272cd176f2f8bf6aacad880c";
    assert_eq!(deterministic_policy_hash(&policy(&[("a", "x"), ("b", "z")])), expected);
    assert_eq!(deterministic_policy_hash(&policy(&[("b", "z"), ("a", "x")])), expected);
    let other = SandboxPolicy {
        version: 0x0102_0304,
        filesystem: None,
        landlock: Some(b"ll".to_vec()),
        process: None,
        inference: Some(b"inf".to_vec()),
        network_policies: StringMap::new(),
        extra: vec![],
    };
    assert_eq!(
        deterministic_policy_hash(&other),
        "35b28358b9dbc78171957d41586a3bb0f00e12fdb5d1cc33d66b8c263c60f336"
    );
}

#[test]
fn digest_is_made_of_the_sections_in_order() {
    assert_eq!(
        digest_input(&policy(&[("b", "z"), ("a", "x")])),
        [&[1, 0, 0, 0][..], b"fsprocaxbz"].concat()
    );
    let mut other = policy(&[]);
    other.version = 0x0102_0304;
    other.landlock = Some(b"ll".to_vec());
    other.inference = Some(b"inf".to_vec());
    assert_eq!(digest_input(&other), [&[4, 3, 2, 1][..], b"fsllprocinf"].concat());
}

#[test]
fn unchanged_policies_pass_the_checks() {
    let (a, b) = (policy(&[("a", "x")]), policy(&[("c", "y"), ("d", "")]));
    assert!(validate_static_fields_unchanged(&a, &b).is_ok());
    assert!(validate_network_mode_unchanged(&a, &b).is_ok());
    assert!(validate_network_mode_unchanged(&policy(&[]), &policy(&[])).is_ok());
    assert!(validate_network_mode_unchanged(&a, &policy(&[])).is_err());
}

#[test]
fn reports_have_their_stored_text() {
    assert_eq!(LoadResult::Loaded.text(), "loaded");
    assert_eq!(LoadResult::Failed.text(), "failed");
}

#[test]
fn records_are_shown_as_revisions() {
    for (text, status) in [
        ("pending", PolicyStatus::Pending),
        ("loaded", PolicyStatus::Loaded),
        ("failed", PolicyStatus::Failed),
        ("superseded", PolicyStatus::Superseded),
        ("Loaded", PolicyStatus::Unspecified),
        ("", PolicyStatus::Unspecified),
    ] {
        let record = PolicyRecord {
            version: 12,
            policy: Ok(policy(&[])),
            policy_hash: "h".to_string(),
            status: text.to_string(),
            load_error: Some("e".to_string()),
            created_at_ms: 3,
            loaded_at_ms: Some(4),
        };
        let shown = policy_record_to_revision(record, true);
        assert_eq!(shown.status, status);
        assert_eq!((shown.version, shown.created_at_ms, shown.loaded_at_ms), (12, 3, 4));
        assert_eq!((shown.policy_hash.as_str(), shown.load_error.as_str()), ("h", "e"));
        assert!(shown.policy.is_some());
    }
    let broken = PolicyRecord {
        version: -3,
        policy: Err("bad".to_string()),
        policy_hash: String::new(),
        status: String::new(),
        load_error: None,
        created_at_ms: 0,
        loaded_at_ms: None,
    };
    let shown = policy_record_to_revision(broken, true);
    assert_eq!((shown.version, shown.loaded_at_ms), (0, 0));
    assert_eq!(shown.load_error, "");
    assert!(shown.policy.is_none());
}

// ---- logs ----

#[test]
fn sources_match_by_name() {
    let filters = vec!["gateway".to_string()];
    assert!(source_matches("gateway", &filters));
    assert!(source_matches("", &filters));
    assert!(!source_matches("sandbox", &filters));
    assert!(!source_matches("gateway", &vec![]));
}

#[test]
fn levels_match_by_severity() {
    assert!(level_matches("INFO", ""));
    assert!(level_matches("whatever", ""));
    assert!(level_matches("ERROR", "WARN"));
    assert!(level_matches("warn", "Warn"));
    assert!(!level_matches("info", "warn"));
    assert!(!level_matches("TRACE", "debug"));
    assert!(level_matches("CUSTOM", "INFO"));
    assert!(level_matches("whatever", "error"));
    assert!(level_matches("", "trace"));
    assert!(level_matches("whatever", "unheard-of"));
    assert!(level_matches("trace", "unheard-of"));
    // Upper case follows Unicode.
    assert!(level_matches("\u{131}nfo", "info"));
    assert_eq!(level_rank("DEBUG"), 3);
    assert_eq!(level_rank("debug"), 5);
    assert!(at_least_as_severe("WARN", "INFO"));
    assert!(at_least_as_severe("INFO", "INFO"));
    assert!(!at_least_as_severe("INFO", "WARN"));
    assert!(at_least_as_severe("info", "ERROR"));
}

fn line(source: &str, level: &str, timestamp_ms: i64) -> SandboxLogLine {
    SandboxLogLine {
        sandbox_id: "s".to_string(),
        timestamp_ms,
        level: level.to_string(),
        source: source.to_string(),
        extra: vec![7],
    }
}

#[test]
fn filters_apply_time_source_and_level() {
    let filter = LogFilter {
        since_ms: 100,
        sources: vec!["sandbox".to_string()],
        min_level: "INFO".to_string(),
    };
    assert!(filter.pass(&line("sandbox", "INFO", 100)));
    assert!(!filter.pass(&line("sandbox", "INFO", 99)));
    assert!(filter.keep(&line("sandbox", "INFO", 99)));
    assert!(!filter.keep(&line("", "INFO", 100)));
    assert!(!filter.keep(&line("sandbox", "DEBUG", 100)));
    assert!(filter.keep(&line("sandbox", "CUSTOM", 100)));
    let open = LogFilter { since_ms: 0, sources: vec![], min_level: String::new() };
    assert!(open.pass(&line("x", "y", -5)));
}

#[test]
fn batch_is_taken_in_as_the_sandboxes_own() {
    let batch = PushSandboxLogsRequest {
        sandbox_id: "me".to_string(),
        logs: vec![line("gateway", "WARN", 3)],
    };
    let taken = accept_batch(batch);
    assert_eq!(taken.len(), 1);
    assert_eq!((taken[0].source.as_str(), taken[0].sandbox_id.as_str()), ("sandbox", "me"));
    assert_eq!((taken[0].level.as_str(), taken[0].timestamp_ms), ("WARN", 3));
    assert_eq!(taken[0].extra, [7]);
}

// ---- drivers ----

#[test]
fn connection_succeeds_after_some_tries() {
    let mut at = Connect::begin();
    for _ in 0..3 {
        assert_eq!(at.effect(), Some(ConnectEffect::Attempt));
        at = at.resume(Driver::Compute, "/run/x.sock", ConnectReply::Failed("no".to_string()));
        assert_eq!(at.effect(), Some(ConnectEffect::Sleep(100)));
        at = at.resume(Driver::Compute, "/run/x.sock", ConnectReply::Slept);
    }
    assert!(at.can_take(&ConnectReply::Connected));
    assert!(!at.can_take(&ConnectReply::Slept));
    at = at.resume(Driver::Compute, "/run/x.sock", ConnectReply::Connected);
    assert_eq!(at.effect(), None);
    assert_eq!(at.finish().unwrap(), 4);
}

#[test]
fn connection_is_given_up_in_the_end() {
    for (driver, text) in [
        (
            Driver::Compute,
            "failed to connect to external compute driver socket '/s' after 10s: try 99",
        ),
        (
            Driver::Credentials,
            "failed to connect to credentials driver socket '/s' after 10s: try 99",
        ),
    ] {
        let mut at = Connect::begin();
        let mut tries = 0;
        let mut slept = 0;
        while let Some(effect) = at.effect() {
            at = match effect {
                ConnectEffect::Attempt => {
                    tries += 1;
                    at.resume(driver, "/s", ConnectReply::Failed(format!("try {}", tries - 1)))
                }
                ConnectEffect::Sleep(ms) => {
                    slept += ms;
                    at.resume(driver, "/s", ConnectReply::Slept)
                }
            };
        }
        assert_eq!((tries, slept), (100, 10_000));
        let err = at.finish().unwrap_err();
        assert_eq!(err.kind, ErrorKind::Execution);
        assert_eq!(err.message, text);
    }
}

#[test]
fn drivers_need_unix() {
    let err = Driver::Credentials.unsupported();
    assert_eq!(err.kind, ErrorKind::Config);
    assert_eq!(err.message, "credentials driver is only supported on Unix");
    assert_eq!(
        Driver::Compute.unsupported().message,
        "external compute driver is only supported on Unix"
    );
}

#[test]
fn credentials_errors_are_wrapped() {
    assert_eq!(credentials_reply(Ok(5)).unwrap(), 5);
    let err = credentials_reply::<u8>(Err("status: Unavailable".to_string())).unwrap_err();
    assert_eq!(err.kind, ErrorKind::Execution);
    assert_eq!(err.message, "credentials driver RPC failed: status: Unavailable");
}
