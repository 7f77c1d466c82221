use openshell::exec_command::ExecSandboxRequest;
use openshell::gateway::config::{resolve_gateway, Config};
use openshell::gateway::environment::{
    get_sandbox_provider_environment, resolve_provider_environment,
};
use openshell::gateway::flow::{is_answer, ClusterError, Effect, Flow, Reply};
use openshell::gateway::logs::{GetSandboxLogsRequest, LogFilter};
use openshell::gateway::model::{
    Payload, PolicyRecord, PolicyStatus, Provider, PushSandboxLogsRequest, Sandbox,
    SandboxLogLine, SandboxPhase, SandboxPolicy, SandboxRecord, SandboxSpec, SandboxStatus,
    SandboxStreamEvent, SandboxTemplate, SshSession,
};
use openshell::gateway::policy::{
    GetSandboxPolicy, ReportPolicyStatusRequest, UpdateSandboxPolicy, UpdateSandboxPolicyRequest,
};
use openshell::gateway::policy_rules::deterministic_policy_hash;
use openshell::gateway::provider::{
    create_provider_record, delete_provider_record, get_provider_record, list_provider_records,
    update_provider_record,
};
use openshell::gateway::sandbox::CreateSandboxRequest;
use openshell::gateway::service::{NavigatorService, ServerState, ServiceStatus};
use openshell::status::{Code, Status};
use openshell::string_map::StringMap;
use std::collections::BTreeMap;
use std::sync::Arc;

// ---- copies ----

fn copy_policy(p: &SandboxPolicy) -> SandboxPolicy {
    SandboxPolicy {
        version: p.version,
        filesystem: p.filesystem.clone(),
        landlock: p.landlock.clone(),
        process: p.process.clone(),
        inference: p.inference.clone(),
        network_policies: p.network_policies.clone(),
        extra: p.extra.clone(),
    }
}

fn copy_sandbox(s: &Sandbox) -> Sandbox {
    Sandbox {
        id: s.id.clone(),
        name: s.name.clone(),
        namespace: s.namespace.clone(),
        spec: s.spec.as_ref().map(|spec| SandboxSpec {
            policy: spec.policy.as_ref().map(copy_policy),
            providers: spec.providers.clone(),
            template: spec
                .template
                .as_ref()
                .map(|t| SandboxTemplate { image: t.image.clone(), extra: t.extra.clone() }),
            extra: spec.extra.clone(),
        }),
        status: s.status.as_ref().map(|status| SandboxStatus {
            agent_pod: status.agent_pod.clone(),
            extra: status.extra.clone(),
        }),
        phase: s.phase,
        created_at_ms: s.created_at_ms,
        current_policy_version: s.current_policy_version,
        extra: s.extra.clone(),
    }
}

fn copy_provider(p: &Provider) -> Provider {
    Provider {
        id: p.id.clone(),
        name: p.name.clone(),
        kind: p.kind.clone(),
        credentials: p.credentials.clone(),
        config: p.config.clone(),
    }
}

fn copy_session(s: &SshSession) -> SshSession {
    SshSession {
        id: s.id.clone(),
        sandbox_id: s.sandbox_id.clone(),
        token: s.token.clone(),
        created_at_ms: s.created_at_ms,
        revoked: s.revoked,
        name: s.name.clone(),
    }
}

fn copy_record(r: &PolicyRecord) -> PolicyRecord {
    PolicyRecord {
        version: r.version,
        policy: match &r.policy {
            Ok(p) => Ok(copy_policy(p)),
            Err(e) => Err(e.clone()),
        },
        policy_hash: r.policy_hash.clone(),
        status: r.status.clone(),
        load_error: r.load_error.clone(),
        created_at_ms: r.created_at_ms,
        loaded_at_ms: r.loaded_at_ms,
    }
}

fn copy_log(l: &SandboxLogLine) -> SandboxLogLine {
    SandboxLogLine {
        sandbox_id: l.sandbox_id.clone(),
        timestamp_ms: l.timestamp_ms,
        level: l.level.clone(),
        source: l.source.clone(),
        extra: l.extra.clone(),
    }
}

// ---- surroundings kept in memory ----

struct Memory {
    providers: BTreeMap<String, Provider>,
    sandboxes: BTreeMap<String, Sandbox>,
    sessions: BTreeMap<String, SshSession>,
    policies: BTreeMap<String, Vec<PolicyRecord>>,
    published: Vec<SandboxLogLine>,
    batches: Vec<Result<Option<PushSandboxLogsRequest>, String>>,
    tail: Vec<SandboxStreamEvent>,
    cluster_create: Option<ClusterError>,
    cluster_delete: Result<bool, String>,
    pod_ip: Result<Option<String>, String>,
    broken: Option<String>,
    log: Vec<String>,
}

impl Memory {
    fn new() -> Memory {
        Memory {
            providers: BTreeMap::new(),
            sandboxes: BTreeMap::new(),
            sessions: BTreeMap::new(),
            policies: BTreeMap::new(),
            published: vec![],
            batches: vec![],
            tail: vec![],
            cluster_create: None,
            cluster_delete: Ok(true),
            pod_ip: Ok(None),
            broken: None,
            log: vec![],
        }
    }

    fn perform(&mut self, effect: &Effect<'_>) -> Reply {
        let broken = self.broken.clone();
        reply_to(self, effect, broken)
    }

    fn run<F: Flow>(&mut self, flow: F) -> Result<F::Output, Status> {
        let mut flow = flow;
        loop {
            let reply = match flow.effect() {
                None => break,
                Some(effect) => {
                    let reply = self.perform(&effect);
                    assert!(is_answer(&effect, &reply));
                    reply
                }
            };
            flow = flow.resume(reply);
        }
        flow.finish()
    }
}

fn reply_to(m: &mut Memory, effect: &Effect<'_>, broken: Option<String>) -> Reply {
    match effect {
        Effect::GenerateName => Reply::Name("made-up".to_string()),
        Effect::SandboxById(id) => {
            m.log.push(format!("sandbox {id}"));
            match broken {
                Some(e) => Reply::Sandbox(Err(e)),
                None => Reply::Sandbox(Ok(m.sandboxes.get(*id).map(copy_sandbox))),
            }
        }
        Effect::SandboxByName(name) => match broken {
            Some(e) => Reply::Sandbox(Err(e)),
            None => Reply::Sandbox(Ok(m
                .sandboxes
                .values()
                .find(|s| s.name == **name)
                .map(copy_sandbox))),
        },
        Effect::ListSandboxes { limit, offset } => {
            m.log.push(format!("list {limit} {offset}"));
            match broken {
                Some(e) => Reply::Sandboxes(Err(e)),
                None => Reply::Sandboxes(Ok(m
                    .sandboxes
                    .values()
                    .map(|s| SandboxRecord { sandbox: Ok(copy_sandbox(s)), created_at_ms: 77 })
                    .collect())),
            }
        }
        Effect::PutSandbox(s) => {
            m.log.push(format!("put {}", s.id));
            match broken {
                Some(e) => Reply::Stored(Err(e)),
                None => {
                    m.sandboxes.insert(s.id.clone(), copy_sandbox(s));
                    Reply::Stored(Ok(()))
                }
            }
        }
        Effect::DeleteSandbox(id) => {
            m.log.push(format!("drop {id}"));
            Reply::Changed(Ok(m.sandboxes.remove(*id).is_some()))
        }
        Effect::ProviderByName(name) => match broken {
            Some(e) => Reply::Provider(Err(e)),
            None => Reply::Provider(Ok(m.providers.get(*name).map(copy_provider))),
        },
        Effect::ListProviders { limit, offset } => {
            m.log.push(format!("list {limit} {offset}"));
            match broken {
                Some(e) => Reply::Providers(Err(e)),
                None => {
                    Reply::Providers(Ok(m.providers.values().map(|p| Ok(copy_provider(p))).collect()))
                }
            }
        }
        Effect::PutProvider(p) => match broken {
            Some(e) => Reply::Stored(Err(e)),
            None => {
                m.providers.insert(p.name.clone(), copy_provider(p));
                Reply::Stored(Ok(()))
            }
        },
        Effect::DeleteProviderByName(name) => match broken {
            Some(e) => Reply::Changed(Err(e)),
            None => Reply::Changed(Ok(m.providers.remove(*name).is_some())),
        },
        Effect::SessionById(id) => match broken {
            Some(e) => Reply::Session(Err(e)),
            None => Reply::Session(Ok(m.sessions.get(*id).map(copy_session))),
        },
        Effect::PutSession(s) => {
            m.sessions.insert(s.id.clone(), copy_session(s));
            Reply::Stored(Ok(()))
        }
        Effect::LatestPolicy(id) | Effect::PolicyToRevise { sandbox_id: id, .. } => {
            Reply::Policy(Ok(m.policies.get(*id).and_then(|h| h.last()).map(copy_record)))
        }
        Effect::PolicyByVersion { sandbox_id, version } => Reply::Policy(Ok(m
            .policies
            .get(*sandbox_id)
            .and_then(|h| h.iter().find(|r| r.version == *version))
            .map(copy_record))),
        Effect::ListPolicies { sandbox_id, limit, offset } => {
            m.log.push(format!("policies {limit} {offset}"));
            Reply::Policies(Ok(m
                .policies
                .get(*sandbox_id)
                .map(|h| h.iter().map(copy_record).collect())
                .unwrap_or_default()))
        }
        Effect::PutPolicyRevision { sandbox_id, version, policy, hash, .. } => {
            m.policies.entry((*sandbox_id).clone()).or_default().push(PolicyRecord {
                version: *version,
                policy: Ok(copy_policy(policy)),
                policy_hash: (*hash).clone(),
                status: "pending".to_string(),
                load_error: None,
                created_at_ms: 5,
                loaded_at_ms: None,
            });
            Reply::Stored(Ok(()))
        }
        Effect::UpdatePolicyStatus { sandbox_id, version, result, load_error, loaded_at_ms } => {
            let found = m
                .policies
                .get_mut(*sandbox_id)
                .and_then(|h| h.iter_mut().find(|r| r.version == *version));
            match found {
                None => Reply::Changed(Ok(false)),
                Some(record) => {
                    record.status = result.text().to_string();
                    record.load_error = load_error.cloned();
                    record.loaded_at_ms = *loaded_at_ms;
                    Reply::Changed(Ok(true))
                }
            }
        }
        Effect::SupersedeOlderPolicies { sandbox_id, version } => {
            for record in m.policies.entry((*sandbox_id).clone()).or_default() {
                if record.version < *version && record.status == "pending" {
                    record.status = "superseded".to_string();
                }
            }
            Reply::Stored(Ok(()))
        }
        Effect::IndexSandbox(s) => {
            m.log.push(format!("index {}", s.id));
            Reply::Done
        }
        Effect::UnindexSandbox(id) => {
            m.log.push(format!("unindex {id}"));
            Reply::Done
        }
        Effect::Notify(id) => {
            m.log.push(format!("notify {id}"));
            Reply::Done
        }
        Effect::CreateInCluster(s) => {
            m.log.push(format!("create {}", s.name));
            match m.cluster_create.take() {
                None => Reply::Created(Ok(())),
                Some(e) => Reply::Created(Err(e)),
            }
        }
        Effect::DeleteInCluster(name) => {
            m.log.push(format!("delete {name}"));
            Reply::Changed(m.cluster_delete.clone())
        }
        Effect::AgentPodIp(_) => Reply::PodIp(m.pod_ip.clone()),
        Effect::Tail { sandbox_id, lines } => {
            m.log.push(format!("tail {sandbox_id} {lines}"));
            Reply::Events(std::mem::take(&mut m.tail))
        }
        Effect::NextLogBatch => Reply::LogBatch(m.batches.remove(0)),
        Effect::PublishLogs(logs) => {
            m.published.extend(logs.iter().map(copy_log));
            Reply::Done
        }
    }
}

// ---- samples ----

fn map(entries: &[(&str, &str)]) -> StringMap<String> {
    let mut m = StringMap::new();
    for (key, value) in entries {
        m.insert((*key).to_string(), (*value).to_string());
    }
    m
}

fn provider(name: &str, kind: &str, credentials: &[(&str, &str)]) -> Provider {
    Provider {
        id: String::new(),
        name: name.to_string(),
        kind: kind.to_string(),
        credentials: map(credentials),
        config: map(&[]),
    }
}

fn provider_with_values(name: &str, provider_type: &str) -> Provider {
    Provider {
        id: String::new(),
        name: name.to_string(),
        kind: provider_type.to_string(),
        credentials: map(&[("API_TOKEN", "token-123"), ("SECONDARY", "secondary-token")]),
        config: map(&[("endpoint", "https://example.com"), ("region", "us-west")]),
    }
}

fn policy(rules: &[(&str, &str)]) -> SandboxPolicy {
    let mut network_policies = StringMap::new();
    for (key, rule) in rules {
        network_policies.insert((*key).to_string(), rule.as_bytes().to_vec());
    }
    SandboxPolicy {
        version: 1,
        filesystem: Some(b"fs".to_vec()),
        landlock: None,
        process: Some(b"proc".to_vec()),
        inference: None,
        network_policies,
        extra: vec![],
    }
}

fn spec(providers: &[&str], policy: Option<SandboxPolicy>) -> SandboxSpec {
    SandboxSpec {
        policy,
        providers: providers.iter().map(|p| (*p).to_string()).collect(),
        template: None,
        extra: vec![],
    }
}

fn sandbox(id: &str, name: &str, spec: Option<SandboxSpec>, phase: SandboxPhase) -> Sandbox {
    Sandbox {
        id: id.to_string(),
        name: name.to_string(),
        namespace: "default".to_string(),
        spec,
        status: None,
        phase,
        created_at_ms: 0,
        current_policy_version: 0,
        extra: vec![],
    }
}

fn config() -> Config {
    Config {
        bind_host: "10.0.0.1".to_string(),
        bind_port: 8080,
        ssh_gateway_host: String::new(),
        ssh_gateway_port: 0,
        ssh_connect_path: "/connect/ssh".to_string(),
        ssh_handshake_secret: "hush".to_string(),
        sandbox_namespace: "agents".to_string(),
        sandbox_ssh_port: 2222,
    }
}

fn service() -> NavigatorService {
    NavigatorService::new(Arc::new(ServerState {
        config: config(),
        default_image: "base:1".to_string(),
        version: "9.9.9".to_string(),
    }))
}

fn is_uuid(text: &str) -> bool {
    text.len() == 36
        && text.char_indices().all(|(i, c)| match i {
            8 | 13 | 18 | 23 => c == '-',
            14 => c == '4',
            19 => "89ab".contains(c),
            _ => c.is_ascii_digit() || ('a'..='f').contains(&c),
        })
}

// ---- providers ----

#[test]
fn provider_crud_round_trip_and_semantics() {
    let mut store = Memory::new();

    let persisted =
        store.run(create_provider_record(provider_with_values("gitlab-local", "gitlab"))).unwrap();
    assert_eq!(persisted.name, "gitlab-local");
    assert_eq!(persisted.kind, "gitlab");
    assert!(!persisted.id.is_empty());
    let provider_id = persisted.id.clone();

    let duplicate_err = store
        .run(create_provider_record(provider_with_values("gitlab-local", "gitlab")))
        .unwrap_err();
    assert_eq!(duplicate_err.code(), Code::AlreadyExists);

    let loaded = store.run(get_provider_record("gitlab-local".to_string())).unwrap();
    assert_eq!(loaded.id, provider_id);

    let listed = store.run(list_provider_records(100, 0)).unwrap();
    assert_eq!(listed.len(), 1);
    assert_eq!(listed[0].name, "gitlab-local");

    let updated = store
        .run(update_provider_record(Provider {
            id: String::new(),
            name: "gitlab-local".to_string(),
            kind: "gitlab".to_string(),
            credentials: map(&[("API_TOKEN", "rotated-token")]),
            config: map(&[("endpoint", "https://gitlab.com")]),
        }))
        .unwrap();
    assert_eq!(updated.id, provider_id);
    assert_eq!(updated.credentials.get("API_TOKEN"), Some(&"rotated-token".to_string()));

    let deleted = store.run(delete_provider_record("gitlab-local".to_string())).unwrap();
    assert!(deleted);

    let deleted_again = store.run(delete_provider_record("gitlab-local".to_string())).unwrap();
    assert!(!deleted_again);

    let missing = store.run(get_provider_record("gitlab-local".to_string())).unwrap_err();
    assert_eq!(missing.code(), Code::NotFound);
}

#[test]
fn created_providers_are_listed() {
    let mut store = Memory::new();
    let first = store.run(create_provider_record(provider_with_values("b", "gitlab"))).unwrap();
    let second = store.run(create_provider_record(provider_with_values("a", "github"))).unwrap();
    let listed = store.run(list_provider_records(2, 0)).unwrap();
    assert_eq!(listed.len(), 2);
    for created in [first, second] {
        let found = listed.iter().find(|p| p.id == created.id).unwrap();
        assert_eq!((&found.name, &found.kind), (&created.name, &created.kind));
        assert_eq!(
            found.credentials.get("API_TOKEN"),
            created.credentials.get("API_TOKEN")
        );
        assert_eq!(found.config.get("endpoint"), created.config.get("endpoint"));
    }
}

#[test]
fn provider_validation_errors() {
    let mut store = Memory::new();

    let create_missing_type =
        store.run(create_provider_record(provider("bad-provider", "", &[]))).unwrap_err();
    assert_eq!(create_missing_type.code(), Code::InvalidArgument);

    let get_err = store.run(get_provider_record(String::new())).unwrap_err();
    assert_eq!(get_err.code(), Code::InvalidArgument);

    let delete_err = store.run(delete_provider_record(String::new())).unwrap_err();
    assert_eq!(delete_err.code(), Code::InvalidArgument);

    let update_missing_err =
        store.run(update_provider_record(provider("missing", "gitlab", &[]))).unwrap_err();
    assert_eq!(update_missing_err.code(), Code::NotFound);
}

#[test]
fn provider_without_a_name_is_given_one() {
    let mut store = Memory::new();
    let made = store.run(create_provider_record(provider("", "assistant", &[("K", "v")]))).unwrap();
    assert_eq!(made.name, "made-up");
    assert!(is_uuid(&made.id));
    assert!(store.providers.contains_key("made-up"));
}

#[test]
fn provider_errors_say_what_is_wrong() {
    let mut store = Memory::new();
    let blank =
        store.run(create_provider_record(provider("p", " \t\u{3000}", &[("K", "v")]))).unwrap_err();
    assert_eq!(blank.message(), "provider.type is required");
    let bare = store.run(create_provider_record(provider("p", "t", &[]))).unwrap_err();
    assert_eq!(bare.message(), "provider.credentials must not be empty");
    let nameless = store.run(update_provider_record(provider("", "t", &[]))).unwrap_err();
    assert_eq!(nameless.message(), "provider.name is required");
    let typeless = store.run(update_provider_record(provider("p", "  ", &[]))).unwrap_err();
    assert_eq!(typeless.message(), "provider.type is required");

    store.broken = Some("disk on fire".to_string());
    let flow = create_provider_record(provider("p", "t", &[("K", "v")]));
    let err = store.run(flow).unwrap_err();
    assert_eq!(err.code(), Code::Internal);
    assert_eq!(err.message(), "fetch provider failed: disk on fire");
    let err = store.run(list_provider_records(1, 2)).unwrap_err();
    assert_eq!(err.message(), "list providers failed: disk on fire");
    let err = store.run(delete_provider_record("p".to_string())).unwrap_err();
    assert_eq!(err.message(), "delete provider failed: disk on fire");
    let err = store.run(get_provider_record("p".to_string())).unwrap_err();
    assert_eq!(err.message(), "fetch provider failed: disk on fire");
}

#[test]
fn provider_that_cannot_be_stored_is_reported() {
    let flow = create_provider_record(provider("p", "t", &[("K", "v")]));
    let flow = flow.resume(Reply::Provider(Ok(None)));
    let flow = flow.resume(Reply::Stored(Err("full".to_string())));
    assert_eq!(flow.finish().unwrap_err().message(), "persist provider failed: full");

    let flow = update_provider_record(provider("p", "t", &[]));
    let flow = flow.resume(Reply::Provider(Ok(Some(provider("p", "old", &[])))));
    let flow = flow.resume(Reply::Stored(Err("full".to_string())));
    assert_eq!(flow.finish().unwrap_err().message(), "persist provider failed: full");
}

#[test]
fn first_provider_that_cannot_be_decoded_is_reported() {
    let flow = list_provider_records(10, 0);
    let flow = flow.resume(Reply::Providers(Ok(vec![
        Ok(provider("a", "t", &[])),
        Err("bad wire type".to_string()),
        Err("later".to_string()),
    ])));
    let err = flow.finish().unwrap_err();
    assert_eq!(err.code(), Code::Internal);
    assert_eq!(err.message(), "decode provider failed: bad wire type");
}

#[test]
fn provider_requests_need_a_provider() {
    let mut store = Memory::new();
    let err = store.run(service().create_provider(None)).unwrap_err();
    assert_eq!(err.message(), "provider is required");
    let err = store.run(service().update_provider(None)).unwrap_err();
    assert_eq!(err.message(), "provider is required");
    let made =
        store.run(service().create_provider(Some(provider("p", "t", &[("K", "v")])))).unwrap();
    assert_eq!(store.run(service().get_provider("p".to_string())).unwrap().id, made.id);
    assert_eq!(store.run(service().list_providers(0, 3)).unwrap().len(), 1);
    assert_eq!(store.log.last().unwrap(), "list 100 3");
    store.run(service().list_providers(7, 0)).unwrap();
    assert_eq!(store.log.last().unwrap(), "list 7 0");
    let changed = store.run(service().update_provider(Some(provider("p", "u", &[])))).unwrap();
    assert_eq!((changed.id, changed.kind), (made.id, "u".to_string()));
    assert!(store.run(service().delete_provider("p".to_string())).unwrap());
}

// ---- environments ----

fn names(list: &[&str]) -> Vec<String> {
    list.iter().map(|n| (*n).to_string()).collect()
}

#[test]
fn resolve_provider_env_empty_list_returns_empty() {
    let mut store = Memory::new();
    let result = store.run(resolve_provider_environment(vec![])).unwrap();
    assert!(result.is_empty());
}

#[test]
fn resolve_provider_env_injects_credentials() {
    let mut store = Memory::new();
    let mut assistant = provider(
        "assistant-local",
        "assistant",
        &[("ANTHROPIC_API_KEY", "sk-abc"), ("CLAUDE_API_KEY", "sk-abc")],
    );
    assistant.config = map(&[("endpoint", "https://api.anthropic.com")]);
    store.run(create_provider_record(assistant)).unwrap();

    let result = store.run(resolve_provider_environment(names(&["assistant-local"]))).unwrap();
    assert_eq!(result.get("ANTHROPIC_API_KEY"), Some(&"sk-abc".to_string()));
    assert_eq!(result.get("CLAUDE_API_KEY"), Some(&"sk-abc".to_string()));
    assert!(!result.contains_key("endpoint"));
}

#[test]
fn resolve_provider_env_unknown_name_returns_error() {
    let mut store = Memory::new();
    let err = store.run(resolve_provider_environment(names(&["nonexistent"]))).unwrap_err();
    assert_eq!(err.code(), Code::FailedPrecondition);
    assert!(err.message().contains("nonexistent"));
}

#[test]
fn resolve_provider_env_skips_invalid_credential_keys() {
    let mut store = Memory::new();
    store
        .run(create_provider_record(provider(
            "test-provider",
            "test",
            &[("VALID_KEY", "value"), ("nested.api_key", "should-skip"), ("bad-key", "should-skip")],
        )))
        .unwrap();

    let result = store.run(resolve_provider_environment(names(&["test-provider"]))).unwrap();
    assert_eq!(result.get("VALID_KEY"), Some(&"value".to_string()));
    assert!(!result.contains_key("nested.api_key"));
    assert!(!result.contains_key("bad-key"));
}

#[test]
fn resolve_provider_env_multiple_providers_merge() {
    let mut store = Memory::new();
    store
        .run(create_provider_record(provider(
            "assistant-local",
            "assistant",
            &[("ANTHROPIC_API_KEY", "sk-abc")],
        )))
        .unwrap();
    store
        .run(create_provider_record(provider(
            "gitlab-local",
            "gitlab",
            &[("GITLAB_TOKEN", "glpat-xyz")],
        )))
        .unwrap();

    let result = store
        .run(resolve_provider_environment(names(&["assistant-local", "gitlab-local"])))
        .unwrap();
    assert_eq!(result.get("ANTHROPIC_API_KEY"), Some(&"sk-abc".to_string()));
    assert_eq!(result.get("GITLAB_TOKEN"), Some(&"glpat-xyz".to_string()));
}

#[test]
fn resolve_provider_env_first_credential_wins_on_duplicate_key() {
    let mut store = Memory::new();
    store
        .run(create_provider_record(provider("provider-a", "assistant", &[("SHARED_KEY", "first-value")])))
        .unwrap();
    store
        .run(create_provider_record(provider("provider-b", "gitlab", &[("SHARED_KEY", "second-value")])))
        .unwrap();

    let result =
        store.run(resolve_provider_environment(names(&["provider-a", "provider-b"]))).unwrap();
    assert_eq!(result.get("SHARED_KEY"), Some(&"first-value".to_string()));
}

#[test]
fn handler_flow_resolves_credentials_from_sandbox_providers() {
    let mut store = Memory::new();
    store
        .run(create_provider_record(provider("my-assistant", "assistant", &[("ANTHROPIC_API_KEY", "sk-test")])))
        .unwrap();
    let stored =
        sandbox("sandbox-001", "test-sandbox", Some(spec(&["my-assistant"], None)), SandboxPhase::Ready);
    store.sandboxes.insert("sandbox-001".to_string(), stored);

    let env =
        store.run(get_sandbox_provider_environment("sandbox-001".to_string())).unwrap();
    assert_eq!(env.get("ANTHROPIC_API_KEY"), Some(&"sk-test".to_string()));
}

#[test]
fn handler_flow_returns_empty_when_no_providers() {
    let mut store = Memory::new();
    let stored = sandbox("sandbox-002", "empty-sandbox", Some(spec(&[], None)), SandboxPhase::Ready);
    store.sandboxes.insert("sandbox-002".to_string(), stored);
    let env =
        store.run(get_sandbox_provider_environment("sandbox-002".to_string())).unwrap();
    assert!(env.is_empty());
}

#[test]
fn handler_flow_returns_none_for_unknown_sandbox() {
    let mut store = Memory::new();
    let err = store
        .run(service().get_sandbox_provider_environment("nonexistent".to_string()))
        .unwrap_err();
    assert_eq!(err.code(), Code::NotFound);
}

#[test]
fn environment_errors_say_what_is_wrong() {
    let mut store = Memory::new();
    store.sandboxes.insert("s".to_string(), sandbox("s", "s", None, SandboxPhase::Ready));
    let err = store.run(get_sandbox_provider_environment("s".to_string())).unwrap_err();
    assert_eq!((err.code(), err.message()), (Code::Internal, "sandbox has no spec"));
    let err = store.run(resolve_provider_environment(names(&["gone"]))).unwrap_err();
    assert_eq!(err.message(), "provider 'gone' not found");
    store.broken = Some("locked".to_string());
    let err = store.run(resolve_provider_environment(names(&["gone"]))).unwrap_err();
    assert_eq!(err.message(), "failed to fetch provider 'gone': locked");
    let err = store.run(get_sandbox_provider_environment("s".to_string())).unwrap_err();
    assert_eq!(err.message(), "fetch sandbox failed: locked");
}

// ---- sandboxes ----

#[test]
fn health_is_reported() {
    let health = service().clone().health();
    assert_eq!(health.status, ServiceStatus::Healthy);
    assert_eq!(health.version, "9.9.9");
}

#[test]
fn sandbox_is_created_in_order() {
    let mut store = Memory::new();
    store.run(create_provider_record(provider("assistant", "assistant", &[("K", "v")]))).unwrap();
    let request = CreateSandboxRequest {
        name: "box".to_string(),
        spec: Some(spec(&["assistant"], Some(policy(&[])))),
    };
    let made = store.run(service().create_sandbox(request)).unwrap();
    assert!(is_uuid(&made.id));
    assert_eq!(made.name, "box");
    assert_eq!(made.namespace, "agents");
    assert_eq!(made.phase, SandboxPhase::Provisioning);
    assert_eq!(made.spec.as_ref().unwrap().template.as_ref().unwrap().image, "base:1");
    let id = made.id.clone();
    assert_eq!(
        store.log,
        vec![
            format!("index {id}"),
            format!("put {id}"),
            format!("notify {id}"),
            "create box".to_string(),
        ]
    );
    assert_eq!(store.sandboxes[&id].name, "box");
    let found = store.run(service().get_sandbox("box".to_string())).unwrap();
    assert_eq!(found.id, id);
}

#[test]
fn sandbox_without_a_name_is_named_after_its_id() {
    let mut store = Memory::new();
    let mut given = spec(&[], Some(policy(&[])));
    given.template = Some(SandboxTemplate { image: "mine:2".to_string(), extra: vec![1] });
    let request = CreateSandboxRequest { name: String::new(), spec: Some(given) };
    let made = store.run(service().create_sandbox(request)).unwrap();
    assert_eq!(made.name, format!("sandbox-{}", made.id));
    let template = made.spec.unwrap().template.unwrap();
    assert_eq!((template.image, template.extra), ("mine:2".to_string(), vec![1]));
}

#[test]
fn created_sandbox_can_be_read_by_its_name() {
    let mut store = Memory::new();
    let request = CreateSandboxRequest {
        name: "box".to_string(),
        spec: Some(spec(&[], Some(policy(&[])))),
    };
    let created = store.run(service().create_sandbox(request)).unwrap();
    let found = store.run(service().get_sandbox("box".to_string())).unwrap();
    assert_eq!((found.id, found.phase), (created.id, SandboxPhase::Provisioning));
    assert_eq!(
        found.spec.unwrap().template.unwrap().image,
        created.spec.unwrap().template.unwrap().image
    );
}

#[test]
fn created_sandbox_is_listed() {
    let mut store = Memory::new();
    store.sandboxes.insert("a".to_string(), sandbox("a", "a", None, SandboxPhase::Ready));
    let request = CreateSandboxRequest {
        name: "box".to_string(),
        spec: Some(spec(&[], Some(policy(&[])))),
    };
    let created = store.run(service().create_sandbox(request)).unwrap();
    let listed = store.run(service().list_sandboxes(2, 0)).unwrap();
    assert_eq!(listed.len(), 2);
    let found = listed.iter().find(|s| s.id == created.id).unwrap();
    assert_eq!((found.name.as_str(), found.phase), ("box", SandboxPhase::Provisioning));
    assert_eq!(found.namespace, created.namespace);
    assert_eq!(found.created_at_ms, 77);
}

#[test]
fn sandbox_requests_are_checked() {
    let mut store = Memory::new();
    let request = CreateSandboxRequest { name: "b".to_string(), spec: None };
    let err = store.run(service().create_sandbox(request)).unwrap_err();
    assert_eq!((err.code(), err.message()), (Code::InvalidArgument, "spec is required"));
    let request = CreateSandboxRequest { name: "b".to_string(), spec: Some(spec(&[], None)) };
    let err = store.run(service().create_sandbox(request)).unwrap_err();
    assert_eq!((err.code(), err.message()), (Code::InvalidArgument, "spec.policy is required"));
    let request = CreateSandboxRequest {
        name: "b".to_string(),
        spec: Some(spec(&["nobody"], Some(policy(&[])))),
    };
    let err = store.run(service().create_sandbox(request)).unwrap_err();
    assert_eq!(
        (err.code(), err.message()),
        (Code::FailedPrecondition, "provider 'nobody' not found")
    );
    assert!(store.sandboxes.is_empty());
    assert!(store.log.is_empty());
}

#[test]
fn refused_sandbox_leaves_nothing_behind() {
    for (code, expected) in [
        (Some(409), (Code::AlreadyExists, "sandbox already exists")),
        (Some(500), (Code::Internal, "create sandbox in kubernetes failed: boom")),
        (None, (Code::Internal, "create sandbox in kubernetes failed: boom")),
    ] {
        let mut store = Memory::new();
        store.cluster_create = Some(ClusterError { api_code: code, message: "boom".to_string() });
        let request = CreateSandboxRequest {
            name: "box".to_string(),
            spec: Some(spec(&[], Some(policy(&[])))),
        };
        let err = store.run(service().create_sandbox(request)).unwrap_err();
        assert_eq!((err.code(), err.message()), expected);
        assert!(store.sandboxes.is_empty());
        let steps: Vec<&str> = store.log.iter().map(|l| l.split(' ').next().unwrap()).collect();
        assert_eq!(steps, ["index", "put", "notify", "create", "drop", "unindex", "notify"]);
    }
}

#[test]
fn sandbox_that_cannot_be_stored_is_reported() {
    let mut store = Memory::new();
    store.broken = Some("full".to_string());
    let request = CreateSandboxRequest {
        name: "box".to_string(),
        spec: Some(spec(&[], Some(policy(&[])))),
    };
    let err = store.run(service().create_sandbox(request)).unwrap_err();
    assert_eq!((err.code(), err.message()), (Code::Internal, "persist sandbox failed: full"));
    let request = CreateSandboxRequest {
        name: "box".to_string(),
        spec: Some(spec(&["p"], Some(policy(&[])))),
    };
    let err = store.run(service().create_sandbox(request)).unwrap_err();
    assert_eq!(err.message(), "fetch provider failed: full");
}

#[test]
fn sandbox_lookup_errors() {
    let mut store = Memory::new();
    let err = store.run(service().get_sandbox(String::new())).unwrap_err();
    assert_eq!((err.code(), err.message()), (Code::InvalidArgument, "name is required"));
    let err = store.run(service().get_sandbox("x".to_string())).unwrap_err();
    assert_eq!((err.code(), err.message()), (Code::NotFound, "sandbox not found"));
    store.broken = Some("e".to_string());
    let err = store.run(service().get_sandbox("x".to_string())).unwrap_err();
    assert_eq!((err.code(), err.message()), (Code::Internal, "fetch sandbox failed: e"));
}

#[test]
fn sandboxes_are_listed_with_their_creation_time() {
    let mut store = Memory::new();
    store.sandboxes.insert("a".to_string(), sandbox("a", "a", None, SandboxPhase::Ready));
    let listed = store.run(service().list_sandboxes(0, 4)).unwrap();
    assert_eq!(listed.len(), 1);
    assert_eq!(listed[0].created_at_ms, 77);
    assert_eq!(store.log.last().unwrap(), "list 100 4");

    let flow = service().list_sandboxes(3, 0).resume(Reply::Sandboxes(Ok(vec![SandboxRecord {
        sandbox: Err("garbage".to_string()),
        created_at_ms: 1,
    }])));
    assert_eq!(flow.finish().unwrap_err().message(), "decode sandbox failed: garbage");
    store.broken = Some("e".to_string());
    let err = store.run(service().list_sandboxes(3, 0)).unwrap_err();
    assert_eq!(err.message(), "list sandboxes failed: e");
}

#[test]
fn sandbox_is_deleted_in_order() {
    let mut store = Memory::new();
    store.sandboxes.insert("i".to_string(), sandbox("i", "n", None, SandboxPhase::Ready));
    assert!(store.run(service().delete_sandbox("n".to_string())).unwrap());
    assert_eq!(store.log, ["put i", "index i", "notify i", "delete n"]);
    assert_eq!(store.sandboxes["i"].phase, SandboxPhase::Deleting);
}

#[test]
fn sandbox_that_the_cluster_does_not_know_is_dropped() {
    let mut store = Memory::new();
    store.cluster_delete = Ok(false);
    store.sandboxes.insert("i".to_string(), sandbox("i", "n", None, SandboxPhase::Ready));
    assert!(!store.run(service().delete_sandbox("n".to_string())).unwrap());
    assert_eq!(store.log.last().unwrap(), "drop i");
    assert!(store.sandboxes.is_empty());
}

#[test]
fn sandbox_deletion_errors() {
    let mut store = Memory::new();
    let err = store.run(service().delete_sandbox(String::new())).unwrap_err();
    assert_eq!(err.message(), "name is required");
    let err = store.run(service().delete_sandbox("n".to_string())).unwrap_err();
    assert_eq!(err.code(), Code::NotFound);
    store.cluster_delete = Err("boom".to_string());
    store.sandboxes.insert("i".to_string(), sandbox("i", "n", None, SandboxPhase::Ready));
    let err = store.run(service().delete_sandbox("n".to_string())).unwrap_err();
    assert_eq!(err.message(), "delete sandbox in kubernetes failed: boom");
    assert_eq!(store.sandboxes["i"].phase, SandboxPhase::Deleting);
}

// ---- policies ----

fn store_with_policy(rules: &[(&str, &str)]) -> Memory {
    let mut store = Memory::new();
    let stored = sandbox("i", "n", Some(spec(&[], Some(policy(rules)))), SandboxPhase::Ready);
    store.sandboxes.insert("i".to_string(), stored);
    store
}

fn update(policy: SandboxPolicy) -> UpdateSandboxPolicyRequest {
    UpdateSandboxPolicyRequest { name: "n".to_string(), policy: Some(policy) }
}

#[test]
fn first_serving_backfills_the_policy() {
    let mut store = store_with_policy(&[("a", "x")]);
    let served = store.run(service().get_sandbox_policy("i".to_string())).unwrap();
    assert_eq!(served.version, 1);
    assert_eq!(served.policy_hash.len(), 64);
    assert_eq!(store.policies["i"].len(), 1);
    assert_eq!(store.policies["i"][0].status, "loaded");
    let again = store.run(service().get_sandbox_policy("i".to_string())).unwrap();
    assert_eq!((again.version, again.policy_hash), (1, served.policy_hash));
    assert_eq!(store.policies["i"].len(), 1);
}

#[test]
fn policy_is_served_even_if_it_cannot_be_backfilled() {
    let stored = sandbox("i", "n", Some(spec(&[], Some(policy(&[])))), SandboxPhase::Ready);
    let flow = service().get_sandbox_policy("i".to_string());
    let flow = flow.resume(Reply::Sandbox(Ok(Some(stored))));
    let flow = flow.resume(Reply::Policy(Ok(None)));
    let flow = flow.resume(Reply::Stored(Err("raced".to_string())));
    assert_eq!(flow.finish().unwrap().version, 1);
}

#[test]
fn policy_serving_errors() {
    let mut store = Memory::new();
    let err = store.run(service().get_sandbox_policy("i".to_string())).unwrap_err();
    assert_eq!((err.code(), err.message()), (Code::NotFound, "sandbox not found"));
    store.sandboxes.insert("i".to_string(), sandbox("i", "n", None, SandboxPhase::Ready));
    let err = store.run(service().get_sandbox_policy("i".to_string())).unwrap_err();
    assert_eq!((err.code(), err.message()), (Code::Internal, "sandbox has no spec"));
    let bare = sandbox("i", "n", Some(spec(&[], None)), SandboxPhase::Ready);
    store.sandboxes.insert("i".to_string(), bare);
    let err = store.run(service().get_sandbox_policy("i".to_string())).unwrap_err();
    assert_eq!(
        (err.code(), err.message()),
        (Code::FailedPrecondition, "sandbox has no policy configured")
    );

    let found = || Reply::Sandbox(Ok(Some(sandbox("i", "n", None, SandboxPhase::Ready))));
    let flow = service().get_sandbox_policy("i".to_string()).resume(found());
    let flow = flow.resume(Reply::Policy(Err("gone".to_string())));
    assert_eq!(flow.finish().unwrap_err().message(), "fetch policy history failed: gone");
    let flow = service().get_sandbox_policy("i".to_string()).resume(found());
    let flow = flow.resume(Reply::Policy(Ok(Some(record(3, Err("bad".to_string()))))));
    assert_eq!(flow.finish().unwrap_err().message(), "decode policy failed: bad");
}

fn record(version: i64, policy: Result<SandboxPolicy, String>) -> PolicyRecord {
    PolicyRecord {
        version,
        policy,
        policy_hash: "hash".to_string(),
        status: "loaded".to_string(),
        load_error: None,
        created_at_ms: 5,
        loaded_at_ms: Some(6),
    }
}

#[test]
fn version_that_does_not_fit_is_shown_as_zero() {
    for (stored, shown) in [(7, 7), (-1, 0), (i64::from(u32::MAX) + 1, 0)] {
        let flow = service().get_sandbox_policy("i".to_string());
        let flow = flow
            .resume(Reply::Sandbox(Ok(Some(sandbox("i", "n", None, SandboxPhase::Ready)))));
        let flow = flow.resume(Reply::Policy(Ok(Some(record(stored, Ok(policy(&[])))))));
        assert_eq!(flow.finish().unwrap().version, shown);
    }
}

#[test]
fn updated_policy_is_served_next() {
    let mut store = store_with_policy(&[("a", "x")]);
    store.run(service().get_sandbox_policy("i".to_string())).unwrap();
    let response =
        store.run(service().update_sandbox_policy(update(policy(&[("a", "y")])))).unwrap();
    assert_eq!(response.version, 2);
    assert_eq!(store.log.last().unwrap(), "notify i");
    let served = store.run(service().get_sandbox_policy("i".to_string())).unwrap();
    assert_eq!(served.version, 2);
    assert_eq!(served.policy_hash, response.policy_hash);
    assert_eq!(served.policy.unwrap().network_policies.get("a"), Some(&b"y".to_vec()));
}

#[test]
fn same_policy_changes_nothing() {
    let mut store = store_with_policy(&[("a", "x"), ("b", "z")]);
    store.run(service().get_sandbox_policy("i".to_string())).unwrap();
    let response = store
        .run(service().update_sandbox_policy(update(policy(&[("b", "z"), ("a", "x")]))))
        .unwrap();
    assert_eq!(response.version, 1);
    assert_eq!(store.policies["i"].len(), 1);
}

#[test]
fn older_pending_revisions_are_superseded() {
    let mut store = store_with_policy(&[("a", "x")]);
    store.run(service().update_sandbox_policy(update(policy(&[("a", "1")])))).unwrap();
    store.run(service().update_sandbox_policy(update(policy(&[("a", "2")])))).unwrap();
    let statuses: Vec<&str> = store.policies["i"].iter().map(|r| r.status.as_str()).collect();
    assert_eq!(statuses, ["superseded", "pending"]);
    let versions: Vec<i64> = store.policies["i"].iter().map(|r| r.version).collect();
    assert_eq!(versions, [1, 2]);
}

#[test]
fn loaded_revision_supersedes_older_pending_ones() {
    let mut store = store_with_policy(&[("a", "x")]);
    let pending = |version| PolicyRecord {
        status: "pending".to_string(),
        ..record(version, Ok(policy(&[])))
    };
    let history = vec![pending(1), pending(2), pending(3), pending(4)];
    store.policies.insert("i".to_string(), history);
    store
        .run(service().report_policy_status(ReportPolicyStatusRequest {
            sandbox_id: "i".to_string(),
            version: 3,
            status: Some(PolicyStatus::Loaded),
            load_error: String::new(),
        }))
        .unwrap();
    let statuses: Vec<&str> = store.policies["i"].iter().map(|r| r.status.as_str()).collect();
    assert_eq!(statuses, ["superseded", "superseded", "loaded", "pending"]);
}

#[test]
fn sections_applied_at_startup_cannot_change() {
    let mut store = store_with_policy(&[("a", "x")]);
    let cases: [(fn(&mut SandboxPolicy), &str); 3] = [
        (
            |p| p.filesystem = None,
            "filesystem policy cannot be changed on a live sandbox (applied at startup)",
        ),
        (
            |p| p.landlock = Some(vec![]),
            "landlock policy cannot be changed on a live sandbox (applied at startup)",
        ),
        (
            |p| p.process = Some(b"other".to_vec()),
            "process policy cannot be changed on a live sandbox (applied at startup)",
        ),
    ];
    for (change, text) in cases {
        let mut changed = policy(&[("a", "x")]);
        change(&mut changed);
        let err = store.run(service().update_sandbox_policy(update(changed))).unwrap_err();
        assert_eq!((err.code(), err.message()), (Code::InvalidArgument, text));
    }
}

#[test]
fn network_mode_cannot_change() {
    let mut store = store_with_policy(&[("a", "x")]);
    let err = store.run(service().update_sandbox_policy(update(policy(&[])))).unwrap_err();
    assert_eq!(
        err.message(),
        "cannot remove all network policies from a sandbox created with them (Proxy → Block mode change requires restart)"
    );
    let mut store = store_with_policy(&[]);
    let err =
        store.run(service().update_sandbox_policy(update(policy(&[("a", "x")])))).unwrap_err();
    assert_eq!(
        err.message(),
        "cannot add network policies to a sandbox created without them (Block → Proxy mode change requires restart)"
    );
}

#[test]
fn policy_update_errors() {
    let mut store = Memory::new();
    let request = UpdateSandboxPolicyRequest { name: String::new(), policy: None };
    let err = store.run(service().update_sandbox_policy(request)).unwrap_err();
    assert_eq!(err.message(), "name is required");
    let request = UpdateSandboxPolicyRequest { name: "n".to_string(), policy: None };
    let err = store.run(service().update_sandbox_policy(request)).unwrap_err();
    assert_eq!(err.message(), "policy is required");
    let err = store.run(service().update_sandbox_policy(update(policy(&[])))).unwrap_err();
    assert_eq!(err.code(), Code::NotFound);
    store.sandboxes.insert("i".to_string(), sandbox("i", "n", None, SandboxPhase::Ready));
    let err = store.run(service().update_sandbox_policy(update(policy(&[])))).unwrap_err();
    assert_eq!((err.code(), err.message()), (Code::Internal, "sandbox has no spec"));

    let stored = sandbox("i", "n", Some(spec(&[], Some(policy(&[])))), SandboxPhase::Ready);
    let flow = service().update_sandbox_policy(update(policy(&[])));
    let flow = flow.resume(Reply::Sandbox(Ok(Some(stored))));
    let flow = flow.resume(Reply::Policy(Ok(Some(record(8, Ok(policy(&[])))))));
    let effect = flow.effect();
    assert!(matches!(effect, Some(Effect::PutPolicyRevision { version: 9, .. })));
    let flow = flow.resume(Reply::Stored(Err("full".to_string())));
    assert_eq!(flow.finish().unwrap_err().message(), "persist policy revision failed: full");
}

#[test]
fn highest_version_has_no_successor() {
    let stored = sandbox("i", "n", Some(spec(&[], Some(policy(&[])))), SandboxPhase::Ready);
    let flow = service().update_sandbox_policy(update(policy(&[])));
    let flow = flow.resume(Reply::Sandbox(Ok(Some(stored))));
    let effect = flow.effect().unwrap();
    let last = Reply::Policy(Ok(Some(record(i64::MAX, Ok(policy(&[]))))));
    assert!(!is_answer(&effect, &last));
    let one_before = Reply::Policy(Ok(Some(record(i64::MAX - 1, Ok(policy(&[]))))));
    assert!(is_answer(&effect, &one_before));
    // The same policy again needs no successor.
    let mut same = record(i64::MAX, Ok(policy(&[])));
    same.policy_hash = deterministic_policy_hash(&policy(&[]));
    let reply = Reply::Policy(Ok(Some(same)));
    assert!(is_answer(&effect, &reply));
    assert_eq!(flow.resume(reply).finish().unwrap().version, 0);
}

#[test]
fn revision_takes_the_digest_it_is_given() {
    let id = || "i".to_string();
    let flow = UpdateSandboxPolicy::revise(
        id(),
        policy(&[]),
        "new".to_string(),
        Some(record(4, Ok(policy(&[])))),
        "r".to_string(),
    );
    match flow.effect() {
        Some(Effect::PutPolicyRevision { id, sandbox_id, version, hash, .. }) => {
            assert_eq!((id.as_str(), sandbox_id.as_str()), ("r", "i"));
            assert_eq!((version, hash.as_str()), (5, "new"));
        }
        other => panic!("{other:?}"),
    }
    let flow = UpdateSandboxPolicy::revise(
        id(),
        policy(&[]),
        "hash".to_string(),
        Some(record(4, Ok(policy(&[])))),
        "r".to_string(),
    );
    let response = flow.finish().unwrap();
    assert_eq!((response.version, response.policy_hash.as_str()), (4, "hash"));
    let flow = GetSandboxPolicy::backfill(id(), policy(&[]), "h".to_string(), "r".to_string());
    match flow.effect() {
        Some(Effect::PutPolicyRevision { id, version, hash, .. }) => {
            assert_eq!((id.as_str(), version, hash.as_str()), ("r", 1, "h"));
        }
        other => panic!("{other:?}"),
    }
}

#[test]
fn loaded_revision_becomes_the_active_one() {
    let mut store = store_with_policy(&[("a", "x")]);
    store.run(service().update_sandbox_policy(update(policy(&[("a", "1")])))).unwrap();
    store
        .run(service().report_policy_status(ReportPolicyStatusRequest {
            sandbox_id: "i".to_string(),
            version: 1,
            status: Some(PolicyStatus::Loaded),
            load_error: "ignored".to_string(),
        }))
        .unwrap();
    assert_eq!(store.log.last().unwrap(), "notify i");
    assert_eq!(store.sandboxes["i"].current_policy_version, 1);
    let status = store.run(service().get_sandbox_policy_status("n".to_string(), 0)).unwrap();
    assert_eq!(status.active_version, 1);
    let revision = status.revision.unwrap();
    assert_eq!(revision.status, PolicyStatus::Loaded);
    assert_eq!(revision.load_error, "");
    assert!(revision.loaded_at_ms > 1_600_000_000_000);
    assert!(revision.policy.is_some());
}

#[test]
fn failed_revision_keeps_its_error() {
    let mut store = store_with_policy(&[("a", "x")]);
    store.run(service().update_sandbox_policy(update(policy(&[("a", "1")])))).unwrap();
    store
        .run(service().report_policy_status(ReportPolicyStatusRequest {
            sandbox_id: "i".to_string(),
            version: 1,
            status: Some(PolicyStatus::Failed),
            load_error: "no such rule".to_string(),
        }))
        .unwrap();
    let listed = store.run(service().list_sandbox_policies("n".to_string(), 0, 0)).unwrap();
    assert_eq!(store.log.last().unwrap(), "policies 50 0");
    assert_eq!(listed.len(), 1);
    assert_eq!(listed[0].status, PolicyStatus::Failed);
    assert_eq!(listed[0].load_error, "no such rule");
    assert_eq!(listed[0].loaded_at_ms, 0);
    assert!(listed[0].policy.is_none());
    assert_eq!(store.sandboxes["i"].current_policy_version, 0);
}

#[test]
fn reported_status_is_shown_for_its_version() {
    let mut store = store_with_policy(&[("a", "x")]);
    store.run(service().update_sandbox_policy(update(policy(&[("a", "1")])))).unwrap();
    store.run(service().update_sandbox_policy(update(policy(&[("a", "2")])))).unwrap();
    for (version, reported, active) in
        [(2, PolicyStatus::Loaded, 2), (1, PolicyStatus::Failed, 2), (1, PolicyStatus::Loaded, 1)]
    {
        store
            .run(service().report_policy_status(ReportPolicyStatusRequest {
                sandbox_id: "i".to_string(),
                version,
                status: Some(reported),
                load_error: String::new(),
            }))
            .unwrap();
        let shown =
            store.run(service().get_sandbox_policy_status("n".to_string(), version)).unwrap();
        assert_eq!(shown.active_version, active);
        let revision = shown.revision.unwrap();
        assert_eq!((revision.version, revision.status), (version, reported));
    }
}

#[test]
fn policy_report_errors() {
    let mut store = store_with_policy(&[]);
    let report = |id: &str, version, status| ReportPolicyStatusRequest {
        sandbox_id: id.to_string(),
        version,
        status,
        load_error: String::new(),
    };
    let err = store
        .run(service().report_policy_status(report("", 1, Some(PolicyStatus::Loaded))))
        .unwrap_err();
    assert_eq!(err.message(), "sandbox_id is required");
    let err = store
        .run(service().report_policy_status(report("i", 0, Some(PolicyStatus::Loaded))))
        .unwrap_err();
    assert_eq!(err.message(), "version is required");
    for status in [None, Some(PolicyStatus::Pending), Some(PolicyStatus::Superseded)] {
        let err = store.run(service().report_policy_status(report("i", 1, status))).unwrap_err();
        assert_eq!(
            (err.code(), err.message()),
            (Code::InvalidArgument, "status must be LOADED or FAILED")
        );
    }
    let err = store
        .run(service().report_policy_status(report("i", 4, Some(PolicyStatus::Failed))))
        .unwrap_err();
    assert_eq!((err.code(), err.message()), (Code::NotFound, "policy revision not found"));
}

#[test]
fn policy_report_without_a_clock_fails() {
    let request = ReportPolicyStatusRequest {
        sandbox_id: "i".to_string(),
        version: 1,
        status: Some(PolicyStatus::Loaded),
        load_error: String::new(),
    };
    let flow = openshell::gateway::policy::ReportPolicyStatus::begin_at(
        request,
        Err("second time provided was later than self".to_string()),
    );
    assert_eq!(
        flow.finish().unwrap_err().message(),
        "timestamp error: second time provided was later than self"
    );
}

#[test]
fn policy_status_of_one_version() {
    let mut store = store_with_policy(&[("a", "x")]);
    store.run(service().update_sandbox_policy(update(policy(&[("a", "1")])))).unwrap();
    store.run(service().update_sandbox_policy(update(policy(&[("a", "2")])))).unwrap();
    let status = store.run(service().get_sandbox_policy_status("n".to_string(), 1)).unwrap();
    assert_eq!(status.revision.unwrap().status, PolicyStatus::Superseded);
    let err = store.run(service().get_sandbox_policy_status("n".to_string(), 3)).unwrap_err();
    assert_eq!(err.message(), "no policy revision found for this sandbox");
    let err = store.run(service().get_sandbox_policy_status(String::new(), 3)).unwrap_err();
    assert_eq!(err.message(), "name is required");
    let err = store.run(service().list_sandbox_policies(String::new(), 1, 0)).unwrap_err();
    assert_eq!(err.message(), "name is required");
    let err = store.run(service().list_sandbox_policies("x".to_string(), 1, 0)).unwrap_err();
    assert_eq!(err.code(), Code::NotFound);
}

// ---- shell access ----

#[test]
fn gateway_address_falls_back_to_the_bind_address() {
    assert_eq!(resolve_gateway(&config()), ("10.0.0.1".to_string(), 8080));
    let mut set = config();
    set.ssh_gateway_host = "gw.example.com".to_string();
    set.ssh_gateway_port = 443;
    assert_eq!(resolve_gateway(&set), ("gw.example.com".to_string(), 443));
}

#[test]
fn shell_access_is_granted_and_revoked() {
    let mut store = store_with_policy(&[]);
    let grant = store.run(service().create_ssh_session("i".to_string())).unwrap();
    assert!(is_uuid(&grant.token));
    assert_eq!(grant.sandbox_id, "i");
    assert_eq!((grant.gateway_host.as_str(), grant.gateway_port), ("10.0.0.1", 8080));
    assert_eq!(grant.gateway_scheme, "https");
    assert_eq!(grant.connect_path, "/connect/ssh");
    assert_eq!(grant.host_key_fingerprint, "");
    let session = &store.sessions[&grant.token];
    assert_eq!((session.name.as_str(), session.revoked), ("made-up", false));
    assert!(session.created_at_ms > 1_600_000_000_000);

    assert!(store.run(service().revoke_ssh_session(grant.token.clone())).unwrap());
    assert!(store.sessions[&grant.token].revoked);
    assert!(!store.run(service().revoke_ssh_session("unknown".to_string())).unwrap());
    let err = store.run(service().revoke_ssh_session(String::new())).unwrap_err();
    assert_eq!(err.message(), "token is required");
}

#[test]
fn shell_access_needs_a_ready_sandbox() {
    let mut store = Memory::new();
    let err = store.run(service().create_ssh_session(String::new())).unwrap_err();
    assert_eq!(err.message(), "sandbox_id is required");
    let err = store.run(service().create_ssh_session("i".to_string())).unwrap_err();
    assert_eq!(err.code(), Code::NotFound);
    for phase in [SandboxPhase::Provisioning, SandboxPhase::Error, SandboxPhase::Unrecognized(42)] {
        store.sandboxes.insert("i".to_string(), sandbox("i", "n", None, phase));
        let err = store.run(service().create_ssh_session("i".to_string())).unwrap_err();
        assert_eq!(
            (err.code(), err.message()),
            (Code::FailedPrecondition, "sandbox is not ready")
        );
    }
    assert!(store.sessions.is_empty());
}

// ---- running commands ----

fn exec_request(command: &[&str], env: &[(&str, &str)]) -> ExecSandboxRequest {
    ExecSandboxRequest {
        sandbox_id: "i".to_string(),
        command: names(command),
        workdir: String::new(),
        environment: map(env),
        timeout_seconds: 30,
        stdin: b"in".to_vec(),
    }
}

#[test]
fn command_is_planned_at_the_service_name() {
    let mut store = store_with_policy(&[]);
    let plan =
        store.run(service().exec_sandbox(exec_request(&["ls", "a b"], &[("A", "1")]))).unwrap();
    assert_eq!(plan.target_host, "n.agents.svc.cluster.local");
    assert_eq!(plan.target_port, 2222);
    assert_eq!(plan.command, "A=1 ls 'a b'");
    assert_eq!(plan.stdin, b"in");
    assert_eq!(plan.timeout_seconds, 30);
    assert_eq!(plan.handshake_secret, "hush");
    assert_eq!(plan.sandbox_id, "i");
}

#[test]
fn command_is_planned_at_the_pod() {
    let mut store = store_with_policy(&[]);
    store.sandboxes.get_mut("i").unwrap().status =
        Some(SandboxStatus { agent_pod: "pod-1".to_string(), extra: vec![] });
    store.pod_ip = Ok(Some("10.1.2.3".to_string()));
    let plan = store.run(service().exec_sandbox(exec_request(&["ls"], &[]))).unwrap();
    assert_eq!(plan.target_host, "10.1.2.3");
    store.pod_ip = Ok(None);
    let err = store.run(service().exec_sandbox(exec_request(&["ls"], &[]))).unwrap_err();
    assert_eq!(err.message(), "sandbox agent pod IP is not available");
    store.pod_ip = Err("refused".to_string());
    let err = store.run(service().exec_sandbox(exec_request(&["ls"], &[]))).unwrap_err();
    assert_eq!(err.message(), "failed to resolve agent pod IP: refused");
}

#[test]
fn command_requests_are_checked() {
    let mut store = store_with_policy(&[]);
    let mut request = exec_request(&["ls"], &[]);
    request.sandbox_id = String::new();
    let err = store.run(service().exec_sandbox(request)).unwrap_err();
    assert_eq!(err.message(), "sandbox_id is required");
    let err = store.run(service().exec_sandbox(exec_request(&[], &[]))).unwrap_err();
    assert_eq!(err.message(), "command is required");
    let err =
        store.run(service().exec_sandbox(exec_request(&["ls"], &[("A", ""), ("B-C", "")]))).unwrap_err();
    assert_eq!(err.message(), "environment keys must match ^[A-Za-z_][A-Za-z0-9_]*$");
    store.sandboxes.get_mut("i").unwrap().name = String::new();
    let err = store.run(service().exec_sandbox(exec_request(&["ls"], &[]))).unwrap_err();
    assert_eq!((err.code(), err.message()), (Code::FailedPrecondition, "sandbox has no name"));
    store.sandboxes.get_mut("i").unwrap().phase = SandboxPhase::Deleting;
    let err = store.run(service().exec_sandbox(exec_request(&["ls"], &[]))).unwrap_err();
    assert_eq!(err.message(), "sandbox is not ready");
}

// ---- logs ----

fn line(source: &str, level: &str, timestamp_ms: i64) -> SandboxLogLine {
    SandboxLogLine {
        sandbox_id: "i".to_string(),
        timestamp_ms,
        level: level.to_string(),
        source: source.to_string(),
        extra: vec![],
    }
}

fn log_event(log: SandboxLogLine) -> SandboxStreamEvent {
    SandboxStreamEvent { payload: Some(Payload::Log(log)) }
}

#[test]
fn logs_are_filtered() {
    let mut store = Memory::new();
    store.tail = vec![
        log_event(line("", "info", 10)),
        log_event(line("sandbox", "ERROR", 20)),
        log_event(line("sandbox", "Debug", 30)),
        SandboxStreamEvent { payload: Some(Payload::Other(vec![1])) },
        SandboxStreamEvent { payload: None },
        log_event(line("sandbox", "warn", 5)),
        log_event(line("sandbox", "CUSTOM", 40)),
    ];
    let response = store
        .run(service().get_sandbox_logs(GetSandboxLogsRequest {
            sandbox_id: "i".to_string(),
            lines: 0,
            filter: LogFilter {
                since_ms: 10,
                sources: names(&["gateway", "sandbox"]),
                min_level: "info".to_string(),
            },
        }))
        .unwrap();
    assert_eq!(store.log, ["tail i 2000"]);
    assert_eq!(response.buffer_total, 7);
    let times: Vec<i64> = response.logs.iter().map(|l| l.timestamp_ms).collect();
    assert_eq!(times, [10, 20, 40]);
}

#[test]
fn logs_need_a_sandbox() {
    let mut store = Memory::new();
    let request = GetSandboxLogsRequest {
        sandbox_id: String::new(),
        lines: 3,
        filter: LogFilter { since_ms: 0, sources: vec![], min_level: String::new() },
    };
    let err = store.run(service().get_sandbox_logs(request)).unwrap_err();
    assert_eq!(err.message(), "sandbox_id is required");
}

#[test]
fn pushed_logs_come_from_the_sandbox() {
    let mut store = Memory::new();
    let mut forged = line("gateway", "INFO", 1);
    forged.sandbox_id = "other".to_string();
    store.batches = vec![
        Ok(Some(PushSandboxLogsRequest { sandbox_id: String::new(), logs: vec![line("x", "y", 0)] })),
        Ok(Some(PushSandboxLogsRequest { sandbox_id: "mine".to_string(), logs: vec![forged] })),
        Ok(Some(PushSandboxLogsRequest {
            sandbox_id: "mine".to_string(),
            logs: (0..150).map(|i| line("a", "b", i)).collect(),
        })),
        Ok(None),
    ];
    store.run(service().push_sandbox_logs()).unwrap();
    assert_eq!(store.published.len(), 101);
    assert!(store.published.iter().all(|l| l.source == "sandbox" && l.sandbox_id == "mine"));
    assert_eq!(store.published[0].level, "INFO");
    assert_eq!(store.published[100].timestamp_ms, 99);
}

#[test]
fn broken_log_stream_is_reported() {
    let mut store = Memory::new();
    store.batches = vec![Err("reset".to_string())];
    let err = store.run(service().push_sandbox_logs()).unwrap_err();
    assert_eq!((err.code(), err.message()), (Code::Internal, "stream error: reset"));
}
