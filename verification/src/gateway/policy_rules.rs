//! Policies: their digest, what may change in them, and how their revisions are shown.
use crate::bytes::{le_bytes_u32, native_bytes};
use crate::crypto::{hex_encode, lower_hex, sha256, sha256_digest};
use crate::gateway::flow::LoadResult;
use crate::gateway::model::{section, PolicyRecord, PolicyStatus, PolicyView, SandboxPolicy};
use crate::status::{fails, Code, Status};
use crate::string_map::{sorted_keys, StringMap};
use crate::text::same_text;
use vstd::prelude::*;
use vstd::utf8::encode_utf8;

verus! {

/// The bytes of a section; none where it is not there.
pub open spec fn section_bytes(bytes: Option<Seq<u8>>) -> Seq<u8> {
    match bytes {
        Some(bytes) => bytes,
        None => Seq::empty(),
    }
}

/// The names in `keys`, each with the bytes of its rule behind it.
pub open spec fn rule_bytes(keys: Seq<Seq<char>>, rules: Map<Seq<char>, Seq<u8>>) -> Seq<u8>
    decreases keys.len(),
{
    if keys.len() == 0 {
        Seq::empty()
    } else {
        rule_bytes(keys.drop_last(), rules) + encode_utf8(keys.last()) + rules[keys.last()]
    }
}

/// The bytes that a policy's digest is made of: its version, its sections, and its
/// network rules in the order of their names.
pub open spec fn policy_bytes(policy: PolicyView) -> Seq<u8> {
    native_bytes(policy.version as nat, 4, true) + section_bytes(policy.filesystem)
        + section_bytes(policy.landlock) + section_bytes(policy.process) + rule_bytes(
        sorted_keys(policy.network_policies.dom()),
        policy.network_policies,
    ) + section_bytes(policy.inference)
}

/// The digest by which policies are told apart.
pub open spec fn policy_hash(policy: PolicyView) -> Seq<char> {
    lower_hex(sha256(policy_bytes(policy)))
}

fn append(data: &mut Vec<u8>, more: &[u8])
    ensures
        final(data)@ == old(data)@ + more@,
{
    let ghost before = data@;
    for i in 0..more.len()
        invariant
            data@ == before + more@.take(i as int),
    {
        data.push(more[i]);
        assert(before + more@.take(i + 1) =~= (before + more@.take(i as int)).push(
            more@[i as int],
        ));
    }
    assert(more@.take(more@.len() as int) =~= more@);
}

fn append_section(data: &mut Vec<u8>, bytes: &Option<Vec<u8>>)
    ensures
        final(data)@ == old(data)@ + section_bytes(section(*bytes)),
{
    match bytes {
        Some(bytes) => {
            append(data, bytes.as_slice());
        },
        None => {
            assert(data@ + Seq::<u8>::empty() =~= data@);
        },
    }
}

fn append_rules(data: &mut Vec<u8>, rules: &StringMap<Vec<u8>>)
    ensures
        ({
            let view = rules@.map_values(|rule: Vec<u8>| rule@);
            final(data)@ == old(data)@ + rule_bytes(sorted_keys(view.dom()), view)
        }),
{
    let ghost view = rules@.map_values(|rule: Vec<u8>| rule@);
    let ghost keys = sorted_keys(view.dom());
    let ghost before = data@;
    let n = rules.len();
    proof {
        assert(view.dom() =~= rules@.dom());
        assert(before + rule_bytes(keys.take(0), view) =~= before);
    }
    for i in 0..n
        invariant
            view == rules@.map_values(|rule: Vec<u8>| rule@),
            view.dom() == rules@.dom(),
            keys == sorted_keys(view.dom()),
            n == keys.len(),
            data@ == before + rule_bytes(keys.take(i as int), view),
    {
        let key = rules.key_at(i);
        let rule = rules.value_at(i);
        append(data, key.as_str().as_bytes());
        append(data, rule.as_slice());
        proof {
            assert(keys.take(i + 1).drop_last() =~= keys.take(i as int));
            assert(keys.take(i + 1).last() == key@);
            assert(data@ =~= before + rule_bytes(keys.take(i + 1), view));
        }
    }
    assert(keys.take(n as int) =~= keys);
}

/// The bytes that a policy's digest is made of.
pub fn digest_input(policy: &SandboxPolicy) -> (r: Vec<u8>)
    ensures
        r@ == policy_bytes(policy.deep_view()),
{
    let mut data = le_bytes_u32(policy.version);
    append_section(&mut data, &policy.filesystem);
    append_section(&mut data, &policy.landlock);
    append_section(&mut data, &policy.process);
    append_rules(&mut data, &policy.network_policies);
    append_section(&mut data, &policy.inference);
    data
}

/// The SHA-256 digest of a policy in hexadecimal. Two policies with the same contents
/// have the same digest, in whatever order their network rules were entered.
pub fn deterministic_policy_hash(policy: &SandboxPolicy) -> (r: String)
    ensures
        r@ == policy_hash(policy.deep_view()),
        r@.len() == 64,
{
    let data = digest_input(policy);
    let digest = sha256_digest(data.as_slice());
    hex_encode(digest.as_slice())
}

/// What is said of the first section that must not change and does.
pub open spec fn static_change(baseline: PolicyView, new: PolicyView) -> Option<Seq<char>> {
    if baseline.filesystem != new.filesystem {
        Some("filesystem policy cannot be changed on a live sandbox (applied at startup)"@)
    } else if baseline.landlock != new.landlock {
        Some("landlock policy cannot be changed on a live sandbox (applied at startup)"@)
    } else if baseline.process != new.process {
        Some("process policy cannot be changed on a live sandbox (applied at startup)"@)
    } else {
        None
    }
}

fn same_bytes(a: &Vec<u8>, b: &Vec<u8>) -> (r: bool)
    ensures
        r == (a@ == b@),
{
    if a.len() != b.len() {
        return false;
    }
    for i in 0..a.len()
        invariant
            a@.len() == b@.len(),
            forall|j: int| 0 <= j < i ==> a@[j] == b@[j],
    {
        if a[i] != b[i] {
            return false;
        }
    }
    assert(a@ =~= b@);
    true
}

fn same_section(a: &Option<Vec<u8>>, b: &Option<Vec<u8>>) -> (r: bool)
    ensures
        r == (section(*a) == section(*b)),
{
    match (a, b) {
        (None, None) => true,
        (Some(a), Some(b)) => same_bytes(a, b),
        _ => false,
    }
}

/// Checks that the sections that are applied when a sandbox starts have not changed.
pub fn validate_static_fields_unchanged(baseline: &SandboxPolicy, new: &SandboxPolicy) -> (r:
    Result<(), Status>)
    ensures
        match static_change(baseline.deep_view(), new.deep_view()) {
            None => r is Ok,
            Some(text) => fails(r, Code::InvalidArgument, text),
        },
{
    if !same_section(&baseline.filesystem, &new.filesystem) {
        return Err(
            Status::new(
                Code::InvalidArgument,
                "filesystem policy cannot be changed on a live sandbox (applied at startup)",
            ),
        );
    }
    if !same_section(&baseline.landlock, &new.landlock) {
        return Err(
            Status::new(
                Code::InvalidArgument,
                "landlock policy cannot be changed on a live sandbox (applied at startup)",
            ),
        );
    }
    if !same_section(&baseline.process, &new.process) {
        return Err(
            Status::new(
                Code::InvalidArgument,
                "process policy cannot be changed on a live sandbox (applied at startup)",
            ),
        );
    }
    Ok(())
}

/// The network goes through the proxy: there are rules for it.
pub open spec fn is_proxied(policy: PolicyView) -> bool {
    policy.network_policies != Map::<Seq<char>, Seq<u8>>::empty()
}

/// What is said of a change between blocked and proxied network, where there is one.
pub open spec fn mode_change(baseline: PolicyView, new: PolicyView) -> Option<Seq<char>> {
    if is_proxied(baseline) == is_proxied(new) {
        None
    } else if is_proxied(new) {
        Some(
            "cannot add network policies to a sandbox created without them (Block → Proxy mode change requires restart)"@,
        )
    } else {
        Some(
            "cannot remove all network policies from a sandbox created with them (Proxy → Block mode change requires restart)"@,
        )
    }
}

fn proxied(policy: &SandboxPolicy) -> (r: bool)
    ensures
        r == is_proxied(policy.deep_view()),
{
    let r = !policy.network_policies.is_empty();
    proof {
        let rules = policy.network_policies@;
        let view = policy.deep_view().network_policies;
        assert(view.dom() =~= rules.dom());
        if r {
            assert(!(rules =~= Map::<Seq<char>, Vec<u8>>::empty()));
            assert(rules.dom() != Set::<Seq<char>>::empty());
        } else {
            assert(view =~= Map::<Seq<char>, Seq<u8>>::empty());
        }
    }
    r
}

/// Checks that the network stays blocked or stays proxied. Adding the first rule, or
/// removing the last, would change that.
pub fn validate_network_mode_unchanged(baseline: &SandboxPolicy, new: &SandboxPolicy) -> (r: Result<
    (),
    Status,
>)
    ensures
        match mode_change(baseline.deep_view(), new.deep_view()) {
            None => r is Ok,
            Some(text) => fails(r, Code::InvalidArgument, text),
        },
{
    let was = proxied(baseline);
    let is = proxied(new);
    if was == is {
        Ok(())
    } else if is {
        Err(
            Status::new(
                Code::InvalidArgument,
                "cannot add network policies to a sandbox created without them (Block → Proxy mode change requires restart)",
            ),
        )
    } else {
        Err(
            Status::new(
                Code::InvalidArgument,
                "cannot remove all network policies from a sandbox created with them (Proxy → Block mode change requires restart)",
            ),
        )
    }
}

/// A policy revision as it is shown.
#[derive(Debug)]
pub struct SandboxPolicyRevision {
    pub version: u32,
    pub policy_hash: String,
    pub status: PolicyStatus,
    pub load_error: String,
    pub created_at_ms: i64,
    pub loaded_at_ms: i64,
    pub policy: Option<SandboxPolicy>,
}

/// A stored version number as it is shown: zero where it does not fit.
pub open spec fn shown_version(version: i64) -> u32 {
    if 0 <= version <= u32::MAX {
        version as u32
    } else {
        0
    }
}

pub(crate) fn show_version(version: i64) -> (r: u32)
    ensures
        r == shown_version(version),
{
    if 0 <= version && version <= 0xFFFF_FFFF {
        version as u32
    } else {
        0
    }
}

/// The status that a stored text stands for.
pub open spec fn status_of(text: Seq<char>) -> PolicyStatus {
    if text == "pending"@ {
        PolicyStatus::Pending
    } else if text == "loaded"@ {
        PolicyStatus::Loaded
    } else if text == "failed"@ {
        PolicyStatus::Failed
    } else if text == "superseded"@ {
        PolicyStatus::Superseded
    } else {
        PolicyStatus::Unspecified
    }
}

impl LoadResult {
    /// The status of a revision that was reported on so.
    pub open spec fn status(self) -> PolicyStatus {
        match self {
            LoadResult::Loaded => PolicyStatus::Loaded,
            LoadResult::Failed => PolicyStatus::Failed,
        }
    }

    /// The text that the status is stored as.
    pub fn text(self) -> (r: &'static str)
        ensures
            r@ == (match self {
                LoadResult::Loaded => "loaded"@,
                LoadResult::Failed => "failed"@,
            }),
            status_of(r@) == self.status(),
    {
        proof {
            reveal_strlit("pending");
            reveal_strlit("loaded");
            reveal_strlit("failed");
            assert("loaded"@.len() != "pending"@.len());
            assert("failed"@.len() != "pending"@.len());
            assert("failed"@[0] != "loaded"@[0]);
        }
        match self {
            LoadResult::Loaded => "loaded",
            LoadResult::Failed => "failed",
        }
    }
}

/// `revision` shows `record`, with its policy only if that is asked for and could be
/// decoded.
pub open spec fn shows(
    revision: SandboxPolicyRevision,
    record: PolicyRecord,
    include_policy: bool,
) -> bool {
    &&& revision.version == shown_version(record.version)
    &&& revision.policy_hash == record.policy_hash
    &&& revision.status == status_of(record.status@)
    &&& revision.load_error@ == (match record.load_error {
        Some(error) => error@,
        None => Seq::empty(),
    })
    &&& revision.created_at_ms == record.created_at_ms
    &&& revision.loaded_at_ms == (match record.loaded_at_ms {
        Some(ms) => ms,
        None => 0,
    })
    &&& revision.policy == (match record.policy {
        Ok(policy) => if include_policy {
            Some(policy)
        } else {
            None
        },
        Err(_) => None,
    })
}

fn parse_status(text: &str) -> (r: PolicyStatus)
    ensures
        r == status_of(text@),
{
    if same_text(text, "pending") {
        PolicyStatus::Pending
    } else if same_text(text, "loaded") {
        PolicyStatus::Loaded
    } else if same_text(text, "failed") {
        PolicyStatus::Failed
    } else if same_text(text, "superseded") {
        PolicyStatus::Superseded
    } else {
        PolicyStatus::Unspecified
    }
}

/// Shows a stored policy revision.
pub fn policy_record_to_revision(record: PolicyRecord, include_policy: bool) -> (r:
    SandboxPolicyRevision)
    ensures
        shows(r, record, include_policy),
{
    let status = parse_status(record.status.as_str());
    SandboxPolicyRevision {
        version: show_version(record.version),
        policy_hash: record.policy_hash,
        status,
        load_error: match record.load_error {
            Some(error) => error,
            None => String::new(),
        },
        created_at_ms: record.created_at_ms,
        loaded_at_ms: match record.loaded_at_ms {
            Some(ms) => ms,
            None => 0,
        },
        policy: match record.policy {
            Ok(policy) => if include_policy {
                Some(policy)
            } else {
                None
            },
            Err(_) => None,
        },
    }
}

} // verus!
