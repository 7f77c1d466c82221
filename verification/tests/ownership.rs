use openshell::ownership::{
    check_owner, digest_label, owner_selector, sanitize_subject, stamp_owner, Identity,
    IdentityProvider, Principal, SandboxPrincipal, UserPrincipal, OWNER_LABEL,
};
use openshell::status::Code;
use openshell::string_map::StringMap;

fn user_principal(subject: &str, roles: &[&str]) -> Principal {
    Principal::User(UserPrincipal {
        identity: Identity {
            subject: subject.to_string(),
            display_name: None,
            roles: roles.iter().map(|r| (*r).to_string()).collect(),
            scopes: vec![],
            provider: IdentityProvider::Oidc,
        },
    })
}

fn admin_principal() -> Principal {
    user_principal("admin-uuid", &["openshell-admin", "openshell-user"])
}

fn alice() -> Principal {
    user_principal("alice-uuid-1234", &["openshell-user"])
}

fn bob() -> Principal {
    user_principal("bob-uuid-5678", &["openshell-user"])
}

fn owned_by_alice() -> StringMap<String> {
    let mut labels = StringMap::new();
    labels.insert(OWNER_LABEL.to_string(), "alice-uuid-1234".to_string());
    labels
}

#[test]
fn sanitize_uuid_passthrough() {
    let result = sanitize_subject("550e8400-e29b-41d4-a716-446655440000").unwrap();
    assert_eq!(result, "550e8400-e29b-41d4-a716-446655440000");
}

#[test]
fn sanitize_simple_alphanumeric() {
    assert_eq!(sanitize_subject("user123").unwrap(), "user123");
}

#[test]
fn sanitize_email_hashes() {
    let result = sanitize_subject("alice@corp.com").unwrap();
    assert_ne!(result, "alice@corp.com");
    assert!(result.len() <= 63);
    assert!(result.chars().all(|c| c.is_ascii_hexdigit()));
}

#[test]
fn sanitize_empty_subject_fails() {
    assert!(sanitize_subject("").is_err());
}

#[test]
fn sanitize_long_subject_hashes() {
    let long = "a".repeat(100);
    let result = sanitize_subject(&long).unwrap();
    assert!(result.len() <= 63);
}

#[test]
fn sanitize_hashes_to_the_digest_cut_to_a_label() {
    // SHA-256 of the single character "-", which cannot start a label value.
    assert_eq!(
        sanitize_subject("-").unwrap(),
        "3973e022e93220f9212c18d0d0c543ae7c309e46640da93a4a0314de999f511"
    );
}

#[test]
fn digest_becomes_a_label_of_its_first_digits() {
    let mut digest = [0xAB_u8; 32];
    digest[0] = 0x0F;
    assert_eq!(digest_label(&digest), format!("0f{}a", "ab".repeat(30)));
}

#[test]
fn sanitize_label_edges() {
    assert_eq!(sanitize_subject("a.b_c-d").unwrap(), "a.b_c-d");
    assert_ne!(sanitize_subject("a.").unwrap(), "a.");
    assert_ne!(sanitize_subject("_a").unwrap(), "_a");
    let longest = "a".repeat(63);
    assert_eq!(sanitize_subject(&longest).unwrap(), longest);
    assert_ne!(sanitize_subject(&"a".repeat(64)).unwrap(), "a".repeat(64));
    for hashed in ["a.", "_a", "alice@corp.com", "\u{e9}"] {
        assert_eq!(sanitize_subject(hashed).unwrap().len(), 63);
    }
    assert_eq!(
        sanitize_subject("").unwrap_err().message(),
        "identity subject is empty; cannot determine sandbox owner"
    );
}

#[test]
fn stamp_owner_sets_label() {
    let principal = alice();
    let mut labels = StringMap::new();
    labels.insert("env".to_string(), "dev".to_string());

    stamp_owner(&mut labels, Some(&principal)).unwrap();

    assert_eq!(labels.get(OWNER_LABEL).unwrap(), "alice-uuid-1234");
    assert_eq!(labels.get("env").unwrap(), "dev");
}

#[test]
fn stamp_owner_strips_reserved_keys() {
    let principal = alice();
    let mut labels = StringMap::new();
    labels.insert("openshell.ai/owner".to_string(), "spoofed".to_string());
    labels.insert("openshell.ai/custom".to_string(), "sneaky".to_string());
    labels.insert("safe-key".to_string(), "kept".to_string());

    stamp_owner(&mut labels, Some(&principal)).unwrap();

    assert_eq!(labels.get(OWNER_LABEL).unwrap(), "alice-uuid-1234");
    assert!(!labels.contains_key("openshell.ai/custom"));
    assert_eq!(labels.get("safe-key").unwrap(), "kept");
}

#[test]
fn stamp_owner_rejects_anonymous() {
    let mut labels = StringMap::new();
    let result = stamp_owner(&mut labels, Some(&Principal::Anonymous));
    assert!(result.is_err());
    assert_eq!(result.unwrap_err().code(), Code::Unauthenticated);
}

#[test]
fn stamp_owner_rejects_none() {
    let mut labels = StringMap::new();
    let result = stamp_owner(&mut labels, None);
    assert!(result.is_err());
}

#[test]
fn stamp_owner_rejects_sandboxes_and_leaves_labels() {
    let mut labels = StringMap::new();
    labels.insert("openshell.ai/custom".to_string(), "x".to_string());
    let caller = Principal::Sandbox(SandboxPrincipal { sandbox_id: "sb".to_string() });
    let err = stamp_owner(&mut labels, Some(&caller)).unwrap_err();
    assert_eq!(err.code(), Code::Unauthenticated);
    assert_eq!(
        err.message(),
        "authenticated user identity required for sandbox operations"
    );
    assert!(labels.contains_key("openshell.ai/custom"));
}

#[test]
fn stamp_owner_with_empty_subject_still_strips() {
    let mut labels = StringMap::new();
    labels.insert("openshell.ai/custom".to_string(), "x".to_string());
    labels.insert("env".to_string(), "dev".to_string());
    let nobody = user_principal("", &[]);
    let err = stamp_owner(&mut labels, Some(&nobody)).unwrap_err();
    assert_eq!(err.code(), Code::Unauthenticated);
    assert!(!labels.contains_key("openshell.ai/custom"));
    assert!(!labels.contains_key(OWNER_LABEL));
    assert_eq!(labels.len(), 1);
}

#[test]
fn check_owner_allows_owner() {
    let labels = owned_by_alice();
    let principal = alice();
    assert!(check_owner(&labels, Some(&principal), "openshell-admin").is_ok());
}

#[test]
fn check_owner_denies_non_owner() {
    let labels = owned_by_alice();
    let principal = bob();
    let result = check_owner(&labels, Some(&principal), "openshell-admin");
    assert!(result.is_err());
    assert_eq!(result.unwrap_err().code(), Code::PermissionDenied);
}

#[test]
fn check_owner_admin_bypass() {
    let labels = owned_by_alice();
    let principal = admin_principal();
    assert!(check_owner(&labels, Some(&principal), "openshell-admin").is_ok());
}

#[test]
fn check_owner_without_admin_role_has_no_bypass() {
    let labels = owned_by_alice();
    let principal = admin_principal();
    let err = check_owner(&labels, Some(&principal), "").unwrap_err();
    assert_eq!(err.message(), "you do not own this sandbox");
}

#[test]
fn check_owner_no_label_allows_access() {
    let labels = StringMap::new();
    let principal = bob();
    assert!(check_owner(&labels, Some(&principal), "openshell-admin").is_ok());
}

#[test]
fn check_owner_anonymous_on_owned_sandbox_denied() {
    let labels = owned_by_alice();
    let result = check_owner(&labels, Some(&Principal::Anonymous), "openshell-admin");
    assert!(result.is_err());
    assert_eq!(result.unwrap_err().code(), Code::PermissionDenied);
}

#[test]
fn check_owner_none_principal_on_owned_sandbox_denied() {
    let labels = owned_by_alice();
    let result = check_owner(&labels, None, "openshell-admin");
    assert!(result.is_err());
}

#[test]
fn check_owner_empty_subject_is_unauthenticated() {
    let labels = owned_by_alice();
    let nobody = user_principal("", &[]);
    let err = check_owner(&labels, Some(&nobody), "openshell-admin").unwrap_err();
    assert_eq!(err.code(), Code::Unauthenticated);
}

#[test]
fn the_stamped_owner_passes_the_check_and_others_do_not() {
    let owner = user_principal("alice@corp.com", &[]);
    let mut labels = StringMap::new();
    labels.insert(OWNER_LABEL.to_string(), "bob-uuid-5678".to_string());
    stamp_owner(&mut labels, Some(&owner)).unwrap();
    assert!(check_owner(&labels, Some(&owner), "openshell-admin").is_ok());
    assert!(check_owner(&labels, Some(&bob()), "openshell-admin").is_err());
}

#[test]
fn owner_selector_empty_base() {
    let principal = alice();
    let result = owner_selector(Some(&principal), "", "openshell-admin").unwrap();
    assert_eq!(result, "openshell.ai/owner=alice-uuid-1234");
}

#[test]
fn owner_selector_appends_to_existing() {
    let principal = alice();
    let result = owner_selector(Some(&principal), "env=dev", "openshell-admin").unwrap();
    assert_eq!(result, "env=dev,openshell.ai/owner=alice-uuid-1234");
}

#[test]
fn owner_selector_admin_sees_all() {
    let principal = admin_principal();
    let result = owner_selector(Some(&principal), "env=dev", "openshell-admin").unwrap();
    assert_eq!(result, "env=dev");
}

#[test]
fn owner_selector_anonymous_no_filter() {
    let result = owner_selector(Some(&Principal::Anonymous), "env=dev", "openshell-admin").unwrap();
    assert_eq!(result, "env=dev");
}

#[test]
fn owner_selector_none_no_filter() {
    let result = owner_selector(None, "", "openshell-admin").unwrap();
    assert_eq!(result, "");
}

#[test]
fn owner_selector_empty_subject_fails() {
    let nobody = user_principal("", &[]);
    let err = owner_selector(Some(&nobody), "env=dev", "openshell-admin").unwrap_err();
    assert_eq!(err.code(), Code::Unauthenticated);
}
