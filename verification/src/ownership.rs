//! Per-user sandbox ownership.
//!
//! A sandbox carries the label [`OWNER_LABEL`], stamped from the verified identity
//! of the caller who created it. Later operations are open to that caller and to
//! administrators.
use crate::crypto::{
    hex_encode, is_lower_hex, lemma_lower_hex_digits, lower_hex, sha256, sha256_digest,
};
use crate::status::{fails, Code, Status};
use crate::string_map::StringMap;
use crate::text::{
    ascii_alphanumeric, chars_of, concat3, is_ascii_alphanumeric, prefix, same_text,
};
use vstd::prelude::*;
use vstd::utf8::encode_utf8;

verus! {

/// The label that names a sandbox's owner. Set by the server alone.
pub const OWNER_LABEL: &'static str = "openshell.ai/owner";

/// What the keys of the server's own labels begin with.
pub const RESERVED_PREFIX: &'static str = "openshell.ai/";

/// Who vouches for an identity.
#[derive(Debug, Clone, Copy, PartialEq, Eq)]
pub enum IdentityProvider {
    Oidc,
}

/// A verified identity.
#[derive(Debug)]
pub struct Identity {
    pub subject: String,
    pub display_name: Option<String>,
    pub roles: Vec<String>,
    pub scopes: Vec<String>,
    pub provider: IdentityProvider,
}

/// A caller with an identity of their own.
#[derive(Debug)]
pub struct UserPrincipal {
    pub identity: Identity,
}

/// A caller that is itself a sandbox.
#[derive(Debug)]
pub struct SandboxPrincipal {
    pub sandbox_id: String,
}

/// Who a request comes from.
#[derive(Debug)]
pub enum Principal {
    User(UserPrincipal),
    Sandbox(SandboxPrincipal),
    Anonymous,
}

/// A character that a label value may hold.
pub open spec fn is_label_char(c: char) -> bool {
    is_ascii_alphanumeric(c) || c == '-' || c == '_' || c == '.'
}

/// A value that a Kubernetes label can have.
pub open spec fn is_label_value(s: Seq<char>) -> bool {
    &&& 0 < s.len() <= 63
    &&& is_ascii_alphanumeric(s[0])
    &&& is_ascii_alphanumeric(s.last())
    &&& forall|i: int| 0 <= i < s.len() ==> is_label_char(#[trigger] s[i])
}

/// The label value that stands for a subject: the subject itself where it can be
/// one, else the first 63 hexadecimal digits of its SHA-256 digest.
pub open spec fn owner_value(subject: Seq<char>) -> Seq<char> {
    if is_label_value(subject) {
        subject
    } else {
        lower_hex(sha256(encode_utf8(subject))).take(63)
    }
}

/// Whether `value` can be a label value.
fn is_valid_label_value(value: &str) -> (r: bool)
    ensures
        r == is_label_value(value@),
{
    let chars = chars_of(value);
    if chars.len() == 0 || chars.len() > 63 {
        return false;
    }
    if !ascii_alphanumeric(chars[0]) || !ascii_alphanumeric(chars[chars.len() - 1]) {
        return false;
    }
    for i in 0..chars.len()
        invariant
            chars@ == value@,
            forall|j: int| 0 <= j < i ==> is_label_char(#[trigger] chars@[j]),
    {
        let c = chars[i];
        if !(ascii_alphanumeric(c) || c == '-' || c == '_' || c == '.') {
            return false;
        }
    }
    true
}

/// The label value made of a digest: the first 63 of its hexadecimal digits.
pub fn digest_label(digest: &[u8]) -> (r: String)
    requires
        digest@.len() >= 32,
    ensures
        r@ == lower_hex(digest@).take(63),
        r@.len() == 63,
        is_label_value(r@),
{
    let hex = hex_encode(digest);
    let value = prefix(hex.as_str(), 63);
    proof {
        lemma_lower_hex_digits(digest@);
        assert forall|i: int| 0 <= i < value@.len() implies is_ascii_alphanumeric(
            #[trigger] value@[i],
        ) by {
            assert(is_lower_hex(lower_hex(digest@)[i]));
        }
        assert(is_ascii_alphanumeric(value@[0]));
        assert(is_ascii_alphanumeric(value@[62]));
    }
    value
}

/// The label value that stands for `subject`. An empty subject names nobody.
pub fn sanitize_subject(subject: &str) -> (r: Result<String, Status>)
    ensures
        r is Ok <==> subject@.len() > 0,
        subject@.len() == 0 ==> fails(
            r,
            Code::Unauthenticated,
            "identity subject is empty; cannot determine sandbox owner"@,
        ),
        r matches Ok(value) ==> value@ == owner_value(subject@) && is_label_value(value@),
        subject@.len() > 0 && !is_label_value(subject@) ==> r->Ok_0@.len() == 63,
{
    if subject.is_empty() {
        return Err(
            Status::new(
                Code::Unauthenticated,
                "identity subject is empty; cannot determine sandbox owner",
            ),
        );
    }
    if is_valid_label_value(subject) {
        return Ok(subject.to_owned());
    }
    let digest = sha256_digest(subject.as_bytes());
    Ok(digest_label(digest.as_slice()))
}

/// The identity behind a principal, if it is a user.
pub open spec fn identity_of(principal: Option<&Principal>) -> Option<Identity> {
    match principal {
        Some(Principal::User(user)) => Some(user.identity),
        _ => None,
    }
}

/// The identity of a caller who must be a user.
fn require_identity<'a>(principal: Option<&'a Principal>) -> (r: Result<&'a Identity, Status>)
    ensures
        match identity_of(principal) {
            Some(identity) => r matches Ok(found) && *found == identity,
            None => fails(
                r,
                Code::Unauthenticated,
                "authenticated user identity required for sandbox operations"@,
            ),
        },
{
    match principal {
        Some(Principal::User(user)) => Ok(&user.identity),
        _ => Err(
            Status::new(
                Code::Unauthenticated,
                "authenticated user identity required for sandbox operations",
            ),
        ),
    }
}

/// The identity of a caller, if they have one.
fn principal_identity<'a>(principal: Option<&'a Principal>) -> (r: Option<&'a Identity>)
    ensures
        match identity_of(principal) {
            Some(identity) => r matches Some(found) && *found == identity,
            None => r is None,
        },
{
    match principal {
        Some(Principal::User(user)) => Some(&user.identity),
        _ => None,
    }
}

/// Labels without those whose keys are reserved.
pub open spec fn without_reserved<V>(labels: Map<Seq<char>, V>) -> Map<Seq<char>, V> {
    labels.restrict(Set::new(|key: Seq<char>| !RESERVED_PREFIX@.is_prefix_of(key)))
}

/// Labels as they stand after a user with the subject `subject` has been stamped on
/// them as the owner.
pub open spec fn stamped(
    labels: Map<Seq<char>, Seq<char>>,
    subject: Seq<char>,
) -> Map<Seq<char>, Seq<char>> {
    without_reserved(labels).insert(OWNER_LABEL@, owner_value(subject))
}

/// Drops the reserved labels that a client sent and stamps the caller as the owner.
///
/// A caller without an identity is refused before the labels are touched. One whose
/// subject is empty is refused too, after the reserved labels were dropped.
pub fn stamp_owner(labels: &mut StringMap<String>, principal: Option<&Principal>) -> (r: Result<
    (),
    Status,
>)
    ensures
        match identity_of(principal) {
            None => {
                &&& fails(
                    r,
                    Code::Unauthenticated,
                    "authenticated user identity required for sandbox operations"@,
                )
                &&& final(labels)@ == old(labels)@
            },
            Some(identity) => if identity.subject@.len() == 0 {
                &&& fails(
                    r,
                    Code::Unauthenticated,
                    "identity subject is empty; cannot determine sandbox owner"@,
                )
                &&& final(labels).deep_view() == without_reserved(old(labels).deep_view())
            } else {
                &&& r is Ok
                &&& final(labels).deep_view() == stamped(
                    old(labels).deep_view(),
                    identity.subject@,
                )
            },
        },
{
    let identity = match require_identity(principal) {
        Ok(identity) => identity,
        Err(e) => {
            return Err(e);
        },
    };
    labels.remove_prefix(RESERVED_PREFIX);
    assert(labels.deep_view() =~= without_reserved(old(labels).deep_view()));
    let owner = match sanitize_subject(identity.subject.as_str()) {
        Ok(owner) => owner,
        Err(e) => {
            return Err(e);
        },
    };
    labels.insert(OWNER_LABEL.to_owned(), owner);
    assert(labels.deep_view() =~= stamped(old(labels).deep_view(), identity.subject@));
    Ok(())
}

/// Whether `identity` holds the administrators' role, where there is one.
pub open spec fn is_admin(identity: Identity, admin_role: Seq<char>) -> bool {
    admin_role.len() > 0 && exists|i: int|
        0 <= i < identity.roles@.len() && #[trigger] identity.roles@[i]@ == admin_role
}

fn holds_admin_role(identity: &Identity, admin_role: &str) -> (r: bool)
    ensures
        r == is_admin(*identity, admin_role@),
{
    if admin_role.is_empty() {
        return false;
    }
    for i in 0..identity.roles.len()
        invariant
            admin_role@.len() > 0,
            forall|j: int| 0 <= j < i ==> #[trigger] identity.roles@[j]@ != admin_role@,
    {
        if same_text(identity.roles[i].as_str(), admin_role) {
            assert(identity.roles@[i as int]@ == admin_role@);
            return true;
        }
    }
    false
}

/// Why a caller may not work with a sandbox that has the labels `labels`, or `None`
/// where they may.
pub open spec fn owner_refusal(
    labels: Map<Seq<char>, Seq<char>>,
    caller: Option<Identity>,
    admin_role: Seq<char>,
) -> Option<(Code, Seq<char>)> {
    if !labels.contains_key(OWNER_LABEL@) {
        None
    } else {
        match caller {
            None => Some(
                (Code::PermissionDenied, "sandbox is owned; authenticated identity required"@),
            ),
            Some(identity) => if is_admin(identity, admin_role) {
                None
            } else if identity.subject@.len() == 0 {
                Some(
                    (
                        Code::Unauthenticated,
                        "identity subject is empty; cannot determine sandbox owner"@,
                    ),
                )
            } else if owner_value(identity.subject@) != labels[OWNER_LABEL@] {
                Some((Code::PermissionDenied, "you do not own this sandbox"@))
            } else {
                None
            },
        }
    }
}

/// Checks that the caller owns the sandbox or is an administrator. A sandbox without
/// an owner is open to everybody.
pub fn check_owner(
    sandbox_labels: &StringMap<String>,
    principal: Option<&Principal>,
    admin_role: &str,
) -> (r: Result<(), Status>)
    ensures
        match owner_refusal(
            sandbox_labels.deep_view(),
            identity_of(principal),
            admin_role@,
        ) {
            None => r is Ok,
            Some((code, text)) => fails(r, code, text),
        },
{
    let owner = match sandbox_labels.get(OWNER_LABEL) {
        Some(owner) => owner,
        None => {
            return Ok(());
        },
    };
    let identity = match principal_identity(principal) {
        Some(identity) => identity,
        None => {
            return Err(
                Status::new(
                    Code::PermissionDenied,
                    "sandbox is owned; authenticated identity required",
                ),
            );
        },
    };
    if holds_admin_role(identity, admin_role) {
        return Ok(());
    }
    let caller = match sanitize_subject(identity.subject.as_str()) {
        Ok(caller) => caller,
        Err(e) => {
            return Err(e);
        },
    };
    if !same_text(caller.as_str(), owner.as_str()) {
        return Err(Status::new(Code::PermissionDenied, "you do not own this sandbox"));
    }
    Ok(())
}

/// The selector for the sandboxes of one owner.
pub open spec fn owner_filter(subject: Seq<char>) -> Seq<char> {
    OWNER_LABEL@ + "="@ + owner_value(subject)
}

/// The selector for what a caller may list with `selector`, or why they may list nothing.
pub open spec fn narrowed(
    caller: Option<Identity>,
    selector: Seq<char>,
    admin_role: Seq<char>,
) -> Result<Seq<char>, (Code, Seq<char>)> {
    match caller {
        None => Ok(selector),
        Some(identity) => if is_admin(identity, admin_role) {
            Ok(selector)
        } else if identity.subject@.len() == 0 {
            Err(
                (
                    Code::Unauthenticated,
                    "identity subject is empty; cannot determine sandbox owner"@,
                ),
            )
        } else if selector.len() == 0 {
            Ok(owner_filter(identity.subject@))
        } else {
            Ok(selector + ","@ + owner_filter(identity.subject@))
        },
    }
}

/// Narrows a label selector to the caller's own sandboxes. Administrators and
/// callers without an identity see what the selector lets through.
pub fn owner_selector(
    principal: Option<&Principal>,
    existing_selector: &str,
    admin_role: &str,
) -> (r: Result<String, Status>)
    ensures
        match identity_of(principal) {
            None => r matches Ok(selector) && selector@ == existing_selector@,
            Some(identity) => if is_admin(identity, admin_role@) {
                r matches Ok(selector) && selector@ == existing_selector@
            } else if identity.subject@.len() == 0 {
                fails(
                    r,
                    Code::Unauthenticated,
                    "identity subject is empty; cannot determine sandbox owner"@,
                )
            } else if existing_selector@.len() == 0 {
                r matches Ok(selector) && selector@ == owner_filter(identity.subject@)
            } else {
                r matches Ok(selector) && selector@ == existing_selector@ + ","@ + owner_filter(
                    identity.subject@,
                )
            },
        },
        match narrowed(identity_of(principal), existing_selector@, admin_role@) {
            Ok(text) => r matches Ok(selector) && selector@ == text,
            Err((code, text)) => fails(r, code, text),
        },
{
    let identity = match principal_identity(principal) {
        Some(identity) => identity,
        None => {
            return Ok(existing_selector.to_owned());
        },
    };
    if holds_admin_role(identity, admin_role) {
        return Ok(existing_selector.to_owned());
    }
    let owner = match sanitize_subject(identity.subject.as_str()) {
        Ok(owner) => owner,
        Err(e) => {
            return Err(e);
        },
    };
    let filter = concat3(OWNER_LABEL, "=", owner.as_str());
    if existing_selector.is_empty() {
        Ok(filter)
    } else {
        Ok(concat3(existing_selector, ",", filter.as_str()))
    }
}

/// The caller who was stamped as the owner passes the check, whatever labels the
/// sandbox was created with.
pub proof fn stamped_owner_is_admitted(
    labels: Map<Seq<char>, Seq<char>>,
    caller: Identity,
    admin_role: Seq<char>,
)
    requires
        caller.subject@.len() > 0,
    ensures
        owner_refusal(stamped(labels, caller.subject@), Some(caller), admin_role) is None,
{
}

/// A caller who is no administrator passes the check on a stamped sandbox only if
/// their subject has the owner's label value; and nobody without an identity does.
pub proof fn stamped_sandbox_refuses_others(
    labels: Map<Seq<char>, Seq<char>>,
    owner: Seq<char>,
    caller: Option<Identity>,
    admin_role: Seq<char>,
)
    requires
        caller matches Some(identity) ==> !is_admin(identity, admin_role) && owner_value(
            identity.subject@,
        ) != owner_value(owner),
    ensures
        owner_refusal(stamped(labels, owner), caller, admin_role) is Some,
{
}

/// A caller one of whose roles is the administrators' role, wherever it stands among them,
/// passes the check on every sandbox and lists what the selector lets through.
pub proof fn any_admin_role_admits(
    labels: Map<Seq<char>, Seq<char>>,
    caller: Identity,
    admin_role: Seq<char>,
    selector: Seq<char>,
    i: int,
)
    requires
        0 <= i < caller.roles@.len(),
        caller.roles@[i]@ == admin_role,
        admin_role.len() > 0,
    ensures
        owner_refusal(labels, Some(caller), admin_role) is None,
        narrowed(Some(caller), selector, admin_role) == Ok::<Seq<char>, (Code, Seq<char>)>(
            selector,
        ),
{
}

/// What a caller may do depends on which roles they have, not on the order in which the roles
/// stand, how often each stands there, or anything else about them but their subject.
pub proof fn order_of_roles_is_no_matter(
    labels: Map<Seq<char>, Seq<char>>,
    one: Identity,
    other: Identity,
    admin_role: Seq<char>,
    selector: Seq<char>,
)
    requires
        one.subject@ == other.subject@,
        forall|i: int|
            0 <= i < one.roles@.len() ==> exists|j: int|
                0 <= j < other.roles@.len() && #[trigger] other.roles@[j]@
                    == #[trigger] one.roles@[i]@,
        forall|j: int|
            0 <= j < other.roles@.len() ==> exists|i: int|
                0 <= i < one.roles@.len() && #[trigger] one.roles@[i]@
                    == #[trigger] other.roles@[j]@,
    ensures
        owner_refusal(labels, Some(one), admin_role) == owner_refusal(
            labels,
            Some(other),
            admin_role,
        ),
        narrowed(Some(one), selector, admin_role) == narrowed(Some(other), selector, admin_role),
{
}

/// A sandbox that has an owner is open only to callers with an identity: to those who hold
/// the administrators' role, and to those whose subject stands in its label. Where there is no
/// such role, nobody holds it.
pub proof fn owned_sandbox_admits_no_others(
    labels: Map<Seq<char>, Seq<char>>,
    caller: Option<Identity>,
    admin_role: Seq<char>,
)
    requires
        labels.contains_key(OWNER_LABEL@),
        owner_refusal(labels, caller, admin_role) is None,
    ensures
        caller matches Some(identity) && {
            ||| admin_role.len() > 0 && exists|i: int|
                0 <= i < identity.roles@.len() && #[trigger] identity.roles@[i]@ == admin_role
            ||| identity.subject@.len() > 0 && labels[OWNER_LABEL@] == owner_value(
                identity.subject@,
            )
        },
{
}

/// A sandbox without an owner is open to everybody.
pub proof fn unowned_sandbox_admits_all(
    labels: Map<Seq<char>, Seq<char>>,
    caller: Option<Identity>,
    admin_role: Seq<char>,
)
    requires
        !labels.contains_key("openshell.ai/owner"@),
    ensures
        owner_refusal(labels, caller, admin_role) is None,
{
}

/// A caller who holds no administrators' role is never given the selector as it is: what they
/// list is what it lets through, narrowed to the sandboxes with their own label.
pub proof fn others_list_their_own(
    caller: Identity,
    admin_role: Seq<char>,
    selector: Seq<char>,
)
    requires
        admin_role.len() == 0 || forall|i: int|
            0 <= i < caller.roles@.len() ==> #[trigger] caller.roles@[i]@ != admin_role,
        caller.subject@.len() > 0,
    ensures
        narrowed(Some(caller), selector, admin_role) matches Ok(narrow) && {
            let own = "openshell.ai/owner="@ + owner_value(caller.subject@);
            &&& selector.len() == 0 ==> narrow == own
            &&& selector.len() > 0 ==> narrow == selector + ","@ + own
        },
{
    reveal_strlit("openshell.ai/owner");
    reveal_strlit("openshell.ai/owner=");
    reveal_strlit("=");
    assert("openshell.ai/owner="@ =~= OWNER_LABEL@ + "="@);
    assert(selector + ","@ + ("openshell.ai/owner="@ + owner_value(caller.subject@)) =~= selector
        + ","@ + owner_filter(caller.subject@));
}

/// A subject that Kubernetes takes as a label value stands for itself, and every other one is
/// stood for by sixty-three hexadecimal digits.
pub proof fn subjects_stand_for_themselves(subject: Seq<char>)
    requires
        0 < subject.len() <= 63,
        forall|i: int|
            0 <= i < subject.len() ==> is_ascii_alphanumeric(#[trigger] subject[i])
                || subject[i] == '-' || subject[i] == '_' || subject[i] == '.',
        is_ascii_alphanumeric(subject[0]),
        is_ascii_alphanumeric(subject.last()),
    ensures
        owner_value(subject) == subject,
{
}

/// Two subjects that can both be label values are told apart.
pub proof fn label_subjects_are_told_apart(a: Seq<char>, b: Seq<char>)
    requires
        is_label_value(a),
        is_label_value(b),
        a != b,
    ensures
        owner_value(a) != owner_value(b),
{
}

/// After stamping, the only reserved label is the owner's, and every other label is
/// as the client sent it.
pub proof fn stamping_leaves_one_reserved_label(
    labels: Map<Seq<char>, Seq<char>>,
    subject: Seq<char>,
    key: Seq<char>,
)
    requires
        stamped(labels, subject).contains_key(key),
    ensures
        RESERVED_PREFIX@.is_prefix_of(key) <==> key == OWNER_LABEL@,
        key != OWNER_LABEL@ ==> labels.contains_key(key) && stamped(labels, subject)[key]
            == labels[key],
{
    reveal_strlit("openshell.ai/");
    reveal_strlit("openshell.ai/owner");
    assert(OWNER_LABEL@.subrange(0, RESERVED_PREFIX@.len() as int) =~= RESERVED_PREFIX@);
}

/// Stamping keeps every label whose key is not reserved, and sets the owner's to what stands
/// for the caller's subject.
pub proof fn stamping_keeps_other_labels(
    labels: Map<Seq<char>, Seq<char>>,
    subject: Seq<char>,
    key: Seq<char>,
)
    ensures
        labels.contains_key(key) && !"openshell.ai/"@.is_prefix_of(key) ==> stamped(
            labels,
            subject,
        ).contains_key(key) && stamped(labels, subject)[key] == labels[key],
        stamped(labels, subject).contains_key("openshell.ai/owner"@),
        stamped(labels, subject)["openshell.ai/owner"@] == owner_value(subject),
{
    reveal_strlit("openshell.ai/");
    reveal_strlit("openshell.ai/owner");
    assert("openshell.ai/owner"@.subrange(0, "openshell.ai/"@.len() as int) =~= "openshell.ai/"@);
}

/// Users have an identity, and nobody else has one.
pub proof fn only_users_have_an_identity(principal: Principal)
    ensures
        identity_of(None) is None,
        principal matches Principal::User(user) ==> identity_of(Some(&principal)) == Some(
            user.identity,
        ),
        !(principal is User) ==> identity_of(Some(&principal)) is None,
{
}

/// A caller who may not work with an owned sandbox is told why: one without an identity and one
/// who is not its owner have no permission, and one whose subject is empty is nobody.
pub proof fn refusals_say_why(
    labels: Map<Seq<char>, Seq<char>>,
    caller: Option<Identity>,
    admin_role: Seq<char>,
)
    requires
        labels.contains_key("openshell.ai/owner"@),
        caller matches Some(identity) ==> forall|i: int|
            0 <= i < identity.roles@.len() ==> #[trigger] identity.roles@[i]@ != admin_role,
    ensures
        match caller {
            None => owner_refusal(labels, caller, admin_role) matches Some((code, _)) && code
                == Code::PermissionDenied,
            Some(identity) => if identity.subject@.len() == 0 {
                owner_refusal(labels, caller, admin_role) matches Some((code, _)) && code
                    == Code::Unauthenticated
            } else if labels["openshell.ai/owner"@] != owner_value(identity.subject@) {
                owner_refusal(labels, caller, admin_role) matches Some((code, _)) && code
                    == Code::PermissionDenied
            } else {
                owner_refusal(labels, caller, admin_role) is None
            },
        },
{
}

} // verus!
