//! Random identifiers.
use crate::crypto::is_lower_hex;
use vstd::prelude::*;

verus! {

/// A random (version 4) UUID in its hyphenated lower-case form.
pub open spec fn is_uuid(s: Seq<char>) -> bool {
    &&& s.len() == 36
    &&& forall|i: int|
        #![trigger s[i]]
        0 <= i < 36 ==> if i == 8 || i == 13 || i == 18 || i == 23 {
            s[i] == '-'
        } else {
            is_lower_hex(s[i])
        }
    &&& s[14] == '4'
    &&& s[19] == '8' || s[19] == '9' || s[19] == 'a' || s[19] == 'b'
}

/// Calls `uuid::Uuid::new_v4` and writes the result out. Claims the hyphenated
/// lower-case form, with the version and variant digits of a random UUID.
/// Which UUID comes back is left to chance.
#[verifier::external_body]
pub(crate) fn new_uuid() -> (r: String)
    ensures
        is_uuid(r@),
{
    uuid::Uuid::new_v4().to_string()
}

} // verus!
