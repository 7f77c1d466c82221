//! Digests and their hexadecimal form.
use vstd::prelude::*;

verus! {

/// The SHA-256 digest of `data`.
pub uninterp spec fn sha256(data: Seq<u8>) -> Seq<u8>;

/// The HMAC of `data` under `key`, over SHA-256.
pub uninterp spec fn hmac_sha256_tag(key: Seq<u8>, data: Seq<u8>) -> Seq<u8>;

/// The lower-case hexadecimal digit for `d`.
pub open spec fn hex_digit(d: int) -> char {
    "0123456789abcdef"@[d]
}

/// `data` in lower-case hexadecimal, two digits for each byte.
pub open spec fn lower_hex(data: Seq<u8>) -> Seq<char> {
    Seq::new(
        data.len() * 2,
        |i: int|
            if i % 2 == 0 {
                hex_digit(data[i / 2] as int / 16)
            } else {
                hex_digit(data[i / 2] as int % 16)
            },
    )
}

/// A lower-case hexadecimal digit.
pub open spec fn is_lower_hex(c: char) -> bool {
    ('0' <= c && c <= '9') || ('a' <= c && c <= 'f')
}

/// Calls `sha2::Sha256::digest`. Claims that the digest depends on the bytes of
/// `data` alone and is 32 bytes long.
#[verifier::external_body]
pub(crate) fn sha256_digest(data: &[u8]) -> (r: Vec<u8>)
    ensures
        r@ == sha256(data@),
        r@.len() == 32,
{
    <sha2::Sha256 as sha2::Digest>::digest(data).to_vec()
}

/// Calls `hmac::Hmac::<sha2::Sha256>` on the whole of `data`. Claims that a key of
/// any length is taken, that the tag depends on the bytes of `key` and `data`
/// alone, and that it is 32 bytes long.
#[verifier::external_body]
pub(crate) fn hmac_sha256_digest(key: &[u8], data: &[u8]) -> (r: Vec<u8>)
    ensures
        r@ == hmac_sha256_tag(key@, data@),
        r@.len() == 32,
{
    let mut mac = <hmac::Hmac<sha2::Sha256> as hmac::Mac>::new_from_slice(key).expect("hmac key");
    hmac::Mac::update(&mut mac, data);
    hmac::Mac::finalize(mac).into_bytes().to_vec()
}

/// Calls `hex::encode`. Claims that it writes each byte as two lower-case
/// hexadecimal digits, the high half first.
#[verifier::external_body]
pub(crate) fn hex_encode(data: &[u8]) -> (r: String)
    ensures
        r@ == lower_hex(data@),
{
    hex::encode(data)
}

/// Every character of a hexadecimal text is a lower-case hexadecimal digit.
pub proof fn lemma_lower_hex_digits(data: Seq<u8>)
    ensures
        forall|i: int|
            0 <= i < lower_hex(data).len() ==> is_lower_hex(#[trigger] lower_hex(data)[i]),
{
    reveal_strlit("0123456789abcdef");
    assert forall|d: int| 0 <= d < 16 implies is_lower_hex(#[trigger] hex_digit(d)) by {
        let s = "0123456789abcdef"@;
        assert(d == 0 || d == 1 || d == 2 || d == 3 || d == 4 || d == 5 || d == 6 || d == 7 || d
            == 8 || d == 9 || d == 10 || d == 11 || d == 12 || d == 13 || d == 14 || d == 15);
    }
    assert forall|i: int| 0 <= i < lower_hex(data).len() implies is_lower_hex(
        #[trigger] lower_hex(data)[i],
    ) by {
        let b = data[i / 2] as int;
        assert(0 <= b / 16 < 16 && 0 <= b % 16 < 16);
    }
}

/// The HMAC of `data` under `key`, over SHA-256, in lower-case hexadecimal.
pub fn hmac_sha256(key: &[u8], data: &[u8]) -> (r: String)
    ensures
        r@ == lower_hex(hmac_sha256_tag(key@, data@)),
        r@.len() == 64,
{
    let tag = hmac_sha256_digest(key, data);
    hex_encode(tag.as_slice())
}

} // verus!
