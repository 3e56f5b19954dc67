use crate::error::{Error, Result};
use vstd::prelude::*;

verus! {

/// Number of bytes of a public-key fingerprint.
pub const FINGERPRINT_LEN: usize = 20;

/// How far in the future, in seconds, a signature's creation time may lie.
pub const MAX_SIGNATURE_SKEW_SECS: i64 = 10;

/// Folder under which users' public keys are cached.
pub const USER_PUBLIC_KEY_FOLDER: &'static str = "data/user_public_keys/";

/// Upper-case hexadecimal digit of a value below 16.
pub open spec fn hex_digit_upper(n: u8) -> char {
    if n < 10 {
        ((48 + n) as u8) as char
    } else {
        ((55 + n) as u8) as char
    }
}

/// Two upper-case hexadecimal digits per byte, high half first.
pub open spec fn upper_hex(b: Seq<u8>) -> Seq<char>
    decreases b.len(),
{
    if b.len() == 0 {
        Seq::empty()
    } else {
        upper_hex(b.drop_last()) + seq![hex_digit_upper(b.last() / 16), hex_digit_upper(b.last() % 16)]
    }
}

/// Relies on `hex::encode_upper`: for each byte, in order, the upper-case hexadecimal digit of
/// its high half, then that of its low half.
#[verifier::external_body]
fn encode_upper(bytes: &[u8]) -> (r: String)
    ensures
        r@ == upper_hex(bytes@),
{
    hex::encode_upper(bytes)
}

/// The upper-case hexadecimal form of a 20-byte fingerprint.
pub fn fingerprint_hex(fingerprint: &[u8]) -> (r: Result<String>)
    ensures
        match r {
            Ok(s) => fingerprint@.len() == FINGERPRINT_LEN && s@ == upper_hex(fingerprint@),
            Err(e) => fingerprint@.len() != FINGERPRINT_LEN && e == Error::InvalidFingerprint,
        },
{
    if fingerprint.len() != FINGERPRINT_LEN {
        return Err(Error::InvalidFingerprint);
    }
    Ok(encode_upper(fingerprint))
}

/// Whether a downloaded key's fingerprint is the one that was asked for (in upper-case hex).
pub fn fingerprint_matches(requested_hex: &str, downloaded: &[u8]) -> (r: bool)
    ensures
        r == (upper_hex(downloaded@) == requested_hex@),
{
    let hex = encode_upper(downloaded);
    let a = hex.as_str();
    if a.unicode_len() != requested_hex.unicode_len() {
        return false;
    }
    let n = a.unicode_len();
    let mut i: usize = 0;
    while i < n
        invariant
            n == a@.len(),
            n == requested_hex@.len(),
            a@ == upper_hex(downloaded@),
            i <= n,
            forall|j: int| 0 <= j < i ==> a@[j] == requested_hex@[j],
        decreases n - i,
    {
        if a.get_char(i) != requested_hex.get_char(i) {
            return false;
        }
        i = i + 1;
    }
    assert(a@ =~= requested_hex@);
    true
}

/// The key-server address that serves the public key with fingerprint `fingerprint_hex`.
pub fn key_lookup_url(key_server: &str, fingerprint_hex: &str) -> (r: String)
    ensures
        r@ == key_server@ + "/pks/lookup?op=get&options=mr&search="@ + fingerprint_hex@,
{
    let mut r = String::from_str(key_server);
    r.append("/pks/lookup?op=get&options=mr&search=");
    r.append(fingerprint_hex);
    r
}

/// Where the public key with fingerprint `fingerprint_hex` is cached.
pub fn cached_key_path(fingerprint_hex: &str) -> (r: String)
    ensures
        r@ == USER_PUBLIC_KEY_FOLDER@ + fingerprint_hex@ + ".asc"@,
{
    let mut r = String::from_str(USER_PUBLIC_KEY_FOLDER);
    r.append(fingerprint_hex);
    r.append(".asc");
    r
}

/// Checks a signature's creation time (seconds since the epoch) against the time now: it may
/// lie at most ten seconds ahead.
pub fn check_signature_time(created: i64, now: i64) -> (r: Result)
    ensures
        match r {
            Ok(_) => now + MAX_SIGNATURE_SKEW_SECS <= i64::MAX && created <= now
                + MAX_SIGNATURE_SKEW_SECS,
            Err(e) => if now + MAX_SIGNATURE_SKEW_SECS > i64::MAX {
                e == Error::UnexpectedServerArg
            } else {
                created > now + MAX_SIGNATURE_SKEW_SECS && e == Error::InvalidMessage
            },
        },
{
    let limit = match now.checked_add(MAX_SIGNATURE_SKEW_SECS) {
        Some(l) => l,
        None => {
            return Err(Error::UnexpectedServerArg);
        },
    };
    if created > limit {
        return Err(Error::InvalidMessage);
    }
    Ok(())
}

} // verus!
