//! Interception policy: every TLS tunnel is terminated so the request line is
//! visible, but only requests whose authority names one of the known
//! game-service domains are redirected to the configured backend.

use vstd::prelude::*;
use crate::strutil::{has_substr, has_suffix, contains_sub, ends_with_str};

verus! {

/// The redirect rule table: a request's authority matches when it mentions
/// one of the known game-service domains, or ends in the one special suffix
/// rule.
pub open spec fn spec_should_redirect(authority: Seq<char>) -> bool {
    ||| has_substr(authority, "hoyoverse.com"@)
    ||| has_substr(authority, "mihoyo.com"@)
    ||| has_substr(authority, "yuanshen.com"@)
    ||| has_suffix(authority, ".yuanshen.com:12401"@)
    ||| has_substr(authority, "starrails.com"@)
    ||| has_substr(authority, "bhsr.com"@)
    ||| has_substr(authority, "bh3.com"@)
    ||| has_substr(authority, "honkaiimpact3.com"@)
    ||| has_substr(authority, "zenlesszonezero.com"@)
    ||| has_substr(authority, "stellasora.global"@)
    ||| has_substr(authority, "yostarplat.com"@)
}

/// True exactly when the request's authority — its host, with the port where
/// one is named — matches one of the configured rules. Only the authority is
/// judged: a path or query mentioning a rule domain does not match. This
/// never blocks and never fails.
pub fn should_redirect(authority: &str) -> (r: bool)
    ensures
        r == spec_should_redirect(authority@),
{
    contains_sub(authority, "hoyoverse.com") || contains_sub(authority, "mihoyo.com")
        || contains_sub(authority, "yuanshen.com") || ends_with_str(
        authority,
        ".yuanshen.com:12401",
    ) || contains_sub(authority, "starrails.com") || contains_sub(authority, "bhsr.com")
        || contains_sub(authority, "bh3.com") || contains_sub(authority, "honkaiimpact3.com")
        || contains_sub(authority, "zenlesszonezero.com") || contains_sub(
        authority,
        "stellasora.global",
    ) || contains_sub(authority, "yostarplat.com")
}

/// Decryption is universal: every tunneled connection is terminated and
/// inspected, whatever its destination, so that `should_redirect` can see the
/// plaintext request line.
pub fn should_decrypt() -> (r: bool)
    ensures
        r,
{
    true
}

} // verus!
