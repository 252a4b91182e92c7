//! The credential verifier: reading a `Basic` authorization header and
//! holding its password against the configured bcrypt hash.

use vstd::prelude::*;
use vstd::slice::slice_subrange;

use crate::b64;
use crate::json;

verus! {

/// Whether bcrypt accepts the password for the hash: the result of
/// `bcrypt::verify` returning `Ok(true)`, a function of the two arguments
/// alone. A malformed hash accepts nothing.
pub uninterp spec fn bcrypt_accepts(password: Seq<u8>, hash: Seq<char>) -> bool;

/// Relies on bcrypt::verify: whether a password matches a bcrypt hash
/// depends on the password and the hash alone; an error (a malformed hash)
/// counts as a mismatch.
#[verifier::external_body]
fn bcrypt_verify(password: &[u8], hash: &str) -> (r: bool)
    ensures
        r == bcrypt_accepts(password@, hash@),
{
    bcrypt::verify(password, hash).unwrap_or(false)
}

/// `Basic ` — the scheme tag and the single space before the credential.
pub open spec fn basic_prefix() -> Seq<u8> {
    seq![66u8, 97u8, 115u8, 105u8, 99u8, 32u8]
}

/// What follows the first colon, or `None` when there is no colon: the
/// password component of a decoded `user:password` credential.
pub open spec fn colon_split(d: Seq<u8>) -> Option<Seq<u8>>
    decreases d.len(),
{
    if d.len() == 0 {
        None
    } else if d[0] == 58 {
        Some(d.skip(1))
    } else {
        colon_split(d.skip(1))
    }
}

/// A header passes exactly when it carries the `Basic` scheme, its credential
/// is well-formed base64 holding a colon, and bcrypt accepts the part after
/// the first colon for the configured hash. Everything else fails: wrong
/// scheme, malformed base64, no colon, wrong password.
pub open spec fn spec_basic_auth_ok(header: Seq<u8>, hash: Seq<char>) -> bool {
    &&& header.len() >= 6
    &&& header.subrange(0, 6) == basic_prefix()
    &&& match b64::b64_decode(header.skip(6)) {
        Some(d) => match colon_split(d) {
            Some(pw) => bcrypt_accepts(pw, hash),
            None => false,
        },
        None => false,
    }
}

proof fn lemma_colon_split_found(d: Seq<u8>, i: int)
    requires
        0 <= i < d.len(),
        d[i] == 58,
        forall|k: int| 0 <= k < i ==> d[k] != 58,
    ensures
        colon_split(d) == Some(d.skip(i + 1)),
    decreases i,
{
    if i == 0 {
    } else {
        assert(forall|k: int| 0 <= k < i - 1 ==> d.skip(1)[k] == d[k + 1]);
        lemma_colon_split_found(d.skip(1), i - 1);
        assert(d.skip(1).skip(i) =~= d.skip(i + 1));
    }
}

proof fn lemma_colon_split_none(d: Seq<u8>)
    requires
        forall|k: int| 0 <= k < d.len() ==> d[k] != 58,
    ensures
        colon_split(d) is None,
    decreases d.len(),
{
    if d.len() > 0 {
        assert(forall|k: int| 0 <= k < d.len() - 1 ==> d.skip(1)[k] == d[k + 1]);
        lemma_colon_split_none(d.skip(1));
    }
}

/// Check a presented authorization header against the configured bcrypt
/// hash. True exactly on well-formed `Basic` headers whose password bcrypt
/// accepts; false on every other input, silently.
pub fn check_basic_auth(header: &[u8], secret_hash: &str) -> (r: bool)
    ensures
        r == spec_basic_auth_ok(header@, secret_hash@),
{
    let prefix = basic_prefix_x();
    if !json::match_at(header, 0, prefix.as_slice()) {
        proof {
            assert(header@.subrange(0int, basic_prefix().len() as int) == header@.subrange(
                0int,
                6int,
            ));
        }
        return false;
    }
    let encoded = slice_subrange(header, 6, header.len());
    proof {
        assert(encoded@ =~= header@.skip(6));
    }
    let decoded_opt = b64::decode(encoded);
    let decoded = match decoded_opt {
        Some(d) => d,
        None => {
            return false;
        },
    };
    let m = decoded.len();
    let mut k: usize = 0;
    while k < m
        invariant
            k <= m,
            m == decoded@.len(),
            header@.len() >= 6,
            header@.subrange(0, 6) == basic_prefix(),
            b64::b64_decode(header@.skip(6)) == Some(decoded@),
            forall|t: int| 0 <= t < k ==> decoded@[t] != 58,
        decreases m - k,
    {
        if decoded[k] == 58 {
            proof {
                lemma_colon_split_found(decoded@, k as int);
            }
            let pw = slice_subrange(decoded.as_slice(), k + 1, m);
            proof {
                assert(pw@ =~= decoded@.skip(k + 1));
            }
            return bcrypt_verify(pw, secret_hash);
        }
        k = k + 1;
    }
    proof {
        lemma_colon_split_none(decoded@);
    }
    false
}

fn basic_prefix_x() -> (v: Vec<u8>)
    ensures
        v@ == basic_prefix(),
{
    let mut v: Vec<u8> = Vec::new();
    v.push(66);
    v.push(97);
    v.push(115);
    v.push(105);
    v.push(99);
    v.push(32);
    proof {
        assert(v@ =~= basic_prefix());
    }
    v
}

} // verus!
