//! HTTP Basic Authentication credential checking.

use base64::Engine;
use vstd::prelude::*;

use crate::strutil::{chars_vec, spec_starts_with, starts_with, string_from_chars};

verus! {

/// What base64's standard-alphabet decode returns for a text; the result
/// depends on the text alone.
pub uninterp spec fn b64_decode(s: Seq<char>) -> Option<Seq<u8>>;

/// Relies on base64's `STANDARD` engine decode: the bytes a standard
/// base64 text denotes, or nothing for malformed input.
#[verifier::external_body]
fn base64_decode(s: &str) -> (r: Option<Vec<u8>>)
    ensures
        match r {
            Some(v) => b64_decode(s@) == Some(v@),
            None => b64_decode(s@) is None,
        },
{
    base64::engine::general_purpose::STANDARD.decode(s).ok()
}

/// What `String::from_utf8` returns for a byte sequence; the result
/// depends on the bytes alone.
pub uninterp spec fn utf8_decode(b: Seq<u8>) -> Option<Seq<char>>;

/// Relies on `String::from_utf8`: the text the bytes encode, or nothing
/// when they are not valid UTF-8.
#[verifier::external_body]
fn utf8_to_string(b: Vec<u8>) -> (r: Option<String>)
    ensures
        match r {
            Some(s) => utf8_decode(b@) == Some(s@),
            None => utf8_decode(b@) is None,
        },
{
    String::from_utf8(b).ok()
}

/// The decoded credential text is `user`, a colon, then `pass`, with the
/// user part free of colons.
pub open spec fn spec_creds_match(creds: Seq<char>, user: Seq<char>, pass: Seq<char>) -> bool {
    exists|k: int|
        {
            &&& 0 <= k < creds.len()
            &&& creds[k] == ':'
            &&& (forall|j: int| 0 <= j < k ==> creds[j] != ':')
            &&& #[trigger] creds.take(k) == user
            &&& creds.skip(k + 1) == pass
        }
}

/// Whether a Basic authentication header carries exactly these
/// credentials: `Basic `, then base64 of `user:password`, the user free
/// of colons.
pub open spec fn spec_valid_basic_auth(h: Seq<char>, user: Seq<char>, pass: Seq<char>) -> bool {
    &&& spec_starts_with(h, "Basic "@)
    &&& match b64_decode(h.skip(6)) {
        Some(bytes) => match utf8_decode(bytes) {
            Some(creds) => spec_creds_match(creds, user, pass),
            None => false,
        },
        None => false,
    }
}

/// Compares two strings in constant time over their length, as a defence
/// against timing attacks: the outcome says no more than whether they are
/// equal.
pub fn constant_time_compare(a: &str, b: &str) -> (r: bool)
    ensures
        r == (a@ == b@),
{
    let va = chars_vec(a);
    let vb = chars_vec(b);
    if va.len() != vb.len() {
        proof {
            assert(a@ != b@);
        }
        return false;
    }
    // the whole string is scanned whatever is found, so the running time
    // reveals only the length
    let mut diff = false;
    let mut i: usize = 0;
    while i < va.len()
        invariant
            0 <= i <= va@.len(),
            va@.len() == vb@.len(),
            va@ == a@,
            vb@ == b@,
            diff == !(forall|j: int| 0 <= j < i ==> va@[j] == vb@[j]),
        decreases va@.len() - i,
    {
        if va[i] != vb[i] {
            diff = true;
        }
        proof {
            if !diff {
                assert(forall|j: int| 0 <= j < i + 1 ==> va@[j] == vb@[j]);
            } else {
                assert(!(forall|j: int| 0 <= j < i + 1 ==> va@[j] == vb@[j]));
            }
        }
        i = i + 1;
    }
    proof {
        if !diff {
            assert(a@ =~= b@);
        }
    }
    !diff
}

/// Validates an HTTP Basic Authentication header against the expected
/// user and password; see [`spec_valid_basic_auth`].
pub fn validate_basic_auth(auth_header: &str, expected_user: &str, expected_pass: &str) -> (r:
    bool)
    ensures
        r == spec_valid_basic_auth(auth_header@, expected_user@, expected_pass@),
{
    let h = chars_vec(auth_header);
    let prefix = chars_vec("Basic ");
    if !starts_with(h.as_slice(), prefix.as_slice()) {
        return false;
    }
    proof {
        assert(prefix@.len() == 6) by {
            reveal_strlit("Basic ");
        }
    }
    let rest = vstd::slice::slice_to_vec(
        vstd::slice::slice_subrange(h.as_slice(), 6, h.len()),
    );
    proof {
        assert(rest@ =~= auth_header@.skip(6));
    }
    let encoded = string_from_chars(rest.as_slice());
    let decoded = match base64_decode(encoded.as_str()) {
        Some(d) => d,
        None => {
            return false;
        },
    };
    let ghost dbytes = decoded@;
    let credentials = match utf8_to_string(decoded) {
        Some(c) => c,
        None => {
            return false;
        },
    };
    proof {
        assert(spec_starts_with(auth_header@, "Basic "@));
        assert(b64_decode(auth_header@.skip(6)) == Some(dbytes));
        assert(utf8_decode(dbytes) == Some(credentials@));
    }
    let cv = chars_vec(credentials.as_str());
    match crate::strutil::split_first(cv.as_slice(), ':') {
        Some((user_part, pass_part)) => {
            let ghost k = choose|k: int|
                0 <= k < cv@.len() && cv@[k] == ':' && (forall|j: int|
                    0 <= j < k ==> cv@[j] != ':') && user_part@ == cv@.take(k) && pass_part@
                    == cv@.skip(k + 1);
            proof {
                // the first colon is unique, so any witness of the header
                // being valid is this very split point
                assert forall|k2: int|
                    0 <= k2 < cv@.len() && cv@[k2] == ':' && (forall|j: int|
                        0 <= j < k2 ==> cv@[j] != ':') implies k2 == k by {
                    if k2 < k {
                        assert(cv@[k2] != ':');
                    } else if k2 > k {
                        assert(cv@[k] != ':');
                    }
                }
            }
            let user = string_from_chars(user_part.as_slice());
            let pass = string_from_chars(pass_part.as_slice());
            let user_matches = constant_time_compare(user.as_str(), expected_user);
            let pass_matches = constant_time_compare(pass.as_str(), expected_pass);
            proof {
                let creds = credentials@;
                if user_matches && pass_matches {
                    assert(0 <= k < creds.len());
                    assert(creds[k] == ':');
                    assert(forall|j: int| 0 <= j < k ==> creds[j] != ':');
                    assert(creds.take(k) == expected_user@);
                    assert(creds.skip(k + 1) == expected_pass@);
                    assert(spec_creds_match(creds, expected_user@, expected_pass@));
                    assert(spec_valid_basic_auth(auth_header@, expected_user@, expected_pass@));
                } else {
                    if spec_creds_match(creds, expected_user@, expected_pass@) {
                        let k2 = choose|k2: int|
                            {
                                &&& 0 <= k2 < creds.len()
                                &&& creds[k2] == ':'
                                &&& (forall|j: int| 0 <= j < k2 ==> creds[j] != ':')
                                &&& #[trigger] creds.take(k2) == expected_user@
                                &&& creds.skip(k2 + 1) == expected_pass@
                            };
                        assert(k2 == k);
                        assert(false);
                    }
                    assert(!spec_valid_basic_auth(auth_header@, expected_user@, expected_pass@));
                }
            }
            user_matches && pass_matches
        },
        None => false,
    }
}

} // verus!
