//! API key check.

use vstd::prelude::*;
use vstd::utf8::*;

use crate::text::{blank, is_blank};

verus! {

broadcast use vstd::utf8::encode_utf8_decode_utf8;

/// Name of the request header that carries the API key.
pub const API_KEY_HEADER: &'static str = "leadr-api-key";

/// The configured API key.
#[derive(Debug, Clone)]
pub struct ApiKeyAuth {
    pub api_key: String,
}

impl ApiKeyAuth {
    pub fn new(api_key: String) -> (r: Self)
        ensures
            r.api_key == api_key,
    {
        Self { api_key }
    }

    /// Whether a provided key matches the configured one. Blank keys, on
    /// either side, never match. Keys of equal length are compared in time
    /// that does not depend on where they differ.
    pub fn validate_key(&self, provided_key: &str) -> (r: bool)
        ensures
            r == (!blank(provided_key@) && !blank(self.api_key@) && provided_key@
                == self.api_key@),
    {
        if is_blank(provided_key) || is_blank(self.api_key.as_str()) {
            return false;
        }
        let a = provided_key.as_bytes();
        let b = self.api_key.as_str().as_bytes();
        if a.len() != b.len() {
            return false;
        }
        let mut acc: u8 = 0;
        let mut i: usize = 0;
        while i < a.len()
            invariant
                a@.len() == b@.len(),
                0 <= i <= a@.len(),
                (acc == 0) == (forall|j: int| 0 <= j < i ==> a@[j] == b@[j]),
            decreases a@.len() - i,
        {
            let x = a[i];
            let y = b[i];
            let next = acc | (x ^ y);
            assert(next == 0 <==> (acc == 0 && x == y)) by (bit_vector)
                requires
                    next == acc | (x ^ y),
            ;
            acc = next;
            i = i + 1;
        }
        let same = acc == 0;
        proof {
            if same {
                assert(a@ =~= b@);
                assert(decode_utf8(encode_utf8(provided_key@)) == provided_key@);
                assert(decode_utf8(encode_utf8(self.api_key@)) == self.api_key@);
            }
        }
        same
    }
}

/// Why a request was refused.
#[derive(Debug, Clone, Copy, PartialEq, Eq, Structural)]
pub enum AuthFailure {
    /// No API key is configured: the service cannot check requests.
    NotConfigured,
    /// The request carries no key, or a key that does not match.
    Unauthorized,
}

impl AuthFailure {
    /// HTTP status code of the refusal.
    pub fn status_code(&self) -> (r: u16)
        ensures
            r == (match *self {
                AuthFailure::NotConfigured => 500u16,
                AuthFailure::Unauthorized => 401u16,
            }),
    {
        match self {
            AuthFailure::NotConfigured => 500,
            AuthFailure::Unauthorized => 401,
        }
    }
}

/// Decides whether a request may proceed, from the configured key and the
/// key that the request carries, if any.
pub fn authorize(configured_key: Option<String>, provided_key: Option<&str>) -> (r: Result<
    (),
    AuthFailure,
>)
    ensures
        configured_key is None ==> r == Err::<(), AuthFailure>(AuthFailure::NotConfigured),
        configured_key matches Some(k) ==> match provided_key {
            None => r == Err::<(), AuthFailure>(AuthFailure::Unauthorized),
            Some(p) => r == (if !blank(p@) && !blank(k@) && p@ == k@ {
                Ok::<(), AuthFailure>(())
            } else {
                Err(AuthFailure::Unauthorized)
            }),
        },
{
    let key = match configured_key {
        Some(k) => k,
        None => {
            return Err(AuthFailure::NotConfigured);
        },
    };
    let auth = ApiKeyAuth::new(key);
    let provided = match provided_key {
        Some(p) => p,
        None => {
            return Err(AuthFailure::Unauthorized);
        },
    };
    if !auth.validate_key(provided) {
        return Err(AuthFailure::Unauthorized);
    }
    Ok(())
}

} // verus!
