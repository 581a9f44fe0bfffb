//! The authorisation boundary: the operation-to-scope table, bearer-token
//! extraction, the key set used to check inbound tokens, and the cache of
//! the outbound service token.

use base64::Engine;
use vstd::prelude::*;
use vstd::utf8::encode_utf8;
use crate::errors::TransactionError;
use crate::text::str_eq;

verus! {

/// The scope that moves money.
pub open spec fn transaction_scope() -> Seq<char> {
    "account:transaction"@
}

/// The scope that reads records and accounts.
pub open spec fn read_scope() -> Seq<char> {
    "account:read"@
}

/// The scope of the administrative queries over time ranges.
pub open spec fn admin_scope() -> Seq<char> {
    "account:admin"@
}

/// The scope that opens, freezes and closes accounts.
pub open spec fn write_scope() -> Seq<char> {
    "account:write"@
}

/// The scope an operation requires, or `None` for an operation that no token
/// may call.
pub open spec fn required_scope(method: Seq<char>) -> Option<Seq<char>> {
    if method == "InternalTransfer"@ || method == "ProcessDeposit"@ || method == "CreditAccount"@
        || method == "DebitAccount"@ {
        Some(transaction_scope())
    } else if method == "GetTransactionByReference"@ || method == "GetTransactionsByAccountId"@
        || method == "GetTransactionsByFromAccount"@ || method == "GetTransactionsByToAccount"@
        || method == "GetAccountDetails"@ || method == "GetAccountDetailsByUserId"@ {
        Some(read_scope())
    } else if method == "GetTransactionByTransactionTime"@ {
        Some(admin_scope())
    } else if method == "CreateAccount"@ || method == "FreezeAction"@ || method == "DeleteAccount"@ {
        Some(write_scope())
    } else {
        None
    }
}

/// The characters of each string of `s`.
pub open spec fn texts(s: Seq<String>) -> Seq<Seq<char>> {
    s.map_values(|x: String| x@)
}

/// Whether a token with `scopes` may call `method`.
pub open spec fn scope_permits(scopes: Seq<Seq<char>>, method: Seq<char>) -> bool {
    match required_scope(method) {
        Some(s) => scopes.contains(s),
        None => false,
    }
}

/// The claims of a validated token. `exp` and `iat` are seconds since the
/// Unix epoch.
#[derive(Debug)]
pub struct Claims {
    pub exp: u64,
    pub client_id: String,
    pub scope: Vec<String>,
    pub iat: Option<u64>,
    pub iss: Option<String>,
}

/// The public key of a key identifier, as the RSA modulus and exponent of
/// its JSON Web Key.
#[derive(Debug)]
pub struct RsaKey {
    pub n: String,
    pub e: String,
}

/// What `jsonwebtoken::decode_header` reads of a token's key identifier:
/// `None` where the header cannot be read, `Some(None)` where it names no key.
pub uninterp spec fn jwt_header_kid(token: Seq<char>) -> Option<Option<Seq<char>>>;

/// Relies on `jsonwebtoken::decode_header`, which reads the header of a
/// token without checking its signature, and the header's `kid` field.
#[verifier::external_body]
fn decode_key_id(token: &str) -> (r: Option<Option<String>>)
    ensures
        match r {
            None => jwt_header_kid(token@) is None,
            Some(None) => jwt_header_kid(token@) == Some(None::<Seq<char>>),
            Some(Some(k)) => jwt_header_kid(token@) == Some(Some(k@)),
        },
{
    jsonwebtoken::decode_header(token).ok().map(|h| h.kid)
}

/// The validator of inbound tokens: the key set address and the keys
/// fetched from it, each under its key identifier.
#[derive(Debug)]
pub struct JwtValidator {
    pub jwks_url: String,
    pub keys: Vec<(String, RsaKey)>,
}

/// The seconds of clock skew allowed when checking a token's expiry.
pub const LEEWAY_SECONDS: u64 = 60;

/// The position of the last key in `keys` filed under `kid`, if any.
pub open spec fn key_index(keys: Seq<(String, RsaKey)>, kid: Seq<char>) -> Option<int>
    decreases keys.len(),
{
    if keys.len() == 0 {
        None
    } else if keys.last().0@ == kid {
        Some(keys.len() - 1)
    } else {
        key_index(keys.drop_last(), kid)
    }
}

impl JwtValidator {
    /// The keys, in the order they were added.
    pub open spec fn key_list(&self) -> Seq<(String, RsaKey)> {
        self.keys@
    }

    /// A validator with no keys yet, for the authorisation server at
    /// `auth_server_url`.
    pub fn new(auth_server_url: String) -> (r: JwtValidator)
        ensures
            r.jwks_url@ == auth_server_url@ + "/.well-known/jwks.json"@,
            r.key_list().len() == 0,
    {
        let mut url = auth_server_url;
        url.append("/.well-known/jwks.json");
        JwtValidator { jwks_url: url, keys: Vec::new() }
    }

    /// Files `key` under `kid`; a later key under the same identifier
    /// replaces an earlier one.
    pub fn add_key(&mut self, kid: String, key: RsaKey)
        ensures
            final(self).jwks_url == old(self).jwks_url,
            final(self).key_list() == old(self).key_list().push((kid, key)),
    {
        self.keys.push((kid, key));
    }

    /// The key filed under `kid`, if any.
    pub fn key_for(&self, kid: &str) -> (r: Option<&RsaKey>)
        ensures
            match key_index(self.key_list(), kid@) {
                Some(i) => r == Some(&self.key_list()[i].1),
                None => r is None,
            },
    {
        let mut i: usize = self.keys.len();
        proof {
            assert(self.keys@.subrange(0, i as int) == self.keys@);
        }
        while i > 0
            invariant
                i <= self.keys@.len(),
                key_index(self.keys@, kid@) == key_index(self.keys@.subrange(0, i as int), kid@),
            decreases i,
        {
            let ghost pre = self.keys@.subrange(0, i as int);
            proof {
                assert(pre.drop_last() == self.keys@.subrange(0, i - 1));
                assert(pre.last() == self.keys@[i - 1]);
            }
            if str_eq(self.keys[i - 1].0.as_str(), kid) {
                return Some(&self.keys[i - 1].1);
            }
            i = i - 1;
        }
        None
    }

    /// The key that checks `token`: the one filed under the key identifier
    /// in the token's header. A token whose header cannot be read, names no
    /// key, or names an unknown key is refused with `Authentication`.
    pub fn key_for_token(&self, token: &str) -> (r: Result<&RsaKey, TransactionError>)
        ensures
            match jwt_header_kid(token@) {
                Some(Some(kid)) => match key_index(self.key_list(), kid) {
                    Some(i) => r == Ok::<&RsaKey, TransactionError>(&self.key_list()[i].1),
                    None => r matches Err(TransactionError::Authentication(_)),
                },
                _ => r matches Err(TransactionError::Authentication(_)),
            },
    {
        match decode_key_id(token) {
            None => Err(TransactionError::Authentication("token header cannot be read".to_string())),
            Some(None) => Err(TransactionError::Authentication("token names no key".to_string())),
            Some(Some(kid)) => match self.key_for(kid.as_str()) {
                Some(k) => Ok(k),
                None => Err(TransactionError::Authentication("token names an unknown key".to_string())),
            },
        }
    }

    /// Whether a token carrying `scopes` may call `method_name`.
    pub fn has_required_scope(&self, scopes: &[String], method_name: &str) -> (r: bool)
        ensures
            r == scope_permits(texts(scopes@), method_name@),
    {
        required_scope_check(scopes, method_name)
    }
}

/// The scope `method` requires, as text.
fn required_scope_text(method: &str) -> (r: Option<&'static str>)
    ensures
        match required_scope(method@) {
            Some(s) => r matches Some(t) && t@ == s,
            None => r is None,
        },
{
    proof {
        reveal_strlit("account:transaction");
        reveal_strlit("account:read");
        reveal_strlit("account:admin");
        reveal_strlit("account:write");
    }
    if str_eq(method, "InternalTransfer") || str_eq(method, "ProcessDeposit") || str_eq(method, "CreditAccount")
        || str_eq(method, "DebitAccount") {
        Some("account:transaction")
    } else if str_eq(method, "GetTransactionByReference") || str_eq(method, "GetTransactionsByAccountId")
        || str_eq(method, "GetTransactionsByFromAccount") || str_eq(method, "GetTransactionsByToAccount")
        || str_eq(method, "GetAccountDetails") || str_eq(method, "GetAccountDetailsByUserId") {
        Some("account:read")
    } else if str_eq(method, "GetTransactionByTransactionTime") {
        Some("account:admin")
    } else if str_eq(method, "CreateAccount") || str_eq(method, "FreezeAction") || str_eq(method, "DeleteAccount") {
        Some("account:write")
    } else {
        None
    }
}

/// Whether one of `scopes` is the scope that `method` requires.
pub fn required_scope_check(scopes: &[String], method: &str) -> (r: bool)
    ensures
        r == scope_permits(texts(scopes@), method@),
{
    let ghost views = texts(scopes@);
    let required = match required_scope_text(method) {
        Some(t) => t,
        None => return false,
    };
    let mut i: usize = 0;
    while i < scopes.len()
        invariant
            i <= scopes@.len(),
            views == texts(scopes@),
            required_scope(method@) == Some(required@),
            forall|j: int| 0 <= j < i ==> views[j] != required@,
        decreases scopes@.len() - i,
    {
        if str_eq(scopes[i].as_str(), required) {
            proof {
                assert(views[i as int] == required@);
                assert(views.contains(required@));
            }
            return true;
        }
        i = i + 1;
    }
    proof {
        if views.contains(required@) {
            let w = choose|w: int| 0 <= w < views.len() && views[w] == required@;
            assert(views[w] != required@);
        }
    }
    false
}

/// The token of an `authorization` header of the form `Bearer <token>`.
pub open spec fn bearer_of(header: Seq<char>) -> Option<Seq<char>> {
    if header.len() >= 7 && header.subrange(0, 7) == "Bearer "@ {
        Some(header.subrange(7, header.len() as int))
    } else {
        None
    }
}

/// The bearer token of a request's `authorization` header; a missing
/// header or one of another scheme is refused with `Authentication`.
pub fn bearer_token(header: Option<&str>) -> (r: Result<String, TransactionError>)
    ensures
        match header {
            None => r matches Err(TransactionError::Authentication(_)),
            Some(h) => match bearer_of(h@) {
                Some(t) => r matches Ok(s) && s@ == t,
                None => r matches Err(TransactionError::Authentication(_)),
            },
        },
{
    let h = match header {
        None => return Err(TransactionError::Authentication("No authorization header".to_string())),
        Some(h) => h,
    };
    let n = h.unicode_len();
    proof {
        reveal_strlit("Bearer ");
    }
    if n < 7 || !str_eq(h.substring_char(0, 7), "Bearer ") {
        return Err(TransactionError::Authentication("Invalid token format".to_string()));
    }
    Ok(h.substring_char(7, n).to_string())
}

/// The `authorization` header value that carries `token` as a bearer token.
pub fn bearer_header(token: &str) -> (r: String)
    ensures
        r@ == "Bearer "@ + token@,
        bearer_of(r@) == Some(token@),
{
    proof {
        reveal_strlit("Bearer ");
    }
    let mut h = "Bearer ".to_string();
    h.append(token);
    proof {
        assert(h@.subrange(0, 7) =~= "Bearer "@);
        assert(h@.subrange(7, h@.len() as int) =~= token@);
    }
    h
}

/// What the standard, padded base64 alphabet makes of `bytes`.
pub uninterp spec fn base64_standard(bytes: Seq<u8>) -> Seq<char>;

/// Relies on `base64::engine::general_purpose::STANDARD.encode`: the
/// padded base64 text of the bytes, which depends on the bytes alone.
#[verifier::external_body]
fn encode_base64(data: &[u8]) -> (r: String)
    ensures
        r@ == base64_standard(data@),
{
    base64::engine::general_purpose::STANDARD.encode(data)
}

/// The `authorization` header value of the client-credentials exchange:
/// HTTP basic authentication with `client_id` and `client_secret`.
pub fn basic_authorization(client_id: &str, client_secret: &str) -> (r: String)
    ensures
        r@ == "Basic "@ + base64_standard(encode_utf8(client_id@ + ":"@ + client_secret@)),
{
    let mut pair = client_id.to_string();
    pair.append(":");
    pair.append(client_secret);
    let mut h = "Basic ".to_string();
    h.append(encode_base64(pair.as_str().as_bytes()).as_str());
    h
}

/// Admits a caller whose validated token carries `claims` to `method`, or
/// refuses it with `PermissionDenied`.
pub fn authorize(claims: &Claims, method: &str) -> (r: Result<(), TransactionError>)
    ensures
        r is Ok == scope_permits(texts(claims.scope@), method@),
        r is Err ==> (r matches Err(TransactionError::PermissionDenied(_))),
{
    if required_scope_check(claims.scope.as_slice(), method) {
        Ok(())
    } else {
        Err(TransactionError::PermissionDenied("Insufficient privileges".to_string()))
    }
}

/// How long before its expiry a cached token is no longer handed out, in
/// milliseconds.
pub const REFRESH_MARGIN_MILLIS: u64 = 30_000;

/// How long a freshly obtained token is cached, in milliseconds.
pub const TOKEN_LIFETIME_MILLIS: u64 = 300_000;

/// An outbound token and the instant (milliseconds on a monotonic clock)
/// at which the cache stops trusting it.
#[derive(Debug)]
pub struct CachedToken {
    pub token: String,
    pub expires_at: u64,
}

/// Whether a token expiring at `expires_at` may still be handed out at `now`.
pub open spec fn still_fresh(expires_at: u64, now: u64) -> bool {
    expires_at > now + REFRESH_MARGIN_MILLIS
}

/// The cache of the outbound service token. Refreshing it (obtaining a new
/// token and storing it once) is up to its owner.
#[derive(Debug)]
pub struct TokenCache {
    inner: Option<CachedToken>,
}

impl TokenCache {
    /// What the cache holds.
    pub closed spec fn cached(&self) -> Option<CachedToken> {
        self.inner
    }

    /// An empty cache.
    pub fn new() -> (r: TokenCache)
        ensures
            r.cached() is None,
    {
        TokenCache { inner: None }
    }

    /// The cached token, where there is one and it is still fresh at `now`;
    /// `None` means a refresh is due.
    pub fn get_token(&self, now: u64) -> (r: Option<String>)
        ensures
            match self.cached() {
                Some(c) => if still_fresh(c.expires_at, now) {
                    r matches Some(t) && t@ == c.token@
                } else {
                    r is None
                },
                None => r is None,
            },
    {
        match &self.inner {
            Some(c) => {
                if c.expires_at > now && c.expires_at - now > REFRESH_MARGIN_MILLIS {
                    Some(c.token.clone())
                } else {
                    None
                }
            },
            None => None,
        }
    }

    /// Stores a token obtained at `now`; it is trusted for
    /// `TOKEN_LIFETIME_MILLIS` (up to the end of the clock's range).
    pub fn store(&mut self, token: String, now: u64)
        ensures
            final(self).cached() matches Some(c) && c.token == token && c.expires_at == (
                if now <= u64::MAX - TOKEN_LIFETIME_MILLIS { now + TOKEN_LIFETIME_MILLIS } else { u64::MAX as int }),
    {
        let expires_at = if now <= u64::MAX - TOKEN_LIFETIME_MILLIS { now + TOKEN_LIFETIME_MILLIS } else { u64::MAX };
        self.inner = Some(CachedToken { token, expires_at });
    }
}

} // verus!
