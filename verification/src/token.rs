//! The secret-string resolver's parsing: classify a token reference into
//! its storage backend, and assemble authorization headers from resolved
//! values.  The backends themselves (environment, keychain, subprocess)
//! run outside the library.

use vstd::prelude::*;

verus! {

use crate::text::chars_of;
use crate::text::push_str_chars;
use crate::text::string_from_chars;

/// Where a token reference points.
#[derive(Debug)]
pub enum TokenRef {
    /// `${VAR}`: the named environment variable.
    EnvVar(String),
    /// `keychain://service/account`: the system keychain.
    Keychain { service: String, account: String },
    /// `command://...`: the trimmed output of a shell command.
    Command(String),
    /// Anything else is the token itself.
    Literal(String),
}

/// An error classifying a token reference.
#[derive(Debug)]
pub enum TokenError {
    /// A keychain reference without exactly `service/account` after the
    /// scheme.
    InvalidKeychainRef(String),
}

/// The rendering of a token error.
pub open spec fn spec_token_error_message(e: TokenError) -> Seq<char> {
    match e {
        TokenError::InvalidKeychainRef(r) => "Invalid keychain reference format: '"@ + r@
            + "'. Expected 'keychain://service/account'"@,
    }
}

impl TokenError {
    /// The human-readable message of this error.
    pub fn message(&self) -> (r: String)
        ensures
            r@ == spec_token_error_message(*self),
    {
        match self {
            TokenError::InvalidKeychainRef(t) => {
                let mut out = chars_of("Invalid keychain reference format: '");
                push_str_chars(&mut out, t.as_str());
                push_str_chars(&mut out, "'. Expected 'keychain://service/account'");
                string_from_chars(&out)
            },
        }
    }
}

/// Whether `s` begins with `p`.
pub open spec fn spec_starts_with(s: Seq<char>, p: Seq<char>) -> bool {
    s.len() >= p.len() && s.subrange(0, p.len() as int) == p
}

/// Whether `v` begins with the characters of `p` (executable form).
#[verifier::loop_isolation(false)]
fn starts_with(v: &Vec<char>, p: &str) -> (r: bool)
    ensures
        r == spec_starts_with(v@, p@),
{
    let pc = chars_of(p);
    if v.len() < pc.len() {
        return false;
    }
    let mut i: usize = 0;
    while i < pc.len()
        invariant
            pc@ == p@,
            i <= pc@.len(),
            pc@.len() <= v@.len(),
            forall|j: int| 0 <= j < i ==> v@[j] == pc@[j],
        decreases pc@.len() - i,
    {
        if v[i] != pc[i] {
            assert(v@.subrange(0, pc@.len() as int)[i as int] != pc@[i as int]);
            return false;
        }
        i = i + 1;
    }
    proof {
        assert(v@.subrange(0, pc@.len() as int) =~= pc@);
    }
    true
}

/// Copy the range `[from, to)` of `v` into a string.
#[verifier::loop_isolation(false)]
fn substring(v: &Vec<char>, from: usize, to: usize) -> (r: String)
    requires
        from <= to <= v@.len(),
    ensures
        r@ == v@.subrange(from as int, to as int),
{
    let mut out: Vec<char> = Vec::new();
    let mut i: usize = from;
    while i < to
        invariant
            from <= i <= to,
            out@ == v@.subrange(from as int, i as int),
        decreases to - i,
    {
        out.push(v[i]);
        i = i + 1;
        assert(out@ =~= v@.subrange(from as int, i as int));
    }
    string_from_chars(&out)
}

/// Where a token reference resolves, by its shape.  `${VAR}` names an
/// environment variable, `keychain://service/account` a keychain entry
/// (with exactly one `/` after the scheme, else an error),
/// `command://...` a shell command, and anything else stands for itself.
#[verifier::loop_isolation(false)]
pub fn classify_token_ref(token_ref: &str) -> (r: Result<TokenRef, TokenError>)
    ensures
        spec_starts_with(token_ref@, "${"@) && token_ref@.len() > 0 && token_ref@[token_ref@.len()
            as int - 1] == '}' ==> (r matches Ok(TokenRef::EnvVar(v)) && v@ == token_ref@.subrange(
            2,
            token_ref@.len() as int - 1,
        )),
        !(spec_starts_with(token_ref@, "${"@) && token_ref@.len() > 0
            && token_ref@[token_ref@.len() as int - 1] == '}') && !spec_starts_with(
            token_ref@,
            "keychain://"@,
        ) && !spec_starts_with(token_ref@, "command://"@) ==> (r matches Ok(TokenRef::Literal(v))
            && v@ == token_ref@),
        r matches Ok(TokenRef::Command(c)) ==> spec_starts_with(token_ref@, "command://"@) && c@
            == token_ref@.subrange(10, token_ref@.len() as int),
        r matches Err(e) ==> spec_starts_with(token_ref@, "keychain://"@) && (e
            matches TokenError::InvalidKeychainRef(t) && t@ == token_ref@),
        r matches Ok(TokenRef::Keychain { service, account }) ==> {
            &&& spec_starts_with(token_ref@, "keychain://"@)
            &&& 11 <= 11 + service@.len() < token_ref@.len()
            &&& service@ == token_ref@.subrange(11, 11 + service@.len() as int)
            &&& token_ref@[11 + service@.len() as int] == '/'
            &&& account@ == token_ref@.subrange(
                12 + service@.len() as int,
                token_ref@.len() as int,
            )
        },
{
    let cs = chars_of(token_ref);
    if starts_with(&cs, "${") && cs.len() > 0 && cs[cs.len() - 1] == '}' {
        proof {
            reveal_strlit("${");
            assert(cs@.subrange(0, 2)[1] == '{');
            assert(cs@[1] == '{');
            assert(cs@.len() >= 3);
        }
        let name = substring(&cs, 2, cs.len() - 1);
        return Ok(TokenRef::EnvVar(name));
    }
    if starts_with(&cs, "keychain://") {
        proof {
            reveal_strlit("keychain://");
        }
        // exactly one slash may follow the scheme
        let mut slash: usize = 0;
        let mut slashes: usize = 0;
        let mut i: usize = 11;
        while i < cs.len()
            invariant
                11 <= i <= cs@.len(),
                slashes <= i,
                slashes > 0 ==> 11 <= slash < i && cs@[slash as int] == '/',
            decreases cs@.len() - i,
        {
            if cs[i] == '/' {
                if slashes == 0 {
                    slash = i;
                }
                slashes = slashes + 1;
            }
            i = i + 1;
        }
        if slashes != 1 {
            return Err(TokenError::InvalidKeychainRef(String::from_str(token_ref)));
        }
        let service = substring(&cs, 11, slash);
        let account = substring(&cs, slash + 1, cs.len());
        return Ok(TokenRef::Keychain { service, account });
    }
    if starts_with(&cs, "command://") {
        proof {
            reveal_strlit("command://");
            reveal_strlit("${");
        }
        let cmd = substring(&cs, 10, cs.len());
        return Ok(TokenRef::Command(cmd));
    }
    proof {
        reveal_strlit("${");
        reveal_strlit("keychain://");
        reveal_strlit("command://");
    }
    Ok(TokenRef::Literal(String::from_str(token_ref)))
}

/// Credentials handed to the transport: header and query entries.
pub struct AuthCredentials {
    pub headers: Vec<(String, String)>,
    pub query: Vec<(String, String)>,
}

/// The single authorization header of a resolved bearer token.
pub fn bearer_credentials(token_value: &str) -> (r: AuthCredentials)
    ensures
        r.headers@.len() == 1,
        r.headers@[0].0@ == "Authorization"@,
        r.headers@[0].1@ == "Bearer "@ + token_value@,
        r.query@.len() == 0,
{
    let mut val = chars_of("Bearer ");
    push_str_chars(&mut val, token_value);
    let mut headers: Vec<(String, String)> = Vec::new();
    headers.push((String::from_str("Authorization"), string_from_chars(&val)));
    AuthCredentials { headers, query: Vec::new() }
}

/// Stored OAuth credentials, with the expiry as a Unix timestamp.
pub struct OAuthCredentials {
    pub access_token: String,
    pub refresh_token: Option<String>,
    pub expires_at: Option<i64>,
    pub token_type: Option<String>,
}

/// The authorization value of stored OAuth credentials: the token type
/// (or `Bearer`), a space, and the access token.
pub open spec fn spec_oauth_header(c: OAuthCredentials) -> Seq<char> {
    (match c.token_type {
        Some(t) => t@,
        None => "Bearer"@,
    }) + " "@ + c.access_token@
}

/// Use cached client-credentials tokens only while they are fresh: the
/// header comes back exactly when an expiry is stored and the clock is
/// more than sixty seconds short of it.
pub fn cached_oauth_header(creds: &OAuthCredentials, now: i64) -> (r: Option<String>)
    ensures
        r is Some <==> (creds.expires_at matches Some(e) && now < e - 60),
        r matches Some(h) ==> h@ == spec_oauth_header(*creds),
{
    match creds.expires_at {
        Some(e) => {
            let fresh: bool = if e >= i64::MIN + 60 {
                now < e - 60
            } else {
                false
            };
            if fresh {
                let mut out: Vec<char>;
                match &creds.token_type {
                    Some(t) => {
                        out = chars_of(t.as_str());
                    },
                    None => {
                        out = chars_of("Bearer");
                    },
                }
                push_str_chars(&mut out, " ");
                push_str_chars(&mut out, creds.access_token.as_str());
                assert(out@ =~= spec_oauth_header(*creds));
                Some(string_from_chars(&out))
            } else {
                None
            }
        },
        None => None,
    }
}

} // verus!
