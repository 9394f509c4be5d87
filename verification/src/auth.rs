//! The address of the server's interface and the header that
//! authenticates every request.

use crate::text::append;
use vstd::prelude::*;

verus! {

/// The Base64 form, in the standard alphabet with padding, of a text's
/// bytes in UTF-8.
pub uninterp spec fn base64_standard(text: Seq<char>) -> Seq<char>;

/// `Engine::encode` of `base64`, on the engine `general_purpose::STANDARD`:
/// the result is the Base64 form of the argument's bytes. The call panics
/// only where the length of the result would not fit in `usize`; a text in
/// memory is too short for that.
#[verifier::external_body]
pub(crate) fn base64_encode(text: &str) -> (r: String)
    ensures
        r@ == base64_standard(text@),
{
    base64::Engine::encode(&base64::engine::general_purpose::STANDARD, text)
}

/// A user's name and token as they are encoded: with a colon in between.
pub open spec fn credentials(username: Seq<char>, token: Seq<char>) -> Seq<char> {
    username + ":"@ + token
}

/// The value of the header `Authorization`.
pub open spec fn auth_header_of(username: Seq<char>, token: Seq<char>) -> Seq<char> {
    "Token "@ + base64_standard(credentials(username, token))
}

/// The header value for credentials that are encoded already.
pub fn token_header(encoded: &str) -> (r: String)
    ensures
        r@ == "Token "@ + encoded@,
{
    append("Token ", encoded)
}

/// The value of the header `Authorization` for a user and a token.
pub fn build_auth_header(username: &str, token: &str) -> (r: String)
    ensures
        r@ == auth_header_of(username@, token@),
{
    let name = append(username, ":");
    let plain = append(name.as_str(), token);
    let encoded = base64_encode(plain.as_str());
    token_header(encoded.as_str())
}

/// Where the server's interface is and how to authenticate with it.
#[derive(Clone, Debug)]
pub struct AuthConfig {
    pub api_url: String,
    pub auth_header: String,
}

impl AuthConfig {
    /// The interface under `url` and the header for the given credentials.
    pub fn new(url: &str, username: &str, token: &str) -> (r: AuthConfig)
        ensures
            r.api_url@ == url@ + "/api"@,
            r.auth_header@ == auth_header_of(username@, token@),
    {
        AuthConfig { api_url: append(url, "/api"), auth_header: build_auth_header(username, token) }
    }
}

} // verus!
