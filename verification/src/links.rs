use vstd::prelude::*;

verus! {

/// The request-token endpoint of the three-legged handshake.
pub fn request_token_endpoint() -> (r: &'static str)
    ensures
        r@ == "https://api.twitter.com/oauth/request_token"@,
{
    "https://api.twitter.com/oauth/request_token"
}

/// The access-token exchange endpoint.
pub fn access_token_endpoint() -> (r: &'static str)
    ensures
        r@ == "https://api.twitter.com/oauth/access_token"@,
{
    "https://api.twitter.com/oauth/access_token"
}

/// The user-authorization redirect endpoint.
pub fn authorize_endpoint() -> (r: &'static str)
    ensures
        r@ == "https://api.twitter.com/oauth/authorize"@,
{
    "https://api.twitter.com/oauth/authorize"
}

/// The sign-in-with-provider redirect endpoint.
pub fn authenticate_endpoint() -> (r: &'static str)
    ensures
        r@ == "https://api.twitter.com/oauth/authenticate"@,
{
    "https://api.twitter.com/oauth/authenticate"
}

} // verus!
