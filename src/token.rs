//! The bearer token that authorizes the quota probe.
use vstd::prelude::*;
use crate::err::{DrlErr, DrlResult, ExitCode};
use crate::limit::{status_error, status_message};

verus! {

/// A bearer token issued by the registry's auth service.
#[derive(Debug, Clone)]
pub struct Token {
    pub token: String,
}

/// A user name and password for HTTP Basic authentication.
#[derive(Debug, Clone)]
pub struct Credentials {
    pub username: String,
    pub password: String,
}

pub const STATUS_UNAUTHORIZED: u16 = 401;
pub const STATUS_FORBIDDEN: u16 = 403;

/// What a token response means: the token, or the kind of error.
///
/// `body_token` is the body's `token` field, absent when the body is not JSON
/// or lacks the field.
pub open spec fn token_outcome(status: u16, credentialed: bool, body_token: Option<Seq<char>>) -> Result<Seq<char>, ExitCode> {
    if credentialed && (status == STATUS_UNAUTHORIZED || status == STATUS_FORBIDDEN) {
        Err(ExitCode::Auth)
    } else if !(200 <= status && status < 300) {
        Err(ExitCode::Connection)
    } else {
        match body_token {
            Some(t) => Ok(t),
            None => Err(ExitCode::Parsing),
        }
    }
}

/// The error for a token or probe request that never got a response.
pub fn connection_failure() -> (e: DrlErr)
    ensures
        e.code == ExitCode::Connection,
{
    DrlErr::new("failed to connect to docker.io".to_owned(), ExitCode::Connection)
}

/// Turns the token service's response into a token or a classified error.
///
/// A rejection of credentials (401 or 403) is `Auth`; any other status
/// outside 2xx is `Connection`; a success without a token field is `Parsing`.
pub fn token_from_response(status: u16, credentialed: bool, body_token: Option<String>) -> (r: DrlResult<Token>)
    ensures
        match token_outcome(status, credentialed, match body_token { Some(t) => Some(t@), None => None }) {
            Ok(t) => r is Ok && r->Ok_0.token@ == t,
            Err(code) => r is Err && r->Err_0.code == code,
        },
        token_outcome(status, credentialed, match body_token { Some(t) => Some(t@), None => None })
            == Err::<Seq<char>, ExitCode>(ExitCode::Connection) ==> r->Err_0.msg@ == status_message(status),
{
    if credentialed && (status == STATUS_UNAUTHORIZED || status == STATUS_FORBIDDEN) {
        return Err(DrlErr::new("docker.io rejected the credentials".to_owned(), ExitCode::Auth));
    }
    if !(200 <= status && status < 300) {
        return Err(status_error(status));
    }
    match body_token {
        Some(token) => Ok(Token { token }),
        None => Err(DrlErr::new("error parsing token".to_owned(), ExitCode::Parsing)),
    }
}

/// Rejected credentials end in `Auth`, never in `Connection`, whatever the body.
pub proof fn lemma_rejection_is_auth(status: u16, body_token: Option<Seq<char>>)
    requires
        status == STATUS_UNAUTHORIZED || status == STATUS_FORBIDDEN,
    ensures
        token_outcome(status, true, body_token) == Err::<Seq<char>, ExitCode>(ExitCode::Auth),
        token_outcome(status, true, body_token) != Err::<Seq<char>, ExitCode>(ExitCode::Connection),
{
}

} // verus!
