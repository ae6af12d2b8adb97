//! One rate-limit check as a sequence of steps: request a token, probe, finish.
//!
//! The caller performs each action and reports what came back; no probe is
//! asked for before a token has been obtained.
use vstd::prelude::*;
use crate::err::{DrlErr, DrlResult, ExitCode};
use crate::limit::{limit_from_response, probe_outcome, Header, Limit};
use crate::token::{connection_failure, token_from_response, token_outcome, Token};

verus! {

/// What the caller must do next.
#[derive(Debug)]
pub enum Action {
    /// Request a token, with Basic authentication when `credentialed`.
    RequestToken { credentialed: bool },
    /// Send the quota probe with this bearer token.
    Probe(Token),
    /// Stop, with this result.
    Finish(DrlResult<Limit>),
}

/// The first step of a check.
pub fn start(credentialed: bool) -> (a: Action)
    ensures
        a == (Action::RequestToken { credentialed }),
{
    Action::RequestToken { credentialed }
}

/// The step after the token request got a response.
pub fn on_token_response(status: u16, credentialed: bool, body_token: Option<String>) -> (a: Action)
    ensures
        match token_outcome(status, credentialed, match body_token { Some(t) => Some(t@), None => None }) {
            Ok(t) => a is Probe && a->Probe_0.token@ == t,
            Err(code) => a is Finish && a->Finish_0 is Err && a->Finish_0->Err_0.code == code,
        },
{
    match token_from_response(status, credentialed, body_token) {
        Ok(t) => Action::Probe(t),
        Err(e) => Action::Finish(Err(e)),
    }
}

/// The step after a request got no response at all.
pub fn on_failure() -> (a: Action)
    ensures
        a is Finish && a->Finish_0 is Err && a->Finish_0->Err_0.code == ExitCode::Connection,
{
    Action::Finish(Err(connection_failure()))
}

/// The step after the probe got a response: always the last.
pub fn on_probe_response(status: u16, headers: &Vec<Header>) -> (a: Action)
    ensures
        a is Finish,
        match probe_outcome(status, headers@) {
            Ok(l) => a->Finish_0 == Ok::<Limit, DrlErr>(l),
            Err(code) => a->Finish_0 is Err && a->Finish_0->Err_0.code == code,
        },
{
    Action::Finish(limit_from_response(status, headers))
}

} // verus!
