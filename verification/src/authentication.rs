//! The stage that stands before every handler of requests.
//!
//! A request comes with a credential. Whoever verifies credentials hands the
//! stage the outcome: a claim, or the reason why there is none. With a claim
//! the stage forwards the request, together with the identity that the claim
//! gives, to the stage it wraps; without one it rejects the request and the
//! wrapped stage is not run.

use crate::account::AccountID;
use crate::error::{AuthenticationError, Error};
use vstd::prelude::*;

verus! {

/// What a verified credential says: the account, and a payload that this
/// library carries along and does not read.
#[derive(Clone, Debug, PartialEq, Eq)]
pub struct Claim {
    pub account_id: AccountID,
    pub payload: String,
}

/// The identity of the account on whose behalf a request is handled. Only a
/// verified claim gives one, and it cannot be changed afterwards.
#[derive(Clone, Debug, PartialEq, Eq)]
pub struct Identity {
    account_id: AccountID,
    claim: Claim,
}

impl Identity {
    /// The identity that `claim` gives.
    pub closed spec fn of(claim: Claim) -> Identity {
        Identity { account_id: claim.account_id, claim }
    }

    /// The account.
    pub closed spec fn account(self) -> AccountID {
        self.account_id
    }

    /// The claim that gave the identity.
    pub closed spec fn source(self) -> Claim {
        self.claim
    }

    /// An identity is made of its claim, and names the account of the claim.
    pub proof fn of_claim(claim: Claim)
        ensures
            Identity::of(claim).account() == claim.account_id,
            Identity::of(claim).source() == claim,
    {
    }

    /// The account.
    pub fn account_id(&self) -> (account: AccountID)
        ensures
            account == self.account(),
    {
        self.account_id
    }

    /// The claim that gave the identity.
    pub fn claim(&self) -> (claim: &Claim)
        ensures
            *claim == self.source(),
    {
        &self.claim
    }
}

/// Makes the stage that authenticates requests.
pub struct Authentication;

/// The stage that authenticates requests before the stage it wraps.
pub struct AuthenticationMiddleware<S> {
    service: S,
}

impl Authentication {
    /// The authenticating stage around `service`.
    pub fn new_transform<S>(&self, service: S) -> (middleware: AuthenticationMiddleware<S>)
        ensures
            middleware.wrapped() == service,
    {
        AuthenticationMiddleware { service }
    }
}

impl<S> AuthenticationMiddleware<S> {
    /// The wrapped stage.
    pub closed spec fn wrapped(self) -> S {
        self.service
    }

    /// The wrapped stage.
    pub fn service(&self) -> (service: &S)
        ensures
            *service == self.wrapped(),
    {
        &self.service
    }

    /// Handles `request`, whose credential was verified with the outcome
    /// `claim`.
    ///
    /// With a claim, the wrapped stage is run once, on the identity of the
    /// claim and on the request itself, and its response is returned. Without
    /// one, the result is an authentication error with the reason, and the
    /// wrapped stage is not run.
    pub fn call<Q, R>(&self, claim: Result<Claim, AuthenticationError>, request: Q) -> (response:
        Result<R, Error>) where S: Fn(Identity, Q) -> R
        requires
            claim is Ok ==> self.wrapped().requires((Identity::of(claim->Ok_0), request)),
        ensures
            match claim {
                Ok(verified) => response is Ok && self.wrapped().ensures(
                    (Identity::of(verified), request),
                    response->Ok_0,
                ),
                Err(reason) => response == Err::<R, Error>(Error::Authentication(reason)),
            },
    {
        match claim {
            Ok(verified) => {
                let identity = Identity { account_id: verified.account_id, claim: verified };
                Ok((self.service)(identity, request))
            },
            Err(reason) => Err(Error::Authentication(reason)),
        }
    }
}

} // verus!
