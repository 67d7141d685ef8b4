//! Confirming a subscription: what the token's lookup and the update of the
//! status decide.

use vstd::prelude::*;

verus! {

/// The parameters of a confirmation link.
#[derive(Debug, Clone, PartialEq, Eq)]
pub struct Parameters {
    pub subscription_token: String,
}

/// What follows the lookup of a token.
#[derive(Debug, Clone, Copy, PartialEq, Eq, Structural)]
pub enum ConfirmStep {
    /// Answer with this status; nothing more is done.
    Respond(u16),
    /// The token belongs to this subscriber: mark them confirmed.
    MarkConfirmed(u128),
}

/// Decides what follows the lookup of a token: 500 where the lookup failed,
/// 401 where no subscriber has the token, else the subscriber to mark.
pub fn after_token_lookup<E>(lookup: &Result<Option<u128>, E>) -> (step: ConfirmStep)
    ensures
        step == match *lookup {
            Err(_) => ConfirmStep::Respond(500),
            Ok(None) => ConfirmStep::Respond(401),
            Ok(Some(subscriber_id)) => ConfirmStep::MarkConfirmed(subscriber_id),
        },
{
    match lookup {
        Err(_) => ConfirmStep::Respond(500),
        Ok(None) => ConfirmStep::Respond(401),
        Ok(Some(subscriber_id)) => ConfirmStep::MarkConfirmed(*subscriber_id),
    }
}

/// The status that ends a confirmation: 200 where the subscriber was
/// marked, 500 where that failed.
pub fn after_marking<E>(marked: &Result<(), E>) -> (status: u16)
    ensures
        status == if marked is Ok {
            200u16
        } else {
            500u16
        },
{
    match marked {
        Ok(_) => 200,
        Err(_) => 500,
    }
}

} // verus!
