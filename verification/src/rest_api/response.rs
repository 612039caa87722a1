//! The answer to a client that placed an order.

use vstd::prelude::*;

use crate::model::order::Order;
use crate::repository::errors::{repo_error_text, RepoError};

verus! {

#[derive(Debug, PartialEq, Eq)]
pub enum NewOrderResponse {
    /// The order was placed under this identifier.
    Success { uuid: u128 },
    /// Placing the order failed, for this reason.
    Failure { error: String },
}

impl NewOrderResponse {
    /// The answer to the outcome of placing an order: its identifier, or the
    /// textual form of the error.
    pub fn from(value: Result<Order, RepoError>) -> (r: NewOrderResponse)
        ensures
            value matches Ok(o) ==> r == (NewOrderResponse::Success { uuid: o@.uuid }),
            value matches Err(e) ==> (r matches NewOrderResponse::Failure { error } && error@
                == repo_error_text(e@)),
    {
        match value {
            Ok(order) => NewOrderResponse::Success { uuid: order.uuid() },
            Err(err) => NewOrderResponse::Failure { error: err.to_string() },
        }
    }

    /// The HTTP status of the answer: 200 for a placed order, 500 for a
    /// failure.
    pub fn status_code(&self) -> (code: u16)
        ensures
            code == (if self is Failure { 500u16 } else { 200u16 }),
    {
        match self {
            NewOrderResponse::Success { .. } => 200,
            NewOrderResponse::Failure { .. } => 500,
        }
    }
}

} // verus!
