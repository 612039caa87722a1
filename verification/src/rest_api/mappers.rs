//! Turning a client's request into an order.

use vstd::prelude::*;

use crate::decimal::{decimal, decimal_string};
use crate::model::order::{NewOrder, Order};
use crate::model::order_id::is_random_v4;

verus! {

/// The request came without the client's address.
#[derive(Debug, PartialEq, Eq)]
pub struct NoSocketAddr;

/// The order that a client asks for with `order`. The client is identified by
/// `addr_hash`, the hash of its IP address, if its address is known; the
/// issuer of the order is that hash in decimal. Without an address the
/// request is refused.
pub fn with_issuer(order: NewOrder, addr_hash: Option<u64>) -> (r: Result<Order, NoSocketAddr>)
    ensures
        addr_hash is None <==> r is Err,
        r matches Ok(o) ==> {
            &&& o@.issuer == decimal(addr_hash->Some_0 as nat)
            &&& o@.tickets == order@
            &&& is_random_v4(o@.uuid)
        },
{
    match addr_hash {
        None => Err(NoSocketAddr),
        Some(hash) => {
            let issuer = decimal_string(hash);
            Ok(Order::new(order, issuer))
        },
    }
}

} // verus!
