//! Publishing placed orders, keyed by their issuer.

use vstd::prelude::*;

use crate::model::order::Order;
use crate::repository::interface::EventRepositoryError;
use crate::repository::message::OutgoingRecord;

verus! {

/// The topic of placed orders.
pub open spec fn placed_orders_topic() -> Seq<char> {
    "placed-orders"@
}

/// How a placed order is sent: to the topic of placed orders, keyed by its
/// issuer, with a queueing timeout of five seconds.
pub fn order_record(order: &Order) -> (r: OutgoingRecord)
    ensures
        r.topic@ == placed_orders_topic(),
        r.key@ == order@.issuer,
        r.timeout_secs == 5,
{
    OutgoingRecord {
        topic: String::from_str("placed-orders"),
        key: order.issuer().clone(),
        timeout_secs: 5,
    }
}

/// What publishing `order` comes to, given the producer's delivery status:
/// the order's identifier once it was delivered, or an error that carries
/// the description of the failure.
pub fn order_delivery_result(order: &Order, status: Result<(i32, i64), String>) -> (r: Result<
    u128,
    EventRepositoryError,
>)
    ensures
        status is Ok ==> r == Ok::<u128, EventRepositoryError>(order@.uuid),
        status matches Err(e) ==> (r matches Err(err) && err@ == e@),
{
    match status {
        Ok(_) => Ok(order.uuid()),
        Err(e) => Err(EventRepositoryError::from(e)),
    }
}

} // verus!
