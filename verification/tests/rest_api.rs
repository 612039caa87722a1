use ticket_booking::model::order::{NewOrder, Order};
use ticket_booking::repository::errors::RepoError;
use ticket_booking::rest_api::mappers::{with_issuer, NoSocketAddr};
use ticket_booking::rest_api::response::NewOrderResponse;

#[test]
fn with_issuer_without_address_is_refused() {
    let r = with_issuer(NewOrder::new(vec!["WED-001".to_string()]), None);
    assert_eq!(r, Err(NoSocketAddr));
}

#[test]
fn with_issuer_uses_the_hash_in_decimal() {
    let r = with_issuer(
        NewOrder::new(vec!["WED-001".to_string(), "WED-002".to_string()]),
        Some(9876543210),
    )
    .unwrap();
    assert_eq!(r.issuer, "9876543210");
    assert_eq!(r.tickets().len(), 2);
    assert_eq!(r.tickets()[1].visible_id, "WED-002");
    assert_eq!((r.uuid() >> 76) & 0xf, 4);
}

#[test]
fn response_to_placed_order() {
    let o = Order::from_parts(77, NewOrder::new(vec![]), "i".to_string());
    let r = NewOrderResponse::from(Ok(o));
    assert_eq!(r, NewOrderResponse::Success { uuid: 77 });
    assert_eq!(r.status_code(), 200);
}

#[test]
fn response_to_failure() {
    let r = NewOrderResponse::from(Err(RepoError::MessageBrokerError("timeout".to_string())));
    assert_eq!(
        r,
        NewOrderResponse::Failure { error: "MessageBrokerError: timeout".to_string() }
    );
    assert_eq!(r.status_code(), 500);
}
