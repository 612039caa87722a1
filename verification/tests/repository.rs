use ticket_booking::model::order::{NewOrder, Order};
use ticket_booking::repository::errors::RepoError;
use ticket_booking::repository::interface::EventRepositoryError;
use ticket_booking::repository::kafka_event_repository::{order_delivery_result, order_record};
use ticket_booking::repository::message::{
    consumer_settings, delivery_result, producer_settings, received_payload, ReceivedMessage, Topic,
};

fn pairs(v: &[(&str, &str)]) -> Vec<(String, String)> {
    v.iter().map(|(a, b)| (a.to_string(), b.to_string())).collect()
}

#[test]
fn topic_value() {
    assert_eq!(Topic::PlacedOrders.value(), "placed-orders");
}

#[test]
fn topic_record() {
    let r = Topic::PlacedOrders.record();
    assert_eq!(r.topic, "placed-orders");
    assert_eq!(r.key, "todo");
    assert_eq!(r.timeout_secs, 5);
}

#[test]
fn consumer_settings_for_brokers() {
    assert_eq!(
        consumer_settings("localhost:9092"),
        pairs(&[
            ("group.id", "asdf"),
            ("bootstrap.servers", "localhost:9092"),
            ("enable.partition.eof", "false"),
            ("session.timeout.ms", "6000"),
            ("enable.auto.commit", "false"),
        ])
    );
}

#[test]
fn producer_settings_for_brokers() {
    assert_eq!(
        producer_settings("localhost:9092"),
        pairs(&[("bootstrap.servers", "localhost:9092"), ("message.timeout.ms", "5000")])
    );
}

#[test]
fn received_payload_outcomes() {
    assert_eq!(
        received_payload(ReceivedMessage::Payload("{}".to_string())),
        Ok("{}".to_string())
    );
    assert_eq!(
        received_payload(ReceivedMessage::NoPayload),
        Err(RepoError::DataError("message has no payload".to_string()))
    );
    assert_eq!(
        received_payload(ReceivedMessage::BrokerError("down".to_string())),
        Err(RepoError::MessageBrokerError("down".to_string()))
    );
    assert_eq!(
        received_payload(ReceivedMessage::InvalidPayload("bad utf-8".to_string())),
        Err(RepoError::MessageBrokerError("bad utf-8".to_string()))
    );
}

#[test]
fn delivery_result_outcomes() {
    assert_eq!(delivery_result(7u32, Ok((0, 12))), Ok(7u32));
    assert_eq!(
        delivery_result(7u32, Err("timed out".to_string())),
        Err(RepoError::MessageBrokerError("timed out".to_string()))
    );
}

#[test]
fn repo_error_texts() {
    assert_eq!(RepoError::MessageBrokerError("a".to_string()).to_string(), "MessageBrokerError: a");
    assert_eq!(RepoError::DataError("b".to_string()).to_string(), "DataError: b");
    assert_eq!(RepoError::DatabaseError("c".to_string()).to_string(), "DatabaseError: c");
}

#[test]
fn event_repository_error_from_and_text() {
    let e = EventRepositoryError::from("boom".to_string());
    assert_eq!(e.message(), "boom");
    assert_eq!(e.to_string(), "EventRepositoryError: boom");
}

#[test]
fn placed_order_record_is_keyed_by_issuer() {
    let o = Order::from_parts(3, NewOrder::new(vec!["T".to_string()]), "issuer-9".to_string());
    let r = order_record(&o);
    assert_eq!(r.topic, "placed-orders");
    assert_eq!(r.key, "issuer-9");
    assert_eq!(r.timeout_secs, 5);
}

#[test]
fn placed_order_delivery_outcomes() {
    let o = Order::from_parts(3, NewOrder::new(vec![]), "i".to_string());
    assert_eq!(order_delivery_result(&o, Ok((1, 2))), Ok(3));
    assert_eq!(
        order_delivery_result(&o, Err("no broker".to_string())),
        Err(EventRepositoryError::from("no broker".to_string()))
    );
}
