use ticket_booking::decimal::decimal_string;
use ticket_booking::model::order::{NewOrder, Order};
use ticket_booking::model::ticket::Ticket;

fn ids(v: &[&str]) -> Vec<String> {
    v.iter().map(|s| s.to_string()).collect()
}

#[test]
fn decimal_renders_like_to_string() {
    assert_eq!(decimal_string(0), "0");
    assert_eq!(decimal_string(7), "7");
    assert_eq!(decimal_string(10), "10");
    assert_eq!(decimal_string(42), "42");
    assert_eq!(decimal_string(1234567890), "1234567890");
    assert_eq!(decimal_string(u64::MAX), u64::MAX.to_string());
}

#[test]
fn ticket_from_string_keeps_the_id() {
    let t = Ticket::from("WED-001".to_string());
    assert_eq!(t.visible_id, "WED-001");
}

#[test]
fn ticket_text() {
    let t = Ticket::from("WED-001".to_string());
    assert_eq!(t.to_string(), "Ticket[id=WED-001]");
}

#[test]
fn order_id_text_is_hyphenated_lower_case() {
    let text = |id: u128| Order::from_parts(id, NewOrder::new(vec![]), String::new()).to_string();
    assert_eq!(text(0), "Order[uuid=00000000-0000-0000-0000-000000000000,issuer=,tickets=]");
    assert_eq!(text(u128::MAX), "Order[uuid=ffffffff-ffff-ffff-ffff-ffffffffffff,issuer=,tickets=]");
    assert_eq!(
        text(0x0123456789abcdef0fedcba987654321),
        "Order[uuid=01234567-89ab-cdef-0fed-cba987654321,issuer=,tickets=]"
    );
}

#[test]
fn order_from_parts_keeps_tickets_in_order() {
    let o = Order::from_parts(1, NewOrder::new(ids(&["WED-001", "WED-002"])), "alice".to_string());
    assert_eq!(o.uuid(), 1);
    assert_eq!(o.issuer, "alice");
    let got: Vec<&str> = o.tickets().iter().map(|t| t.visible_id.as_str()).collect();
    assert_eq!(got, vec!["WED-001", "WED-002"]);
}

#[test]
fn order_text() {
    let o = Order::from_parts(
        0x67e5504410b1426f9247bb680e5fe0c8,
        NewOrder::new(ids(&["WED-001", "WED-002"])),
        "12345".to_string(),
    );
    assert_eq!(
        o.to_string(),
        "Order[uuid=67e55044-10b1-426f-9247-bb680e5fe0c8,issuer=12345,tickets=Ticket[id=WED-001]Ticket[id=WED-002]]"
    );
}

#[test]
fn order_text_without_tickets() {
    let o = Order::from_parts(0, NewOrder::new(vec![]), "x".to_string());
    assert_eq!(
        o.to_string(),
        "Order[uuid=00000000-0000-0000-0000-000000000000,issuer=x,tickets=]"
    );
}

#[test]
fn new_order_gets_a_random_v4_identifier() {
    let a = Order::new(NewOrder::new(ids(&["A-1"])), "i".to_string());
    let b = Order::new(NewOrder::new(ids(&["A-1"])), "i".to_string());
    for o in [&a, &b] {
        assert_eq!((o.uuid() >> 76) & 0xf, 4);
        assert_eq!((o.uuid() >> 62) & 0x3, 2);
        assert_eq!(o.issuer, "i");
        assert_eq!(o.tickets().len(), 1);
        assert_eq!(o.tickets()[0].visible_id, "A-1");
    }
    assert_ne!(a.uuid(), b.uuid());
}

#[test]
fn order_assemble_and_new_order_accessors() {
    let n = NewOrder::new(ids(&["X"]));
    assert_eq!(n.ticket_visible_ids(), &ids(&["X"]));
    let o = Order::assemble(5, "me".to_string(), vec![Ticket::from("X".to_string())]);
    assert_eq!(o.uuid(), 5);
    assert_eq!(o.issuer(), "me");
    assert_eq!(o.tickets()[0].visible_id, "X");
}
