use ticket_booking::model::order::{NewOrder, Order};
use ticket_booking::repository::errors::RepoError;
use ticket_booking::repository::storage::{
    build_query_param_list, OrderRealization, SqlQuery, StorageAction, StorageEvent,
};

const ID: u128 = 0x67e5504410b1426f9247bb680e5fe0c8;
const ID_TEXT: &str = "67e55044-10b1-426f-9247-bb680e5fe0c8";

fn order(tickets: &[&str]) -> Order {
    Order::from_parts(
        ID,
        NewOrder::new(tickets.iter().map(|s| s.to_string()).collect()),
        "4711".to_string(),
    )
}

fn strings(v: &[&str]) -> Vec<String> {
    v.iter().map(|s| s.to_string()).collect()
}

fn run(o: Order, events: Vec<StorageEvent>) -> (OrderRealization, Vec<StorageAction>) {
    let (mut m, first) = OrderRealization::start(o);
    let mut actions = vec![first];
    for e in events {
        assert!(m.accepts(&e));
        let (next, a) = m.step(e);
        m = next;
        actions.push(a);
    }
    (m, actions)
}

fn select(n: &str, ids: &[&str]) -> StorageAction {
    StorageAction::Fetch(SqlQuery {
        sql: format!("SELECT * FROM tickets WHERE visible_id IN ({}) AND ordered_by IS NULL", n),
        params: strings(ids),
    })
}

fn insert() -> StorageAction {
    StorageAction::Execute(SqlQuery {
        sql: "INSERT INTO orders VALUES ($1, $2)".to_string(),
        params: strings(&[ID_TEXT, "4711"]),
    })
}

fn update(n: &str, ids: &[&str]) -> StorageAction {
    let mut params = strings(&[ID_TEXT]);
    params.extend(strings(ids));
    StorageAction::Execute(SqlQuery {
        sql: format!("UPDATE tickets SET ordered_by=$1 WHERE visible_id IN ({})", n),
        params,
    })
}

#[test]
fn param_lists() {
    assert_eq!(build_query_param_list(1..4), "$1,$2,$3");
    assert_eq!(build_query_param_list(2..3), "$2");
    assert_eq!(build_query_param_list(5..5), "");
    assert_eq!(build_query_param_list(7..3), "");
    assert_eq!(build_query_param_list(9..12), "$9,$10,$11");
}

#[test]
fn realization_succeeds_when_all_tickets_are_free() {
    let ids = ["WED-001", "WED-002"];
    let (m, actions) = run(
        order(&ids),
        vec![
            StorageEvent::Begun,
            StorageEvent::Rows(2),
            StorageEvent::RowsAffected(1),
            StorageEvent::RowsAffected(2),
            StorageEvent::Committed,
        ],
    );
    assert_eq!(
        actions,
        vec![
            StorageAction::Begin,
            select("$1,$2", &ids),
            insert(),
            update("$2,$3", &ids),
            StorageAction::Commit,
            StorageAction::Finish(Ok(true)),
        ]
    );
    assert!(m.is_finished());
    assert!(!m.accepts(&StorageEvent::Begun));
}

#[test]
fn realization_with_a_taken_ticket_writes_nothing() {
    let ids = ["A", "B", "C"];
    let (m, actions) = run(order(&ids), vec![StorageEvent::Begun, StorageEvent::Rows(2)]);
    assert_eq!(
        actions,
        vec![StorageAction::Begin, select("$1,$2,$3", &ids), StorageAction::Finish(Ok(false))]
    );
    assert!(m.is_finished());
}

#[test]
fn realization_rolls_back_when_insert_changes_another_number_of_rows() {
    let ids = ["A"];
    let (_, actions) = run(
        order(&ids),
        vec![
            StorageEvent::Begun,
            StorageEvent::Rows(1),
            StorageEvent::RowsAffected(0),
            StorageEvent::RolledBack,
        ],
    );
    assert_eq!(actions[3], StorageAction::Rollback);
    assert_eq!(
        actions[4],
        StorageAction::Finish(Err(RepoError::DataError(format!(
            "more than one row was modified when inserting order {}",
            ID_TEXT
        ))))
    );
}

#[test]
fn realization_rolls_back_when_update_changes_another_number_of_rows() {
    let ids = ["A", "B"];
    let (_, actions) = run(
        order(&ids),
        vec![
            StorageEvent::Begun,
            StorageEvent::Rows(2),
            StorageEvent::RowsAffected(1),
            StorageEvent::RowsAffected(1),
            StorageEvent::RolledBack,
        ],
    );
    assert_eq!(actions[4], StorageAction::Rollback);
    assert_eq!(
        actions[5],
        StorageAction::Finish(Err(RepoError::DataError(format!(
            "1 rows were updated instead of expected 2 when setting order status for order {}",
            ID_TEXT
        ))))
    );
}

#[test]
fn a_failed_rollback_reports_the_database_error() {
    let (_, actions) = run(
        order(&["A"]),
        vec![
            StorageEvent::Begun,
            StorageEvent::Rows(1),
            StorageEvent::RowsAffected(2),
            StorageEvent::Failed("connection lost".to_string()),
        ],
    );
    assert_eq!(
        actions[4],
        StorageAction::Finish(Err(RepoError::DatabaseError("connection lost".to_string())))
    );
}

#[test]
fn database_errors_end_the_realization_at_every_step() {
    let happy = vec![
        StorageEvent::Begun,
        StorageEvent::Rows(1),
        StorageEvent::RowsAffected(1),
        StorageEvent::RowsAffected(1),
        StorageEvent::Committed,
    ];
    for k in 0..5 {
        let mut events: Vec<StorageEvent> = Vec::new();
        for e in happy.iter().take(k) {
            events.push(match e {
                StorageEvent::Begun => StorageEvent::Begun,
                StorageEvent::Rows(n) => StorageEvent::Rows(*n),
                StorageEvent::RowsAffected(n) => StorageEvent::RowsAffected(*n),
                StorageEvent::Committed => StorageEvent::Committed,
                _ => unreachable!(),
            });
        }
        events.push(StorageEvent::Failed(format!("e{}", k)));
        let (m, actions) = run(order(&["A"]), events);
        assert!(m.is_finished());
        assert_eq!(actions.len(), k + 2);
        assert_eq!(
            actions[k + 1],
            StorageAction::Finish(Err(RepoError::DatabaseError(format!("e{}", k))))
        );
        assert!(!actions.contains(&StorageAction::Commit) || k == 4);
    }
}

#[test]
fn realization_takes_only_the_expected_answer() {
    let (m, _) = OrderRealization::start(order(&["A"]));
    assert!(!m.accepts(&StorageEvent::Rows(1)));
    assert!(!m.accepts(&StorageEvent::Committed));
    assert!(m.accepts(&StorageEvent::Begun));
    assert!(m.accepts(&StorageEvent::Failed("x".to_string())));
    assert!(!m.is_finished());
    assert_eq!(m.order().uuid(), ID);
}
