//! Realizing an order in the ticket store.
//!
//! An order is realized inside one database transaction: the order's tickets
//! are looked up among those not yet ordered; if all of them are free the
//! order is inserted and the tickets are marked as ordered by it, and the
//! transaction is committed. The database work itself is done by the caller;
//! this module decides, step by step, what to ask of the database next and
//! what the outcome is.

use vstd::prelude::*;

use crate::decimal::{decimal, decimal_string, law_decimal_denotes_its_number};
use crate::model::order::{Order, OrderView};
use crate::model::order_id::{hyphenated, order_id_text};
use crate::repository::errors::{RepoError, RepoErrorView};

verus! {

/// The positional placeholder `$i`.
pub open spec fn placeholder(i: nat) -> Seq<char> {
    seq!['$'] + decimal(i)
}

/// The placeholders `$start,...,$(end - 1)`, separated by commas.
pub open spec fn param_list(start: nat, end: nat) -> Seq<char>
    decreases end,
{
    if end <= start {
        Seq::empty()
    } else if end == start + 1 {
        placeholder(start)
    } else {
        param_list(start, (end - 1) as nat) + seq![','] + placeholder((end - 1) as nat)
    }
}

/// Builds the comma-separated list of positional placeholders for the
/// parameter positions in `param_range`, such as `$1,$2,$3` for `1..4`.
pub fn build_query_param_list(param_range: std::ops::Range<usize>) -> (s: String)
    ensures
        s@ == param_list(param_range.start as nat, param_range.end as nat),
{
    let start = param_range.start;
    let end = param_range.end;
    let mut s = String::new();
    if start >= end {
        return s;
    }
    let mut i = start;
    while i < end
        invariant
            start <= i <= end,
            s@ == param_list(start as nat, i as nat),
        decreases end - i,
    {
        let ghost before = s@;
        proof {
            reveal_strlit("$");
            reveal_strlit(",");
        }
        if i > start {
            s.append(",");
        }
        s.append("$");
        let digits = decimal_string(i as u64);
        s.append(digits.as_str());
        if i > start {
            assert(s@ =~= before + seq![','] + placeholder(i as nat));
        } else {
            assert(s@ =~= placeholder(i as nat));
        }
        i = i + 1;
    }
    s
}

/// The statement that looks up which of `n` tickets are still free.
pub open spec fn select_sql(n: nat) -> Seq<char> {
    "SELECT * FROM tickets WHERE visible_id IN ("@ + param_list(1, n + 1) + ") AND ordered_by IS NULL"@
}

/// The statement that records an order.
pub open spec fn insert_sql() -> Seq<char> {
    "INSERT INTO orders VALUES ($1, $2)"@
}

/// The statement that marks `n` tickets as ordered.
pub open spec fn update_sql(n: nat) -> Seq<char> {
    "UPDATE tickets SET ordered_by=$1 WHERE visible_id IN ("@ + param_list(2, n + 2) + ")"@
}

/// The message of the error when inserting the order changed another number
/// of rows than one.
pub open spec fn insert_mismatch_message(uuid: u128) -> Seq<char> {
    "more than one row was modified when inserting order "@ + hyphenated(uuid)
}

/// The message of the error when marking the tickets changed another number
/// of rows than there are tickets.
pub open spec fn update_mismatch_message(affected: nat, expected: nat, uuid: u128) -> Seq<char> {
    decimal(affected) + " rows were updated instead of expected "@ + decimal(expected)
        + " when setting order status for order "@ + hyphenated(uuid)
}

/// A statement and the values bound to its placeholders, in order.
#[derive(Debug, PartialEq, Eq)]
pub struct SqlQuery {
    pub sql: String,
    pub params: Vec<String>,
}

pub struct SqlQueryView {
    pub sql: Seq<char>,
    pub params: Seq<Seq<char>>,
}

impl View for SqlQuery {
    type V = SqlQueryView;

    open spec fn view(&self) -> SqlQueryView {
        SqlQueryView { sql: self.sql@, params: self.params@.map_values(|p: String| p@) }
    }
}

/// The query that looks up the order's tickets among the free ones.
pub open spec fn select_query(o: OrderView) -> SqlQueryView {
    SqlQueryView { sql: select_sql(o.tickets.len()), params: o.tickets }
}

/// The query that records the order under its identifier and issuer.
pub open spec fn insert_query(o: OrderView) -> SqlQueryView {
    SqlQueryView { sql: insert_sql(), params: seq![hyphenated(o.uuid), o.issuer] }
}

/// The query that marks the order's tickets as ordered by it.
pub open spec fn update_query(o: OrderView) -> SqlQueryView {
    SqlQueryView { sql: update_sql(o.tickets.len()), params: seq![hyphenated(o.uuid)] + o.tickets }
}

/// What the database is asked to do next, or the outcome of the realization.
#[derive(Debug, PartialEq, Eq)]
pub enum StorageAction {
    /// Open a transaction.
    Begin,
    /// Run the query in the transaction and report how many rows it returned.
    Fetch(SqlQuery),
    /// Run the statement in the transaction and report how many rows it changed.
    Execute(SqlQuery),
    /// Roll the transaction back.
    Rollback,
    /// Commit the transaction.
    Commit,
    /// The realization is over: `Ok(true)` when the order was realized,
    /// `Ok(false)` when some of its tickets were taken already. An open
    /// transaction is dropped without being committed.
    Finish(Result<bool, RepoError>),
}

pub enum ActionView {
    Begin,
    Fetch(SqlQueryView),
    Execute(SqlQueryView),
    Rollback,
    Commit,
    Finish(Result<bool, RepoErrorView>),
}

impl View for StorageAction {
    type V = ActionView;

    open spec fn view(&self) -> ActionView {
        match self {
            StorageAction::Begin => ActionView::Begin,
            StorageAction::Fetch(q) => ActionView::Fetch(q@),
            StorageAction::Execute(q) => ActionView::Execute(q@),
            StorageAction::Rollback => ActionView::Rollback,
            StorageAction::Commit => ActionView::Commit,
            StorageAction::Finish(r) => ActionView::Finish(
                match r {
                    Ok(b) => Ok(*b),
                    Err(e) => Err(e@),
                },
            ),
        }
    }
}

/// What the database answered to the last action.
#[derive(Debug, PartialEq, Eq)]
pub enum StorageEvent {
    /// The transaction was opened.
    Begun,
    /// The query returned this many rows.
    Rows(usize),
    /// The statement changed this many rows.
    RowsAffected(u64),
    /// The transaction was rolled back.
    RolledBack,
    /// The transaction was committed.
    Committed,
    /// The database reported this error.
    Failed(String),
}

pub enum EventView {
    Begun,
    Rows(nat),
    RowsAffected(nat),
    RolledBack,
    Committed,
    Failed(Seq<char>),
}

impl View for StorageEvent {
    type V = EventView;

    open spec fn view(&self) -> EventView {
        match self {
            StorageEvent::Begun => EventView::Begun,
            StorageEvent::Rows(k) => EventView::Rows(*k as nat),
            StorageEvent::RowsAffected(k) => EventView::RowsAffected(*k as nat),
            StorageEvent::RolledBack => EventView::RolledBack,
            StorageEvent::Committed => EventView::Committed,
            StorageEvent::Failed(m) => EventView::Failed(m@),
        }
    }
}

/// Where a realization stands: which answer it waits for.
pub enum RealizeStep {
    AwaitBegin,
    AwaitAvailable,
    AwaitInsert,
    AwaitUpdate,
    /// Rolling back, after which this error is the outcome.
    AwaitRollback(RepoError),
    AwaitCommit,
    Finished,
}

pub enum StepView {
    AwaitBegin,
    AwaitAvailable,
    AwaitInsert,
    AwaitUpdate,
    AwaitRollback(RepoErrorView),
    AwaitCommit,
    Finished,
}

impl View for RealizeStep {
    type V = StepView;

    open spec fn view(&self) -> StepView {
        match self {
            RealizeStep::AwaitBegin => StepView::AwaitBegin,
            RealizeStep::AwaitAvailable => StepView::AwaitAvailable,
            RealizeStep::AwaitInsert => StepView::AwaitInsert,
            RealizeStep::AwaitUpdate => StepView::AwaitUpdate,
            RealizeStep::AwaitRollback(e) => StepView::AwaitRollback(e@),
            RealizeStep::AwaitCommit => StepView::AwaitCommit,
            RealizeStep::Finished => StepView::Finished,
        }
    }
}

/// Whether a realization at `s` takes the answer `e`: the answer to the
/// action it issued, or an error of the database, unless it is finished.
pub open spec fn accepts(s: StepView, e: EventView) -> bool {
    match (s, e) {
        (StepView::Finished, _) => false,
        (_, EventView::Failed(_)) => true,
        (StepView::AwaitBegin, EventView::Begun) => true,
        (StepView::AwaitAvailable, EventView::Rows(_)) => true,
        (StepView::AwaitInsert, EventView::RowsAffected(_)) => true,
        (StepView::AwaitUpdate, EventView::RowsAffected(_)) => true,
        (StepView::AwaitRollback(_), EventView::RolledBack) => true,
        (StepView::AwaitCommit, EventView::Committed) => true,
        _ => false,
    }
}

/// The rules of realizing the order `o`: at step `s`, on the answer `e`,
/// the next step and the next action. They are meant for the answers that
/// `accepts` admits; on any other the step stays as it is.
pub open spec fn transition(o: OrderView, s: StepView, e: EventView) -> (StepView, ActionView) {
    let n = o.tickets.len();
    match (s, e) {
        (StepView::Finished, _) => (s, ActionView::Finish(Ok(false))),
        (_, EventView::Failed(m)) => (
            StepView::Finished,
            ActionView::Finish(Err(RepoErrorView::DatabaseError(m))),
        ),
        (StepView::AwaitBegin, EventView::Begun) => (
            StepView::AwaitAvailable,
            ActionView::Fetch(select_query(o)),
        ),
        (StepView::AwaitAvailable, EventView::Rows(k)) => if k == n {
            (StepView::AwaitInsert, ActionView::Execute(insert_query(o)))
        } else {
            (StepView::Finished, ActionView::Finish(Ok(false)))
        },
        (StepView::AwaitInsert, EventView::RowsAffected(k)) => if k == 1 {
            (StepView::AwaitUpdate, ActionView::Execute(update_query(o)))
        } else {
            (
                StepView::AwaitRollback(RepoErrorView::DataError(insert_mismatch_message(o.uuid))),
                ActionView::Rollback,
            )
        },
        (StepView::AwaitUpdate, EventView::RowsAffected(k)) => if k == n {
            (StepView::AwaitCommit, ActionView::Commit)
        } else {
            (
                StepView::AwaitRollback(
                    RepoErrorView::DataError(update_mismatch_message(k, n, o.uuid)),
                ),
                ActionView::Rollback,
            )
        },
        (StepView::AwaitRollback(err), EventView::RolledBack) => (
            StepView::Finished,
            ActionView::Finish(Err(err)),
        ),
        (StepView::AwaitCommit, EventView::Committed) => (
            StepView::Finished,
            ActionView::Finish(Ok(true)),
        ),
        _ => (s, ActionView::Finish(Ok(false))),
    }
}

/// The realization of one order, between two answers of the database.
pub struct OrderRealization {
    order: Order,
    step: RealizeStep,
}

pub struct RealizationView {
    pub order: OrderView,
    pub step: StepView,
}

impl View for OrderRealization {
    type V = RealizationView;

    closed spec fn view(&self) -> RealizationView {
        RealizationView { order: self.order@, step: self.step@ }
    }
}

/// Whether an order is small enough that its parameter positions can be
/// numbered: `$1` to `$(n + 1)`.
pub open spec fn order_fits(o: OrderView) -> bool {
    o.tickets.len() + 2 <= usize::MAX
}

fn clone_strings(v: &Vec<String>) -> (r: Vec<String>)
    ensures
        r@.map_values(|p: String| p@) == v@.map_values(|p: String| p@),
{
    let mut r: Vec<String> = Vec::new();
    let n = v.len();
    for i in 0..n
        invariant
            n == v@.len(),
            r@.len() == i,
            forall|j: int| 0 <= j < i ==> #[trigger] r@[j]@ == v@[j]@,
    {
        r.push(v[i].clone());
    }
    assert(r@.map_values(|p: String| p@) =~= v@.map_values(|p: String| p@));
    r
}

fn ticket_id_strings(order: &Order) -> (ids: Vec<String>)
    ensures
        ids@.map_values(|p: String| p@) == order@.tickets,
{
    let tickets = order.tickets();
    let mut ids: Vec<String> = Vec::new();
    let n = tickets.len();
    for i in 0..n
        invariant
            n == tickets@.len(),
            crate::model::order::visible_ids(tickets@) == order@.tickets,
            ids@.len() == i,
            forall|j: int| 0 <= j < i ==> #[trigger] ids@[j]@ == tickets@[j].visible_id@,
    {
        ids.push(tickets[i].visible_id.clone());
    }
    assert(ids@.map_values(|p: String| p@) =~= order@.tickets);
    ids
}

fn make_select_query(order: &Order) -> (q: SqlQuery)
    requires
        order_fits(order@),
    ensures
        q@ == select_query(order@),
{
    let n = order.tickets().len();
    let mut sql = String::from_str("SELECT * FROM tickets WHERE visible_id IN (");
    let list = build_query_param_list(1..n + 1);
    sql.append(list.as_str());
    sql.append(") AND ordered_by IS NULL");
    SqlQuery { sql, params: ticket_id_strings(order) }
}

fn make_insert_query(order: &Order) -> (q: SqlQuery)
    ensures
        q@ == insert_query(order@),
{
    let sql = String::from_str("INSERT INTO orders VALUES ($1, $2)");
    let mut params: Vec<String> = Vec::new();
    params.push(order_id_text(order.uuid()));
    params.push(order.issuer().clone());
    let q = SqlQuery { sql, params };
    assert(q@.params =~= seq![hyphenated(order@.uuid), order@.issuer]);
    q
}

fn make_update_query(order: &Order) -> (q: SqlQuery)
    requires
        order_fits(order@),
    ensures
        q@ == update_query(order@),
{
    let n = order.tickets().len();
    let mut sql = String::from_str("UPDATE tickets SET ordered_by=$1 WHERE visible_id IN (");
    let list = build_query_param_list(2..n + 2);
    sql.append(list.as_str());
    sql.append(")");
    let mut params: Vec<String> = Vec::new();
    params.push(order_id_text(order.uuid()));
    let mut ids = ticket_id_strings(order);
    params.append(&mut ids);
    let q = SqlQuery { sql, params };
    assert(q@.params =~= seq![hyphenated(order@.uuid)] + order@.tickets);
    q
}

impl OrderRealization {
    #[verifier::type_invariant]
    spec fn fits(self) -> bool {
        order_fits(self.order@)
    }

    /// Starts realizing `order`: the first action opens a transaction.
    pub fn start(order: Order) -> (r: (OrderRealization, StorageAction))
        requires
            order_fits(order@),
        ensures
            r.0@.order == order@,
            r.0@.step == StepView::AwaitBegin,
            r.1@ == ActionView::Begin,
    {
        (OrderRealization { order, step: RealizeStep::AwaitBegin }, StorageAction::Begin)
    }

    /// The order being realized.
    pub fn order(&self) -> (o: &Order)
        ensures
            o@ == self@.order,
    {
        &self.order
    }

    /// Whether the realization is over.
    pub fn is_finished(&self) -> (b: bool)
        ensures
            b == (self@.step == StepView::Finished),
    {
        match self.step {
            RealizeStep::Finished => true,
            _ => false,
        }
    }

    /// Whether the realization takes `event` as its next answer.
    pub fn accepts(&self, event: &StorageEvent) -> (b: bool)
        ensures
            b == accepts(self@.step, event@),
    {
        match (&self.step, event) {
            (RealizeStep::Finished, _) => false,
            (_, StorageEvent::Failed(_)) => true,
            (RealizeStep::AwaitBegin, StorageEvent::Begun) => true,
            (RealizeStep::AwaitAvailable, StorageEvent::Rows(_)) => true,
            (RealizeStep::AwaitInsert, StorageEvent::RowsAffected(_)) => true,
            (RealizeStep::AwaitUpdate, StorageEvent::RowsAffected(_)) => true,
            (RealizeStep::AwaitRollback(_), StorageEvent::RolledBack) => true,
            (RealizeStep::AwaitCommit, StorageEvent::Committed) => true,
            _ => false,
        }
    }

    /// Takes the database's answer to the last action and gives the next action.
    pub fn step(self, event: StorageEvent) -> (r: (OrderRealization, StorageAction))
        requires
            accepts(self@.step, event@),
        ensures
            r.0@.order == self@.order,
            (r.0@.step, r.1@) == transition(self@.order, self@.step, event@),
    {
        proof {
            use_type_invariant(&self);
        }
        let OrderRealization { order, step } = self;
        let n = order.tickets().len();
        match (step, event) {
            (_, StorageEvent::Failed(m)) => (
                OrderRealization { order, step: RealizeStep::Finished },
                StorageAction::Finish(Err(RepoError::DatabaseError(m))),
            ),
            (RealizeStep::AwaitBegin, StorageEvent::Begun) => {
                let q = make_select_query(&order);
                (OrderRealization { order, step: RealizeStep::AwaitAvailable }, StorageAction::Fetch(q))
            },
            (RealizeStep::AwaitAvailable, StorageEvent::Rows(k)) => {
                if k == n {
                    let q = make_insert_query(&order);
                    (
                        OrderRealization { order, step: RealizeStep::AwaitInsert },
                        StorageAction::Execute(q),
                    )
                } else {
                    (
                        OrderRealization { order, step: RealizeStep::Finished },
                        StorageAction::Finish(Ok(false)),
                    )
                }
            },
            (RealizeStep::AwaitInsert, StorageEvent::RowsAffected(k)) => {
                if k == 1 {
                    let q = make_update_query(&order);
                    (
                        OrderRealization { order, step: RealizeStep::AwaitUpdate },
                        StorageAction::Execute(q),
                    )
                } else {
                    let mut msg = String::from_str(
                        "more than one row was modified when inserting order ",
                    );
                    let id = order_id_text(order.uuid());
                    msg.append(id.as_str());
                    (
                        OrderRealization {
                            order,
                            step: RealizeStep::AwaitRollback(RepoError::DataError(msg)),
                        },
                        StorageAction::Rollback,
                    )
                }
            },
            (RealizeStep::AwaitUpdate, StorageEvent::RowsAffected(k)) => {
                if k == n as u64 {
                    (OrderRealization { order, step: RealizeStep::AwaitCommit }, StorageAction::Commit)
                } else {
                    let mut msg = decimal_string(k);
                    msg.append(" rows were updated instead of expected ");
                    let expected = decimal_string(n as u64);
                    msg.append(expected.as_str());
                    msg.append(" when setting order status for order ");
                    let id = order_id_text(order.uuid());
                    msg.append(id.as_str());
                    (
                        OrderRealization {
                            order,
                            step: RealizeStep::AwaitRollback(RepoError::DataError(msg)),
                        },
                        StorageAction::Rollback,
                    )
                }
            },
            (RealizeStep::AwaitRollback(err), StorageEvent::RolledBack) => (
                OrderRealization { order, step: RealizeStep::Finished },
                StorageAction::Finish(Err(err)),
            ),
            (RealizeStep::AwaitCommit, StorageEvent::Committed) => (
                OrderRealization { order, step: RealizeStep::Finished },
                StorageAction::Finish(Ok(true)),
            ),
            (step, _) => {
                proof {
                    assert(false);
                }
                (OrderRealization { order, step }, StorageAction::Finish(Ok(false)))
            },
        }
    }
}

/// The step and every action so far, after the answers `events`, from the start.
pub open spec fn run(o: OrderView, events: Seq<EventView>) -> (StepView, Seq<ActionView>)
    decreases events.len(),
{
    if events.len() == 0 {
        (StepView::AwaitBegin, seq![ActionView::Begin])
    } else {
        let prev = run(o, events.drop_last());
        let next = transition(o, prev.0, events.last());
        (next.0, prev.1.push(next.1))
    }
}

/// Whether each of `events` was taken by the realization when it came.
pub open spec fn is_valid_trace(o: OrderView, events: Seq<EventView>) -> bool
    decreases events.len(),
{
    events.len() == 0 || (is_valid_trace(o, events.drop_last()) && accepts(
        run(o, events.drop_last()).0,
        events.last(),
    ))
}

/// The answers of a database on which the order is realized.
pub open spec fn success_events(o: OrderView) -> Seq<EventView> {
    seq![
        EventView::Begun,
        EventView::Rows(o.tickets.len()),
        EventView::RowsAffected(1),
        EventView::RowsAffected(o.tickets.len()),
        EventView::Committed,
    ]
}

/// The actions of a realization that succeeds.
pub open spec fn success_actions(o: OrderView) -> Seq<ActionView> {
    seq![
        ActionView::Begin,
        ActionView::Fetch(select_query(o)),
        ActionView::Execute(insert_query(o)),
        ActionView::Execute(update_query(o)),
        ActionView::Commit,
        ActionView::Finish(Ok(true)),
    ]
}

/// How many answers of `success_events` a step that waits on the successful
/// path has taken.
pub open spec fn progress(s: StepView) -> int {
    match s {
        StepView::AwaitBegin => 0,
        StepView::AwaitAvailable => 1,
        StepView::AwaitInsert => 2,
        StepView::AwaitUpdate => 3,
        StepView::AwaitCommit => 4,
        _ => -1,
    }
}

/// What a valid trace looks like: on the successful path so far, or one step
/// off it into a rollback, or finished, with `Finish` only as the last action.
pub open spec fn trace_shape(o: OrderView, events: Seq<EventView>, s: StepView, acts: Seq<ActionView>) -> bool {
    &&& acts.len() == events.len() + 1
    &&& events.len() <= 5
    &&& progress(s) >= 0 ==> {
        &&& events == success_events(o).take(progress(s))
        &&& acts == success_actions(o).take(progress(s) + 1)
    }
    &&& s is AwaitRollback ==> {
        &&& 3 <= events.len() <= 4
        &&& events.drop_last() == success_events(o).take(events.len() - 1)
        &&& acts == success_actions(o).take(events.len() as int) + seq![ActionView::Rollback]
    }
    &&& s is Finished ==> {
        &&& acts.last() is Finish
        &&& acts.drop_last() == success_actions(o).take(events.len() as int) || (
        4 <= events.len() && acts.drop_last() == success_actions(o).take(events.len() - 1)
            + seq![ActionView::Rollback])
    }
}

proof fn lemma_trace_shape(o: OrderView, events: Seq<EventView>)
    requires
        is_valid_trace(o, events),
    ensures
        trace_shape(o, events, run(o, events).0, run(o, events).1),
    decreases events.len(),
{
    if events.len() > 0 {
        let prev_events = events.drop_last();
        lemma_trace_shape(o, prev_events);
        let s0 = run(o, prev_events).0;
        let acts0 = run(o, prev_events).1;
        let e = events.last();
        let s = run(o, events).0;
        let acts = run(o, events).1;
        let t = transition(o, s0, e);
        assert(s == t.0);
        assert(acts == acts0.push(t.1));
        assert(prev_events.push(e) =~= events);
        assert(acts.drop_last() =~= acts0);
        assert(accepts(s0, e));
        let sev = success_events(o);
        let sac = success_actions(o);
        let len0 = prev_events.len() as int;
        let k = progress(s0);
        if k >= 0 {
            assert(len0 == k);
            assert(acts0 == sac.take(k + 1));
            if e == sev[k] {
                assert(sev.take(k + 1) =~= sev.take(k).push(sev[k]));
                assert(t.1 == sac[k + 1]);
                assert(sac.take(k + 2) =~= sac.take(k + 1).push(sac[k + 1]));
                if k < 4 {
                    assert(progress(s) == k + 1);
                } else {
                    assert(s is Finished);
                }
                assert(trace_shape(o, events, s, acts));
            } else if e is Failed {
                assert(s is Finished);
                assert(trace_shape(o, events, s, acts));
            } else if k == 1 {
                assert(s is Finished);
                assert(trace_shape(o, events, s, acts));
            } else if k == 2 || k == 3 {
                assert(s is AwaitRollback);
                assert(t.1 == ActionView::Rollback);
                assert(sac.take(k + 1) =~= sac.take(events.len() as int));
                assert(acts =~= sac.take(events.len() as int) + seq![ActionView::Rollback]);
                assert(trace_shape(o, events, s, acts));
            } else {
                assert(false);
            }
        } else {
            assert(s0 is AwaitRollback);
            assert(s is Finished);
            assert(trace_shape(o, events, s, acts));
        }
    } else {
        assert(events =~= success_events(o).take(0));
        assert(run(o, events).1 =~= success_actions(o).take(1));
    }
}

/// The step that a realization reaches after the first `j` successful answers.
pub open spec fn success_step(j: int) -> StepView {
    if j == 0 {
        StepView::AwaitBegin
    } else if j == 1 {
        StepView::AwaitAvailable
    } else if j == 2 {
        StepView::AwaitInsert
    } else if j == 3 {
        StepView::AwaitUpdate
    } else if j == 4 {
        StepView::AwaitCommit
    } else {
        StepView::Finished
    }
}

proof fn lemma_success_prefix(o: OrderView, j: int)
    requires
        0 <= j <= 5,
    ensures
        is_valid_trace(o, success_events(o).take(j)),
        run(o, success_events(o).take(j)).0 == success_step(j),
        run(o, success_events(o).take(j)).1 == success_actions(o).take(j + 1),
    decreases j,
{
    let sev = success_events(o);
    let sac = success_actions(o);
    if j == 0 {
        assert(sac.take(1) =~= seq![ActionView::Begin]);
    } else {
        lemma_success_prefix(o, j - 1);
        assert(sev.take(j).drop_last() =~= sev.take(j - 1));
        assert(sev.take(j).last() == sev[j - 1]);
        assert(sac.take(j + 1) =~= sac.take(j).push(sac[j]));
    }
}

/// The realization answers its order with `Ok(true)` exactly when the
/// database opened the transaction, found every ticket free, inserted the
/// order as one row, marked every ticket and committed; on those answers it
/// opens the transaction, looks the tickets up, inserts the order, marks the
/// tickets and commits, in that order.
pub proof fn law_realized_exactly_on_success(o: OrderView, events: Seq<EventView>)
    requires
        is_valid_trace(o, events),
    ensures
        (run(o, events).1.last() == ActionView::Finish(Ok(true))) <==> events == success_events(o),
        events == success_events(o) ==> run(o, events).1 == success_actions(o),
{
    let sev = success_events(o);
    let sac = success_actions(o);
    lemma_success_prefix(o, 5);
    assert(sev.take(5) =~= sev);
    assert(sac.take(6) =~= sac);
    lemma_trace_shape(o, events);
    if run(o, events).1.last() == ActionView::Finish(Ok(true)) {
        if events.len() == 0 {
            assert(run(o, events).1 =~= seq![ActionView::Begin]);
        } else {
            let prev = events.drop_last();
            lemma_trace_shape(o, prev);
            let s0 = run(o, prev).0;
            assert(accepts(s0, events.last()));
            assert(s0 == StepView::AwaitCommit);
            assert(prev == sev.take(4));
            assert(events =~= prev.push(events.last()));
            assert(events =~= sev);
        }
    }
}

/// A realization commits only on the successful path: a `Commit` is always
/// the fifth action, issued after the transaction was opened, every ticket
/// was found free, the order was inserted as one row and every ticket was
/// marked as ordered.
pub proof fn law_commit_only_after_every_ticket_is_marked(o: OrderView, events: Seq<EventView>, i: int)
    requires
        is_valid_trace(o, events),
        0 <= i < run(o, events).1.len(),
        run(o, events).1[i] is Commit,
    ensures
        i == 4,
        4 <= events.len(),
        events.take(4) == success_events(o).take(4),
    decreases events.len(),
{
    lemma_trace_shape(o, events);
    if events.len() == 0 {
        assert(run(o, events).1 =~= seq![ActionView::Begin]);
    } else {
        let prev = events.drop_last();
        let acts0 = run(o, prev).1;
        assert(run(o, events).1 == acts0.push(transition(o, run(o, prev).0, events.last()).1));
        if i < acts0.len() {
            assert(acts0[i] == run(o, events).1[i]);
            law_commit_only_after_every_ticket_is_marked(o, prev, i);
            assert(events.take(4) =~= prev.take(4));
        } else {
            lemma_trace_shape(o, prev);
            let s0 = run(o, prev).0;
            assert(accepts(s0, events.last()));
            assert(s0 == StepView::AwaitUpdate);
            assert(prev == success_events(o).take(3));
            assert(events =~= prev.push(events.last()));
            assert(events.take(4) =~= success_events(o).take(4));
        }
    }
}

/// When a ticket of the order is taken already the realization writes
/// nothing: it answers `Ok(false)` only right after the lookup found fewer or
/// more free tickets than the order has, having opened the transaction and
/// looked the tickets up, and nothing else.
pub proof fn law_taken_tickets_write_nothing(o: OrderView, events: Seq<EventView>)
    requires
        is_valid_trace(o, events),
        run(o, events).1.last() == ActionView::Finish(Ok(false)),
    ensures
        events.len() == 2,
        events[0] == EventView::Begun,
        events[1] is Rows,
        events[1]->Rows_0 != o.tickets.len(),
        run(o, events).1 == seq![
            ActionView::Begin,
            ActionView::Fetch(select_query(o)),
            ActionView::Finish(Ok(false)),
        ],
{
    lemma_trace_shape(o, events);
    if events.len() == 0 {
        assert(run(o, events).1 =~= seq![ActionView::Begin]);
    } else {
        let prev = events.drop_last();
        lemma_trace_shape(o, prev);
        let s0 = run(o, prev).0;
        assert(accepts(s0, events.last()));
        assert(s0 == StepView::AwaitAvailable);
        assert(prev == success_events(o).take(1));
        assert(events =~= prev.push(events.last()));
        assert(run(o, events).1 =~= success_actions(o).take(2).push(ActionView::Finish(Ok(false))));
    }
}

/// A realization that ends in an error of the data (a write that changed an
/// unexpected number of rows) has rolled the transaction back first: its
/// next-to-last action is `Rollback`, and the database confirmed it.
pub proof fn law_data_errors_roll_back(o: OrderView, events: Seq<EventView>, m: Seq<char>)
    requires
        is_valid_trace(o, events),
        run(o, events).1.last() == ActionView::Finish(Err(RepoErrorView::DataError(m))),
    ensures
        events.len() >= 1,
        events.last() == EventView::RolledBack,
        run(o, events).1[run(o, events).1.len() - 2] == ActionView::Rollback,
{
    lemma_trace_shape(o, events);
    if events.len() == 0 {
        assert(run(o, events).1 =~= seq![ActionView::Begin]);
    } else {
        let prev = events.drop_last();
        lemma_trace_shape(o, prev);
        let s0 = run(o, prev).0;
        assert(accepts(s0, events.last()));
        assert(s0 is AwaitRollback);
        let acts = run(o, events).1;
        assert(acts.drop_last() =~= run(o, prev).1);
        assert(run(o, prev).1.last() == ActionView::Rollback);
    }
}

/// A realization takes at most five answers of the database, and announces
/// its outcome exactly once, as its last action: every action before the
/// last is a request to the database.
pub proof fn law_single_outcome(o: OrderView, events: Seq<EventView>)
    requires
        is_valid_trace(o, events),
    ensures
        events.len() <= 5,
        forall|i: int| 0 <= i < run(o, events).1.len() - 1 ==> !(#[trigger] run(o, events).1[i] is Finish),
        (run(o, events).0 is Finished) <==> (run(o, events).1.last() is Finish),
{
    lemma_trace_shape(o, events);
    let acts = run(o, events).1;
    let s = run(o, events).0;
    let sac = success_actions(o);
    assert forall|i: int| 0 <= i < acts.len() - 1 implies !(#[trigger] acts[i] is Finish) by {
        if progress(s) >= 0 {
            assert(acts[i] == sac[i]);
        } else if s is AwaitRollback {
            assert(acts[i] == sac[i]);
        } else {
            assert(acts[i] == acts.drop_last()[i]);
            if acts.drop_last() == sac.take(events.len() as int) {
                assert(acts[i] == sac[i]);
            } else {
                if i < events.len() - 1 {
                    assert(acts[i] == sac[i]);
                }
            }
        }
    }
}

/// An error of the database ends the realization at once: its outcome is
/// that error, with the database's description, and the realization takes no
/// further answer.
pub proof fn law_database_errors_end_the_realization(o: OrderView, events: Seq<EventView>, m: Seq<char>)
    requires
        is_valid_trace(o, events),
        events.len() > 0,
        events.last() == EventView::Failed(m),
    ensures
        run(o, events).0 is Finished,
        run(o, events).1.last() == ActionView::Finish(Err(RepoErrorView::DatabaseError(m))),
        forall|e: EventView| !accepts(#[trigger] run(o, events).0, e),
{
    assert(accepts(run(o, events.drop_last()).0, events.last()));
}

/// The pieces of `s` between its commas, in order (one piece when there is
/// no comma; an empty piece around each comma at an end).
pub open spec fn split_at_commas(s: Seq<char>) -> Seq<Seq<char>>
    decreases s.len(),
{
    if s.len() == 0 {
        seq![Seq::empty()]
    } else {
        let pieces = split_at_commas(s.drop_last());
        if s.last() == ',' {
            pieces.push(Seq::empty())
        } else {
            pieces.update(pieces.len() - 1, pieces.last().push(s.last()))
        }
    }
}

proof fn lemma_split_nonempty(s: Seq<char>)
    ensures
        split_at_commas(s).len() >= 1,
    decreases s.len(),
{
    if s.len() > 0 {
        lemma_split_nonempty(s.drop_last());
    }
}

proof fn lemma_split_without_commas(b: Seq<char>)
    requires
        forall|i: int| 0 <= i < b.len() ==> b[i] != ',',
    ensures
        split_at_commas(b) == seq![b],
    decreases b.len(),
{
    if b.len() == 0 {
        assert(b =~= Seq::<char>::empty());
    } else {
        lemma_split_without_commas(b.drop_last());
        assert(b.drop_last().push(b.last()) =~= b);
        assert(seq![b.drop_last()].update(0, b.drop_last().push(b.last())) =~= seq![b]);
    }
}

proof fn lemma_split_after_comma(a: Seq<char>, b: Seq<char>)
    requires
        forall|i: int| 0 <= i < b.len() ==> b[i] != ',',
    ensures
        split_at_commas(a + seq![','] + b) == split_at_commas(a).push(b),
    decreases b.len(),
{
    let s = a + seq![','] + b;
    if b.len() == 0 {
        assert(s.drop_last() =~= a);
        assert(b =~= Seq::<char>::empty());
    } else {
        let b0 = b.drop_last();
        lemma_split_after_comma(a, b0);
        assert(s.drop_last() =~= a + seq![','] + b0);
        assert(b0.push(b.last()) =~= b);
        assert(split_at_commas(a).push(b0).update(split_at_commas(a).len() as int, b) =~= split_at_commas(a).push(b));
    }
}

proof fn lemma_placeholder_has_no_comma(i: nat)
    ensures
        forall|j: int| 0 <= j < placeholder(i).len() ==> placeholder(i)[j] != ',',
{
    law_decimal_denotes_its_number(i);
    assert forall|j: int| 0 <= j < placeholder(i).len() implies placeholder(i)[j] != ',' by {
        if j > 0 {
            assert(placeholder(i)[j] == decimal(i)[j - 1]);
        }
    }
}

/// The placeholder list for the positions `start..end` (when not empty)
/// splits at its commas into exactly `end - start` placeholders, the `k`-th
/// being `$` followed by the decimal form of `start + k`; an empty range gives
/// an empty list.
pub proof fn law_param_list_numbers_every_position(start: nat, end: nat)
    ensures
        start < end ==> split_at_commas(param_list(start, end)) == Seq::new(
            (end - start) as nat,
            |k: int| seq!['$'] + decimal((start + k) as nat),
        ),
        end <= start ==> param_list(start, end).len() == 0,
    decreases end,
{
    if start < end {
        let expected = Seq::new((end - start) as nat, |k: int| seq!['$'] + decimal((start + k) as nat));
        lemma_placeholder_has_no_comma((end - 1) as nat);
        if end == start + 1 {
            lemma_split_without_commas(placeholder(start));
            assert(split_at_commas(param_list(start, end)) =~= expected);
        } else {
            law_param_list_numbers_every_position(start, (end - 1) as nat);
            lemma_split_after_comma(param_list(start, (end - 1) as nat), placeholder((end - 1) as nat));
            assert(split_at_commas(param_list(start, end)) =~= expected);
        }
    }
}

/// When the lookup finds another number of free tickets than the order has,
/// whatever that number, the order is not realized: the outcome is
/// `Ok(false)`, not an error.
pub proof fn law_taken_tickets_answer_false(o: OrderView, k: nat)
    requires
        k != o.tickets.len(),
    ensures
        is_valid_trace(o, seq![EventView::Begun, EventView::Rows(k)]),
        run(o, seq![EventView::Begun, EventView::Rows(k)]).1.last() == ActionView::Finish(Ok(false)),
{
    let evs = seq![EventView::Begun, EventView::Rows(k)];
    assert(evs.drop_last() =~= seq![EventView::Begun]);
    assert(evs.drop_last().drop_last() =~= Seq::<EventView>::empty());
    reveal_with_fuel(run, 3);
    reveal_with_fuel(is_valid_trace, 3);
}

/// A realization ends in an error only on an error of the database, or after
/// a rollback: every other outcome is `Ok(true)` or `Ok(false)`.
pub proof fn law_errors_only_from_failures_or_rollbacks(o: OrderView, events: Seq<EventView>)
    requires
        is_valid_trace(o, events),
        run(o, events).1.last() is Finish,
        run(o, events).1.last()->Finish_0 is Err,
    ensures
        events.len() > 0,
        events.last() is Failed || events.last() is RolledBack,
{
    if events.len() == 0 {
        assert(run(o, events).1 =~= seq![ActionView::Begin]);
    } else {
        assert(accepts(run(o, events.drop_last()).0, events.last()));
    }
}

/// What the realization binds to its statements: the lookup binds the
/// order's ticket ids in order; the insert binds the order's identifier (in
/// its hyphenated form) and its issuer; the update binds the identifier and
/// then the ticket ids in order.
pub proof fn law_statements_bind_the_order(o: OrderView, events: Seq<EventView>, i: int)
    requires
        is_valid_trace(o, events),
        0 <= i < run(o, events).1.len(),
    ensures
        run(o, events).1[i] matches ActionView::Fetch(q) ==> q.params == o.tickets,
        run(o, events).1[i] matches ActionView::Execute(q) ==> (q.params == seq![
            hyphenated(o.uuid),
            o.issuer,
        ] || q.params == seq![hyphenated(o.uuid)] + o.tickets),
        i == 2 && run(o, events).1[i] is Execute ==> run(o, events).1[i]->Execute_0.params == seq![
            hyphenated(o.uuid),
            o.issuer,
        ],
        i == 3 && run(o, events).1[i] is Execute ==> run(o, events).1[i]->Execute_0.params
            == seq![hyphenated(o.uuid)] + o.tickets,
{
    lemma_trace_shape(o, events);
    let acts = run(o, events).1;
    let s = run(o, events).0;
    let sac = success_actions(o);
    if progress(s) >= 0 || s is AwaitRollback {
        if i < acts.len() - 1 || progress(s) >= 0 {
            assert(acts[i] == sac[i]);
        }
    } else {
        if i < acts.len() - 1 {
            assert(acts[i] == acts.drop_last()[i]);
            if acts.drop_last() == sac.take(events.len() as int) {
                assert(acts[i] == sac[i]);
            } else if i < events.len() - 1 {
                assert(acts[i] == sac[i]);
            }
        }
    }
}

/// The lookup's statement holds the placeholder list for positions `1..=n`
/// (one per ticket) inside `IN (...)`; the update's holds the list for
/// positions `2..=n + 1` (position 1 being the order's identifier).
pub proof fn law_statements_number_every_ticket(n: nat)
    ensures
        ({
            let l = param_list(1, n + 1);
            &&& select_sql(n).len() == 43 + l.len() as int + 24
            &&& select_sql(n).take(43) == "SELECT * FROM tickets WHERE visible_id IN ("@
            &&& select_sql(n).subrange(43, 43 + l.len() as int) == l
            &&& select_sql(n).skip(43 + l.len() as int) == ") AND ordered_by IS NULL"@
        }),
        ({
            let l = param_list(2, n + 2);
            &&& update_sql(n).len() == 54 + l.len() as int + 1
            &&& update_sql(n).take(54) == "UPDATE tickets SET ordered_by=$1 WHERE visible_id IN ("@
            &&& update_sql(n).subrange(54, 54 + l.len() as int) == l
            &&& update_sql(n).last() == ')'
        }),
{
    reveal_strlit("SELECT * FROM tickets WHERE visible_id IN (");
    reveal_strlit(") AND ordered_by IS NULL");
    reveal_strlit("UPDATE tickets SET ordered_by=$1 WHERE visible_id IN (");
    reveal_strlit(")");
    let l = param_list(1, n + 1);
    assert(select_sql(n).take(43) =~= "SELECT * FROM tickets WHERE visible_id IN ("@);
    assert(select_sql(n).subrange(43, 43 + l.len() as int) =~= l);
    assert(select_sql(n).skip(43 + l.len() as int) =~= ") AND ordered_by IS NULL"@);
    let l2 = param_list(2, n + 2);
    assert(update_sql(n).take(54) =~= "UPDATE tickets SET ordered_by=$1 WHERE visible_id IN ("@);
    assert(update_sql(n).subrange(54, 54 + l2.len() as int) =~= l2);
}

/// The messages of the data errors name the order by its hyphenated
/// identifier, at their end; the update's message begins with the number of
/// rows changed and then gives the number expected, both in decimal.
pub proof fn law_mismatch_messages_name_the_order(uuid: u128, affected: nat, expected: nat)
    ensures
        ({
            let m = insert_mismatch_message(uuid);
            &&& m.len() == 52 + 36
            &&& m.take(52) == "more than one row was modified when inserting order "@
            &&& m.skip(52) == hyphenated(uuid)
        }),
        ({
            let m = update_mismatch_message(affected, expected, uuid);
            let da = decimal(affected);
            let de = decimal(expected);
            &&& m.len() == da.len() + 39 + de.len() + 37 + 36
            &&& m.take(da.len() as int) == da
            &&& m.subrange(da.len() + 39int, da.len() + 39 + de.len() as int) == de
            &&& m.skip(m.len() - 36) == hyphenated(uuid)
        }),
{
    reveal_strlit("more than one row was modified when inserting order ");
    reveal_strlit(" rows were updated instead of expected ");
    reveal_strlit(" when setting order status for order ");
    let m = insert_mismatch_message(uuid);
    assert(m.take(52) =~= "more than one row was modified when inserting order "@);
    assert(m.skip(52) =~= hyphenated(uuid));
    let m2 = update_mismatch_message(affected, expected, uuid);
    let da = decimal(affected);
    let de = decimal(expected);
    assert(m2.take(da.len() as int) =~= da);
    assert(m2.subrange(da.len() + 39int, da.len() + 39 + de.len() as int) =~= de);
    assert(m2.skip(m2.len() - 36) =~= hyphenated(uuid));
}

/// A data error comes from one of the two writes and names it: after the
/// insert changed `j != 1` rows the message is the insert's; after the update
/// changed `j` rows of the `n` expected (`j != n`) it is the update's, with
/// `j` and `n`.
pub proof fn law_data_error_messages(o: OrderView, events: Seq<EventView>, m: Seq<char>)
    requires
        is_valid_trace(o, events),
        run(o, events).1.last() == ActionView::Finish(Err(RepoErrorView::DataError(m))),
    ensures
        (events.len() == 4 && events[2] is RowsAffected && events[2]->RowsAffected_0 != 1 && m
            == insert_mismatch_message(o.uuid)) || (events.len() == 5 && events[3] is RowsAffected
            && events[3]->RowsAffected_0 != o.tickets.len() && m == update_mismatch_message(
            events[3]->RowsAffected_0,
            o.tickets.len(),
            o.uuid,
        )),
{
    if events.len() == 0 {
        assert(run(o, events).1 =~= seq![ActionView::Begin]);
    } else {
        let prev = events.drop_last();
        lemma_trace_shape(o, prev);
        let s0 = run(o, prev).0;
        assert(accepts(s0, events.last()));
        assert(s0 is AwaitRollback);
        assert(prev.len() >= 3);
        assert(is_valid_trace(o, prev));
        let pp = prev.drop_last();
        assert(is_valid_trace(o, pp));
        lemma_trace_shape(o, pp);
        let s1 = run(o, pp).0;
        assert(accepts(s1, prev.last()));
        assert(prev.last() == events[events.len() - 2]);
        assert(s1 is AwaitInsert || s1 is AwaitUpdate);
    }
}

/// What a realization takes as an answer: at every step but the last an
/// error of the database; along the way the answers of a database on which
/// the order is realized; while rolling back, the confirmation; and nothing
/// once finished.
pub proof fn law_answers_that_are_taken(o: OrderView, s: StepView, m: Seq<char>, e: EventView)
    ensures
        !(s is Finished) ==> accepts(s, EventView::Failed(m)),
        s is Finished ==> !accepts(s, e),
        s is AwaitRollback ==> accepts(s, EventView::RolledBack),
        is_valid_trace(o, success_events(o)),
{
    lemma_success_prefix(o, 5);
    assert(success_events(o).take(5) =~= success_events(o));
}

} // verus!
