//! Orders: a set of tickets placed by one issuer, under a fresh identifier.

use vstd::prelude::*;

use super::order_id::{hyphenated, is_random_v4, order_id_text, random_order_id};
use super::ticket::{ticket_text, Ticket};

verus! {

/// The visible ids of a sequence of tickets.
pub open spec fn visible_ids(tickets: Seq<Ticket>) -> Seq<Seq<char>> {
    tickets.map_values(|t: Ticket| t.visible_id@)
}

/// The textual forms of tickets with the given visible ids, one after another.
pub open spec fn tickets_text(ids: Seq<Seq<char>>) -> Seq<char>
    decreases ids.len(),
{
    if ids.len() == 0 {
        Seq::empty()
    } else {
        tickets_text(ids.drop_last()) + ticket_text(ids.last())
    }
}

/// What an order's textual form reads:
/// `Order[uuid=<hyphenated id>,issuer=<issuer>,tickets=<each ticket's text>]`.
pub open spec fn order_text(o: OrderView) -> Seq<char> {
    "Order[uuid="@ + hyphenated(o.uuid) + ",issuer="@ + o.issuer + ",tickets="@ + tickets_text(
        o.tickets,
    ) + "]"@
}

/// The ids of the tickets that a client asks for.
#[derive(Debug, PartialEq, Eq)]
pub struct NewOrder {
    ticket_visible_ids: Vec<String>,
}

impl View for NewOrder {
    type V = Seq<Seq<char>>;

    closed spec fn view(&self) -> Seq<Seq<char>> {
        self.ticket_visible_ids@.map_values(|s: String| s@)
    }
}

impl NewOrder {
    pub fn new(ticket_visible_ids: Vec<String>) -> (n: NewOrder)
        ensures
            n@ == ticket_visible_ids@.map_values(|s: String| s@),
    {
        NewOrder { ticket_visible_ids }
    }

    pub fn ticket_visible_ids(&self) -> (ids: &Vec<String>)
        ensures
            ids@.map_values(|s: String| s@) == self@,
    {
        &self.ticket_visible_ids
    }
}

/// An order as the rules see it: its identifier, its issuer and the visible
/// ids of its tickets, in order.
pub struct OrderView {
    pub uuid: u128,
    pub issuer: Seq<char>,
    pub tickets: Seq<Seq<char>>,
}

#[derive(Clone, Debug, PartialEq, Eq)]
pub struct Order {
    uuid: u128,
    pub issuer: String,
    tickets: Vec<Ticket>,
}

impl View for Order {
    type V = OrderView;

    closed spec fn view(&self) -> OrderView {
        OrderView { uuid: self.uuid, issuer: self.issuer@, tickets: visible_ids(self.tickets@) }
    }
}

fn tickets_for(ids: &Vec<String>) -> (tickets: Vec<Ticket>)
    ensures
        visible_ids(tickets@) == ids@.map_values(|s: String| s@),
{
    let mut tickets: Vec<Ticket> = Vec::new();
    let n = ids.len();
    for i in 0..n
        invariant
            n == ids@.len(),
            tickets@.len() == i,
            forall|j: int| 0 <= j < i ==> #[trigger] tickets@[j].visible_id@ == ids@[j]@,
    {
        let t = Ticket::from(ids[i].clone());
        tickets.push(t);
    }
    assert(visible_ids(tickets@) =~= ids@.map_values(|s: String| s@));
    tickets
}

impl Order {
    /// A new order of the tickets that `new_order` asks for, placed by
    /// `issuer`, under a fresh random identifier.
    pub fn new(new_order: NewOrder, issuer: String) -> (o: Order)
        ensures
            is_random_v4(o@.uuid),
            o@.issuer == issuer@,
            o@.tickets == new_order@,
    {
        let uuid = random_order_id();
        Order::from_parts(uuid, new_order, issuer)
    }

    /// The order of the tickets that `new_order` asks for, placed by `issuer`,
    /// under the identifier `uuid`.
    pub fn from_parts(uuid: u128, new_order: NewOrder, issuer: String) -> (o: Order)
        ensures
            o@ == (OrderView { uuid, issuer: issuer@, tickets: new_order@ }),
    {
        let tickets = tickets_for(&new_order.ticket_visible_ids);
        Order { uuid, issuer, tickets }
    }

    /// The order made of the given parts, as they were read back from a message.
    pub fn assemble(uuid: u128, issuer: String, tickets: Vec<Ticket>) -> (o: Order)
        ensures
            o@ == (OrderView { uuid, issuer: issuer@, tickets: visible_ids(tickets@) }),
    {
        Order { uuid, issuer, tickets }
    }

    pub fn uuid(&self) -> (u: u128)
        ensures
            u == self@.uuid,
    {
        self.uuid
    }

    pub fn issuer(&self) -> (i: &String)
        ensures
            i@ == self@.issuer,
    {
        &self.issuer
    }

    pub fn tickets(&self) -> (t: &Vec<Ticket>)
        ensures
            visible_ids(t@) == self@.tickets,
    {
        &self.tickets
    }

    /// The textual form of the order.
    pub fn to_string(&self) -> (s: String)
        ensures
            s@ == order_text(self@),
    {
        let mut s = String::from_str("Order[uuid=");
        let id = order_id_text(self.uuid);
        s.append(id.as_str());
        s.append(",issuer=");
        s.append(self.issuer.as_str());
        s.append(",tickets=");
        let n = self.tickets.len();
        let ghost ids = visible_ids(self.tickets@);
        let ghost prefix = s@;
        for i in 0..n
            invariant
                n == self.tickets@.len(),
                ids == visible_ids(self.tickets@),
                s@ == prefix + tickets_text(ids.take(i as int)),
        {
            let t = self.tickets[i].to_string();
            s.append(t.as_str());
            assert(ids.take(i + 1).drop_last() =~= ids.take(i as int));
        }
        assert(ids.take(n as int) =~= ids);
        s.append("]");
        s
    }
}

/// The tickets' text is made ticket by ticket: the text of two runs of
/// tickets one after the other is the text of the first followed by that of
/// the second, and the text of one ticket is that ticket's text.
pub proof fn law_tickets_text_is_made_ticket_by_ticket(a: Seq<Seq<char>>, b: Seq<Seq<char>>, id: Seq<char>)
    ensures
        tickets_text(a + b) == tickets_text(a) + tickets_text(b),
        tickets_text(seq![id]) == ticket_text(id),
        tickets_text(Seq::empty()).len() == 0,
    decreases b.len(),
{
    assert(seq![id].drop_last() =~= Seq::<Seq<char>>::empty());
    assert(Seq::<char>::empty() + ticket_text(id) =~= ticket_text(id));
    assert(tickets_text(Seq::<Seq<char>>::empty()) == Seq::<char>::empty());
    assert(tickets_text(seq![id]) == tickets_text(seq![id].drop_last()) + ticket_text(seq![id].last()));
    if b.len() == 0 {
        assert(a + b =~= a);
    } else {
        law_tickets_text_is_made_ticket_by_ticket(a, b.drop_last(), id);
        assert((a + b).drop_last() =~= a + b.drop_last());
        assert((a + b).last() == b.last());
    }
}

/// An order's textual form is `Order[uuid=`, the hyphenated identifier,
/// `,issuer=`, the issuer verbatim, `,tickets=`, the tickets' text and `]`,
/// each at its place.
pub proof fn law_order_text_lays_out_the_order(o: OrderView)
    ensures
        ({
            let t = order_text(o);
            let li = o.issuer.len() as int;
            let tt = tickets_text(o.tickets);
            &&& t.len() == 65 + li + tt.len()
            &&& t.take(11) == seq!['O', 'r', 'd', 'e', 'r', '[', 'u', 'u', 'i', 'd', '=']
            &&& t.subrange(11, 47) == hyphenated(o.uuid)
            &&& t.subrange(47, 55) == seq![',', 'i', 's', 's', 'u', 'e', 'r', '=']
            &&& t.subrange(55, 55 + li) == o.issuer
            &&& t.subrange(55 + li, 64 + li) == seq![',', 't', 'i', 'c', 'k', 'e', 't', 's', '=']
            &&& t.subrange(64 + li, 64 + li + tt.len()) == tt
            &&& t.last() == ']'
        }),
{
    reveal_strlit("Order[uuid=");
    reveal_strlit(",issuer=");
    reveal_strlit(",tickets=");
    reveal_strlit("]");
    let t = order_text(o);
    let li = o.issuer.len() as int;
    let tt = tickets_text(o.tickets);
    assert(t.take(11) =~= seq!['O', 'r', 'd', 'e', 'r', '[', 'u', 'u', 'i', 'd', '=']);
    assert(t.subrange(11, 47) =~= hyphenated(o.uuid));
    assert(t.subrange(47, 55) =~= seq![',', 'i', 's', 's', 'u', 'e', 'r', '=']);
    assert(t.subrange(55, 55 + li) =~= o.issuer);
    assert(t.subrange(55 + li, 64 + li) =~= seq![',', 't', 'i', 'c', 'k', 'e', 't', 's', '=']);
    assert(t.subrange(64 + li, 64 + li + tt.len()) =~= tt);
}

} // verus!
