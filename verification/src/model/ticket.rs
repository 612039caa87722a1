//! A ticket, bound to one seat and known by its visible id.

use vstd::prelude::*;

verus! {

/// What a ticket's textual form reads: `Ticket[id=<visible id>]`.
pub open spec fn ticket_text(visible_id: Seq<char>) -> Seq<char> {
    "Ticket[id="@ + visible_id + "]"@
}

#[derive(Clone, Debug, PartialEq, Eq)]
pub struct Ticket {
    pub visible_id: String,
}

impl From<String> for Ticket {
    fn from(value: String) -> (t: Self) {
        Ticket { visible_id: value }
    }
}

impl vstd::std_specs::convert::FromSpecImpl<String> for Ticket {
    open spec fn obeys_from_spec() -> bool {
        true
    }

    open spec fn from_spec(v: String) -> Self {
        Ticket { visible_id: v }
    }
}

impl Ticket {
    /// The textual form of the ticket.
    pub fn to_string(&self) -> (s: String)
        ensures
            s@ == ticket_text(self.visible_id@),
    {
        let mut s = String::from_str("Ticket[id=");
        s.append(self.visible_id.as_str());
        s.append("]");
        s
    }
}

/// A ticket's textual form is `Ticket[id=`, then the visible id verbatim,
/// then `]`, whatever the id.
pub proof fn law_ticket_text_holds_the_id(visible_id: Seq<char>)
    ensures
        ticket_text(visible_id).len() == visible_id.len() + 11,
        ticket_text(visible_id).take(10) == seq!['T', 'i', 'c', 'k', 'e', 't', '[', 'i', 'd', '='],
        ticket_text(visible_id).subrange(10, 10 + visible_id.len() as int) == visible_id,
        ticket_text(visible_id).last() == ']',
{
    reveal_strlit("Ticket[id=");
    reveal_strlit("]");
    let t = ticket_text(visible_id);
    assert(t.take(10) =~= seq!['T', 'i', 'c', 'k', 'e', 't', '[', 'i', 'd', '=']);
    assert(t.subrange(10, 10 + visible_id.len() as int) =~= visible_id);
}

} // verus!
