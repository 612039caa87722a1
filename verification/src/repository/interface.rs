//! The error that the event repositories report.

use vstd::prelude::*;

verus! {

#[derive(Debug, PartialEq, Eq)]
pub struct EventRepositoryError {
    message: String,
}

impl View for EventRepositoryError {
    type V = Seq<char>;

    closed spec fn view(&self) -> Seq<char> {
        self.message@
    }
}

impl From<String> for EventRepositoryError {
    fn from(value: String) -> (e: Self)
        ensures
            e@ == value@,
    {
        EventRepositoryError { message: value }
    }
}

impl vstd::std_specs::convert::FromSpecImpl<String> for EventRepositoryError {
    open spec fn obeys_from_spec() -> bool {
        true
    }

    closed spec fn from_spec(v: String) -> Self {
        EventRepositoryError { message: v }
    }
}

/// What the error's textual form reads: `EventRepositoryError: <message>`.
pub open spec fn event_repository_error_text(message: Seq<char>) -> Seq<char> {
    "EventRepositoryError: "@ + message
}

impl EventRepositoryError {
    /// The message that the error carries.
    pub fn message(&self) -> (m: &String)
        ensures
            m@ == self@,
    {
        &self.message
    }

    /// The textual form of the error.
    pub fn to_string(&self) -> (s: String)
        ensures
            s@ == event_repository_error_text(self@),
    {
        let mut s = String::from_str("EventRepositoryError: ");
        s.append(self.message.as_str());
        s
    }
}

/// The error's textual form is `EventRepositoryError: ` followed by its
/// message verbatim.
pub proof fn law_event_error_text_holds_the_message(message: Seq<char>)
    ensures
        event_repository_error_text(message).len() == message.len() + 22,
        event_repository_error_text(message).subrange(22, message.len() + 22int) == message,
        event_repository_error_text(message)[20] == ':',
{
    reveal_strlit("EventRepositoryError: ");
    assert(event_repository_error_text(message).subrange(22, message.len() + 22int) =~= message);
}

} // verus!
