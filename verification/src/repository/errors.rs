//! Errors of the message broker and the ticket store.

use vstd::prelude::*;

verus! {

#[derive(Debug, PartialEq, Eq)]
pub enum RepoError {
    MessageBrokerError(String),
    DataError(String),
    DatabaseError(String),
}

/// A `RepoError` with its message taken by its characters.
pub enum RepoErrorView {
    MessageBrokerError(Seq<char>),
    DataError(Seq<char>),
    DatabaseError(Seq<char>),
}

impl View for RepoError {
    type V = RepoErrorView;

    open spec fn view(&self) -> RepoErrorView {
        match self {
            RepoError::MessageBrokerError(m) => RepoErrorView::MessageBrokerError(m@),
            RepoError::DataError(m) => RepoErrorView::DataError(m@),
            RepoError::DatabaseError(m) => RepoErrorView::DatabaseError(m@),
        }
    }
}

/// What an error's textual form reads: the variant's name, a colon, a space
/// and the message.
pub open spec fn repo_error_text(e: RepoErrorView) -> Seq<char> {
    match e {
        RepoErrorView::MessageBrokerError(m) => "MessageBrokerError: "@ + m,
        RepoErrorView::DataError(m) => "DataError: "@ + m,
        RepoErrorView::DatabaseError(m) => "DatabaseError: "@ + m,
    }
}

impl RepoError {
    /// The textual form of the error.
    pub fn to_string(&self) -> (s: String)
        ensures
            s@ == repo_error_text(self@),
    {
        match self {
            RepoError::MessageBrokerError(msg) => {
                let mut s = String::from_str("MessageBrokerError: ");
                s.append(msg.as_str());
                s
            },
            RepoError::DataError(msg) => {
                let mut s = String::from_str("DataError: ");
                s.append(msg.as_str());
                s
            },
            RepoError::DatabaseError(msg) => {
                let mut s = String::from_str("DatabaseError: ");
                s.append(msg.as_str());
                s
            },
        }
    }
}

/// The message that an error carries.
pub open spec fn message_of(e: RepoErrorView) -> Seq<char> {
    match e {
        RepoErrorView::MessageBrokerError(m) => m,
        RepoErrorView::DataError(m) => m,
        RepoErrorView::DatabaseError(m) => m,
    }
}

/// An error's textual form ends with its message, verbatim, after a colon and
/// a space; what comes before names the kind of error, and differs between
/// the kinds.
pub proof fn law_error_text_ends_with_the_message(e: RepoErrorView)
    ensures
        repo_error_text(e).len() >= message_of(e).len() + 2,
        repo_error_text(e).subrange(
            repo_error_text(e).len() - message_of(e).len(),
            repo_error_text(e).len() as int,
        ) == message_of(e),
        repo_error_text(e)[repo_error_text(e).len() - message_of(e).len() - 2] == ':',
        repo_error_text(e)[repo_error_text(e).len() - message_of(e).len() - 1] == ' ',
        repo_error_text(e)[0] == match e {
            RepoErrorView::MessageBrokerError(_) => 'M',
            RepoErrorView::DataError(_) => 'D',
            RepoErrorView::DatabaseError(_) => 'D',
        },
        e is DataError ==> repo_error_text(e).len() == message_of(e).len() + 11,
        e is DatabaseError ==> repo_error_text(e).len() == message_of(e).len() + 15,
        e is MessageBrokerError ==> repo_error_text(e).len() == message_of(e).len() + 20,
{
    reveal_strlit("MessageBrokerError: ");
    reveal_strlit("DataError: ");
    reveal_strlit("DatabaseError: ");
    let t = repo_error_text(e);
    let m = message_of(e);
    assert(t.subrange(t.len() - m.len(), t.len() as int) =~= m);
}

} // verus!
