//! How a request that cannot be served is answered.

use vstd::prelude::*;

verus! {

/// Why a request was refused, with the message for the caller.
#[derive(Clone, Debug, PartialEq, Eq)]
pub enum Status {
    /// The request itself is wrong.
    InvalidArgument(String),
    /// Too many requests are under way.
    ResourceExhausted(String),
    /// Something that the request needs has failed.
    Internal(String),
}

/// What a status says: its kind and the text of its message.
pub enum StatusView {
    InvalidArgument(Seq<char>),
    ResourceExhausted(Seq<char>),
    Internal(Seq<char>),
}

impl View for Status {
    type V = StatusView;

    open spec fn view(&self) -> StatusView {
        match self {
            Status::InvalidArgument(message) => StatusView::InvalidArgument(message@),
            Status::ResourceExhausted(message) => StatusView::ResourceExhausted(message@),
            Status::Internal(message) => StatusView::Internal(message@),
        }
    }
}

/// The text of `prefix` followed by that of `detail`.
pub fn joined(prefix: &str, detail: &str) -> (text: String)
    ensures
        text@ == prefix@ + detail@,
{
    let mut text = String::from_str(prefix);
    text.append(detail);
    text
}

} // verus!
