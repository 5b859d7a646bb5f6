use vstd::prelude::*;

verus! {

/// An error to show the user: a plain sentence, and optionally the technical
/// details behind it.
#[derive(Debug, Clone)]
pub struct Error {
    pub message: String,
    pub details: Option<String>,
}

/// The model of an [`Error`]: its message and its details.
pub open spec fn error_view(e: Error) -> (Seq<char>, Option<Seq<char>>) {
    (e.message@, match e.details {
        Some(d) => Some(d@),
        None => None,
    })
}

impl Error {
    /// An error whose message says all there is to say.
    pub fn user(message: &str) -> (e: Error)
        ensures
            error_view(e) == (message@, None::<Seq<char>>),
    {
        Error { message: String::from_str(message), details: None }
    }

    /// An error whose message is built at run time.
    pub fn user_owned(message: String) -> (e: Error)
        ensures
            error_view(e) == (message@, None::<Seq<char>>),
    {
        Error { message, details: None }
    }

    /// An error with a plain message and technical details.
    pub fn detailed(message: &str, details: String) -> (e: Error)
        ensures
            error_view(e) == (message@, Some(details@)),
    {
        Error { message: String::from_str(message), details: Some(details) }
    }

    /// The sentence shown to the user.
    pub fn human_message(&self) -> (m: &str)
        ensures
            m@ == self.message@,
    {
        self.message.as_str()
    }

    /// The technical details, where there are any.
    pub fn technical_details(&self) -> (d: Option<&str>)
        ensures
            d is Some <==> self.details is Some,
            d matches Some(s) ==> s@ == self.details.unwrap()@,
    {
        match &self.details {
            Some(d) => Some(d.as_str()),
            None => None,
        }
    }
}

} // verus!
