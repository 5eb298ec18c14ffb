use vstd::prelude::*;

verus! {

/// What can go wrong while answering a query.
#[derive(Debug)]
pub enum Error {
    /// The connection or the transport failed; the text describes how.
    Network(String),
    /// The response body was not valid UTF-8 text.
    Decode,
    /// A structural selector could not be parsed; it is held here.
    Parse(String),
    /// A failure while handling the search for the query held here.
    InQuery(String, Box<Error>),
    /// A failure while handling the discussion page at the link held here.
    InLink(String, Box<Error>),
}

/// Wraps `cause` with the query that led to it.
pub fn in_query(query: &str, cause: Error) -> (r: Error)
    ensures
        r matches Error::InQuery(q, c) && q@ == query@ && *c == cause,
{
    Error::InQuery(query.to_string(), Box::new(cause))
}

/// Wraps `cause` with the discussion link that led to it.
pub fn in_link(link: &str, cause: Error) -> (r: Error)
    ensures
        r matches Error::InLink(l, c) && l@ == link@ && *c == cause,
{
    Error::InLink(link.to_string(), Box::new(cause))
}

} // verus!
