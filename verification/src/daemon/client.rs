//! Asking the API of a cluster.
use crate::error::NodeError;
use vstd::prelude::*;
use vstd::string::*;

verus! {

/// Where the API is, and what it is asked with.
#[derive(Debug, PartialEq, Eq)]
pub struct DaemonClient {
    pub base_url: String,
    pub token: String,
}

impl DaemonClient {
    /// A client of the API at the given address.
    pub fn new(base_url: String, token: String) -> (res: DaemonClient)
        ensures
            res.base_url == base_url,
            res.token == token,
    {
        DaemonClient { base_url, token }
    }

    /// Where a path of the API is.
    pub fn url(&self, path: &str) -> (res: String)
        ensures
            res@ == self.base_url@ + path@,
    {
        let mut out = self.base_url.clone();
        out.append(path);
        out
    }
}

/// Takes the answer to a request with a body: statuses from the four hundreds
/// on are errors. `words` is the status as it is written.
pub fn post_json(path: &str, status: u16, words: &String, body: &String) -> (res: Result<
    (),
    NodeError,
>)
    ensures
        if 400 <= status <= 599 {
            res matches Err(NodeError::NodeUnreachable(e)) && e@ == "HTTP "@ + words@ + " for "@
                + path@ + ": "@ + body@
        } else {
            res is Ok
        },
{
    if 400 <= status && status <= 599 {
        let mut e = "HTTP ".to_owned();
        e.append(words.as_str());
        e.append(" for ");
        e.append(path);
        e.append(": ");
        e.append(body.as_str());
        Err(NodeError::NodeUnreachable(e))
    } else {
        Ok(())
    }
}

} // verus!
