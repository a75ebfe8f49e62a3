use vstd::prelude::*;
use vstd::string::*;
use crate::pool::{Policy, ServerPool, rr_next};

verus! {

/// What the outbound call to a backend came to.
pub enum Outcome {
    /// The backend answered with `status`; `body` is `None` when reading it failed.
    Received { status: u16, body: Option<String> },
    /// No response was obtained (connection refused, timeout, name resolution, protocol).
    Unreachable,
}

/// The response handed back to the client.
pub struct Reply {
    pub status: u16,
    pub body: String,
}

/// Status of the reply when the backend could not be reached.
pub const INTERNAL_SERVER_ERROR: u16 = 500;

/// Body sent in place of a backend body that could not be read.
pub open spec fn unreadable_body() -> Seq<char> {
    "Error reading response body"@
}

/// The URL of the outbound request: plain HTTP to `address`, then the path and query.
pub open spec fn url_of(address: Seq<char>, path_and_query: Seq<char>) -> Seq<char> {
    "http://"@ + address + path_and_query
}

/// The reply the client gets for `outcome`.
pub open spec fn reply_spec(outcome: Outcome) -> (u16, Seq<char>) {
    match outcome {
        Outcome::Received { status, body: Some(b) } => (status, b@),
        Outcome::Received { status, body: None } => (status, unreadable_body()),
        Outcome::Unreachable => (500, Seq::empty()),
    }
}

/// Builds the target URL for `path_and_query` on the backend at `address`.
pub fn target_url(address: &str, path_and_query: &str) -> (r: String)
    ensures
        r@ == url_of(address@, path_and_query@),
{
    let mut url = String::from_str("http://");
    url.append(address);
    url.append(path_and_query);
    url
}

/// Turns the outcome of the outbound call into the reply: the backend's status
/// and body, a placeholder body when it could not be read, and an empty 500
/// when no response came.
pub fn reply_for(outcome: Outcome) -> (r: Reply)
    ensures
        (r.status, r.body@) == reply_spec(outcome),
{
    match outcome {
        Outcome::Received { status, body: Some(b) } => Reply { status, body: b },
        Outcome::Received { status, body: None } => {
            Reply { status, body: String::from_str("Error reading response body") }
        },
        Outcome::Unreachable => Reply { status: INTERNAL_SERVER_ERROR, body: String::new() },
    }
}

/// Chooses the backend for a new request. Under least-connections the chosen
/// backend's counter goes up by one before the pool is handed back, so that
/// concurrent selections see the request in flight.
pub fn begin_request(pool: &mut ServerPool) -> (b: usize)
    requires
        old(pool).wf(),
        old(pool).below_cap(),
    ensures
        b < old(pool).size(),
        old(pool).mode() == Policy::RoundRobin ==> {
            &&& b == old(pool).cursor()
            &&& final(pool).cursor() == rr_next(old(pool).cursor(), old(pool).size())
            &&& ServerPool::same_backends(*old(pool), *final(pool))
        },
        old(pool).mode() == Policy::LeastConnections ==> {
            &&& old(pool).is_first_min(b as int)
            &&& ServerPool::with_load(*old(pool), *final(pool), b as int, old(pool).load(b as int) + 1)
        },
{
    let b = pool.next_server();
    if pool.policy() == Policy::LeastConnections {
        pool.record_start(b);
    }
    b
}

/// Marks the request sent to backend `b` as finished: under least-connections
/// its counter goes down by one (not below zero); a round-robin pool is left as is.
pub fn end_request(pool: &mut ServerPool, b: usize)
    requires
        old(pool).wf(),
        b < old(pool).size(),
    ensures
        old(pool).mode() == Policy::RoundRobin ==> *final(pool) == *old(pool),
        old(pool).mode() == Policy::LeastConnections ==> ServerPool::with_load(
            *old(pool),
            *final(pool),
            b as int,
            if old(pool).load(b as int) == 0 { 0 } else { (old(pool).load(b as int) - 1) as nat },
        ),
{
    if pool.policy() == Policy::LeastConnections {
        pool.record_end(b);
    }
}

} // verus!
