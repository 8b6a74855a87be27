//! The rules of the test harness that runs the proxy in a cluster: what its
//! test server answers, and when a resource that it created is ready.

use vstd::prelude::*;
use vstd::string::*;

verus! {

/// The status of a successful response.
pub const OK: u16 = 200;

/// The status of a response to an unknown request.
pub const NOT_FOUND: u16 = 404;

/// A condition in the status of a resource definition.
#[derive(Clone, Debug, PartialEq, Eq)]
pub struct Condition {
    pub type_: String,
    pub status: String,
}

/// A change that a watch on a kind of resource reports.
#[derive(Clone, Debug, PartialEq, Eq)]
pub enum WatchEvent<T> {
    Added(T),
    Modified(T),
    Deleted(T),
    Bookmark,
    Error,
}

/// Whether a request to the admin server is a health probe: a GET or HEAD
/// request for `/live` or `/ready`.
pub open spec fn is_probe(method: Seq<char>, path: Seq<char>) -> bool {
    (method == "GET"@ || method == "HEAD"@) && (path == "/live"@ || path == "/ready"@)
}

/// Whether a condition says that the names of a resource definition were
/// accepted.
pub open spec fn names_accepted(condition: Condition) -> bool {
    condition.type_@ == "NamesAccepted"@ && condition.status@ == "True"@
}

fn same_text(text: &str, literal: &str) -> (same: bool)
    ensures
        same == (text@ == literal@),
{
    String::from_str(text) == String::from_str(literal)
}

/// The status with which the admin server answers a request: OK to a health
/// probe, and not found to anything else.
pub fn admin_status(method: &str, path: &str) -> (status: u16)
    ensures
        status == if is_probe(method@, path@) {
            OK
        } else {
            NOT_FOUND
        },
{
    if (same_text(method, "GET") || same_text(method, "HEAD")) && (same_text(path, "/live") || same_text(path, "/ready")) {
        OK
    } else {
        NOT_FOUND
    }
}

/// The status with which the test server answers a request for `path`: OK,
/// with a summary of the request, to `/request-summary`, and not found to
/// anything else.
pub fn http_status(path: &str) -> (status: u16)
    ensures
        status == if path@ == "/request-summary"@ {
            OK
        } else {
            NOT_FOUND
        },
{
    if same_text(path, "/request-summary") {
        OK
    } else {
        NOT_FOUND
    }
}

/// Whether the API server accepted a resource definition: one of the
/// conditions of its status says that its names were accepted. A definition
/// without status has no conditions.
pub fn is_accepted(conditions: &Vec<Condition>) -> (accepted: bool)
    ensures
        accepted == exists|i: int|
            0 <= i < conditions@.len() && names_accepted(#[trigger] conditions@[i]),
{
    let mut i: usize = 0;
    while i < conditions.len()
        invariant
            i <= conditions@.len(),
            forall|j: int| 0 <= j < i ==> !names_accepted(#[trigger] conditions@[j]),
        decreases conditions@.len() - i,
    {
        if same_text(conditions[i].type_.as_str(), "NamesAccepted") && same_text(
            conditions[i].status.as_str(),
            "True",
        ) {
            return true;
        }
        i += 1;
    }
    false
}

/// Whether a deployment is available: its status counts at least one
/// available replica. A deployment without that count has none.
pub fn is_available(available_replicas: Option<i32>) -> (available: bool)
    ensures
        available == (available_replicas matches Some(count) && count > 0),
{
    match available_replicas {
        Some(count) => count > 0,
        None => false,
    }
}

/// What a watch that waits for a resource to become ready makes of an event.
/// `ready` says whether the resource of the event is ready. The wait ends
/// with the resource when it was added or modified and is ready; every other
/// event is passed over.
pub fn settled<T>(event: WatchEvent<T>, ready: bool) -> (resource: Option<T>)
    ensures
        resource == match event {
            WatchEvent::Added(resource) if ready => Some(resource),
            WatchEvent::Modified(resource) if ready => Some(resource),
            _ => None,
        },
{
    match event {
        WatchEvent::Added(resource) if ready => Some(resource),
        WatchEvent::Modified(resource) if ready => Some(resource),
        _ => None,
    }
}

} // verus!
