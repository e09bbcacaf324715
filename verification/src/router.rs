//! The built-in request handler: method/path dispatch and its bridge
//! round trip.
//!
//! The HTTP transport is an external collaborator; it hands this module a
//! plain method and path and takes a plain status and body back. On the
//! two matched routes the handler submits one no-op continuation through
//! the bridge and answers 200 once the main thread will run it; anything
//! else is a routing miss, answered 404 with no bridge traffic.

use vstd::prelude::*;
use vstd::string::StrSliceExecFns;

use crate::bridge::Bridge;
use crate::bridge::BridgeClosed;
use crate::bridge::BridgeMsg;
use crate::bridge::Continuation;

verus! {

/// The request method as the router sees it: only GET and POST are ever
/// matched, every other method falls through to the miss arm.
#[derive(Clone, Copy, PartialEq, Eq, Structural, Debug)]
pub enum Method {
    Get,
    Post,
    Other,
}

/// A response as handed back to the transport: a status code and a body.
pub struct HttpResponse {
    pub status: u16,
    pub body: String,
}

/// Whether this request is matched and thus takes a round trip through
/// the bridge before it is answered.
pub open spec fn needs_main_thread(method: Method, path: Seq<char>) -> bool {
    (method is Get || method is Post) && path == "/"@
}

/// The status the router answers: 200 on the two matched routes, 404 on
/// a miss.
pub open spec fn routed_status(method: Method, path: Seq<char>) -> u16 {
    if needs_main_thread(method, path) {
        200
    } else {
        404
    }
}

/// The body the router answers with.
pub open spec fn routed_body(method: Method, path: Seq<char>) -> Seq<char> {
    if method is Get && path == "/"@ {
        "hello GET"@
    } else if method is Post && path == "/"@ {
        "hello POST"@
    } else {
        Seq::empty()
    }
}

/// Character-for-character string equality.
pub fn str_eq(a: &str, b: &str) -> (r: bool)
    ensures
        r == (a@ == b@),
{
    let a_len = a.unicode_len();
    let b_len = b.unicode_len();
    if a_len != b_len {
        return false;
    }
    let mut i: usize = 0;
    while i < a_len
        invariant
            a_len == a@.len(),
            a_len == b@.len(),
            i <= a_len,
            forall|j: int| 0 <= j < i ==> a@[j] == b@[j],
        decreases a_len - i,
    {
        if a.get_char(i) != b.get_char(i) {
            return false;
        }
        i += 1;
    }
    proof {
        assert(a@ =~= b@);
    }
    true
}

/// What the router decided for one request: the response to send and
/// whether a main-thread round trip is owed first.
pub struct RoutePlan {
    pub status: u16,
    pub body: String,
    pub main_thread_trip: bool,
}

fn miss() -> (plan: RoutePlan)
    ensures
        plan.status == 404,
        plan.body@ == Seq::<char>::empty(),
        !plan.main_thread_trip,
{
    RoutePlan { status: 404, body: String::new(), main_thread_trip: false }
}

/// Dispatch one request: GET "/" and POST "/" are matched and owe one
/// main-thread round trip; everything else is a miss, answered 404 with
/// an empty body and no bridge traffic.
pub fn route(method: Method, path: &str) -> (plan: RoutePlan)
    ensures
        plan.status == routed_status(method, path@),
        plan.body@ == routed_body(method, path@),
        plan.main_thread_trip == needs_main_thread(method, path@),
{
    let root = str_eq(path, "/");
    match method {
        Method::Get => {
            if root {
                RoutePlan { status: 200, body: "hello GET".to_owned(), main_thread_trip: true }
            } else {
                miss()
            }
        },
        Method::Post => {
            if root {
                RoutePlan { status: 200, body: "hello POST".to_owned(), main_thread_trip: true }
            } else {
                miss()
            }
        },
        Method::Other => miss(),
    }
}

/// Serve one request end to end, as the handler shim does per accepted
/// connection: dispatch, submit the owed continuation through the bridge,
/// and produce the response. A matched request grows the bridge queue by
/// exactly one message; a miss leaves the bridge untouched; a matched
/// request against a closed bridge fails with `BridgeClosed` instead of
/// hanging, leaving the bridge untouched.
pub fn handle_request(bridge: &mut Bridge, method: Method, path: &str) -> (r: Result<
    HttpResponse,
    BridgeClosed,
>)
    requires
        old(bridge).wf(),
        old(bridge).next_id < u64::MAX,
    ensures
        final(bridge).wf(),
        !needs_main_thread(method, path@) ==> *final(bridge) == *old(bridge) && (r matches Ok(resp)
            && resp.status == 404 && resp.body@ == Seq::<char>::empty()),
        needs_main_thread(method, path@) && old(bridge).closed ==> *final(bridge) == *old(bridge)
            && (r matches Err(e) && e == BridgeClosed),
        needs_main_thread(method, path@) && !old(bridge).closed ==> {
            &&& r matches Ok(resp) && resp.status == 200 && resp.body@ == routed_body(
                method,
                path@,
            )
            &&& final(bridge).pending@ == old(bridge).pending@.push(
                BridgeMsg { msg_id: old(bridge).next_id, continuation: Continuation::Touch },
            )
            &&& final(bridge).next_id == old(bridge).next_id + 1
            &&& final(bridge).retired == old(bridge).retired
            &&& !final(bridge).closed
        },
{
    let plan = route(method, path);
    if plan.main_thread_trip {
        match bridge.submit(Continuation::Touch) {
            Ok(_) => Ok(HttpResponse { status: plan.status, body: plan.body }),
            Err(e) => Err(e),
        }
    } else {
        Ok(HttpResponse { status: plan.status, body: plan.body })
    }
}

} // verus!
