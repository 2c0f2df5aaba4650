//! How the gateways read their backends' HTTP answers. The requests and
//! their bodies are the caller's; what a status code means is decided here.

use vstd::prelude::*;
use crate::text::decimal;

verus! {

/// The phrase the HTTP types put after a status code's number: the
/// canonical reason of a registered code, `<unknown status code>` otherwise.
pub uninterp spec fn status_reason(code: u16) -> Seq<char>;

/// The printed form of a status code: its number, a space, its reason.
pub open spec fn status_line(code: u16) -> Seq<char> {
    decimal(code as nat) + " "@ + status_reason(code)
}

/// Renders a status code as `reqwest::StatusCode` displays it.
///
/// Calls `StatusCode::from_u16`, which accepts exactly `100..=999`, and the
/// type's `Display`, which writes the number, a space, and
/// `canonical_reason()` or `<unknown status code>`; the reason table is left
/// to the name `status_reason`.
#[verifier::external_body]
fn status_text(code: u16) -> (r: String)
    requires
        100 <= code <= 999,
    ensures
        r@ == decimal(code as nat) + " "@ + status_reason(code),
{
    match reqwest::StatusCode::from_u16(code) {
        Ok(status) => status.to_string(),
        Err(_) => String::new(),
    }
}

/// What a backend's answer to a lookup says.
#[derive(Debug)]
pub enum LookupReply {
    /// A 2xx: the body holds the entity.
    Found,
    /// A 404: there is no such entity.
    Missing,
    /// Anything else: the backend failed, as this message says.
    Failed(String),
}

/// "`service` service returned `status_line`"
pub open spec fn failure_message(service: Seq<char>, status_line: Seq<char>) -> Seq<char> {
    service + " service returned "@ + status_line
}

/// "orders service rejected the order (`status_line`): `body`"
pub open spec fn rejection_message(status_line: Seq<char>, body: Seq<char>) -> Seq<char> {
    "orders service rejected the order ("@ + status_line + "): "@ + body
}

/// The message for a backend that answered a lookup with `status_line`.
pub fn service_failure(service: &str, status_line: &str) -> (m: String)
    ensures
        m@ == failure_message(service@, status_line@),
{
    let mut m = String::from_str(service);
    m.append(" service returned ");
    m.append(status_line);
    m
}

/// The message for an order the orders backend refused with `status_line`
/// and `body`.
pub fn order_rejection(status_line: &str, body: &str) -> (m: String)
    ensures
        m@ == rejection_message(status_line@, body@),
{
    let mut m = String::from_str("orders service rejected the order (");
    m.append(status_line);
    m.append("): ");
    m.append(body);
    m
}

/// Reads the status of `service`'s answer to a lookup.
pub fn read_lookup_reply(service: &str, status: u16) -> (r: LookupReply)
    requires
        100 <= status <= 999,
    ensures
        200 <= status < 300 ==> r is Found,
        status == 404 ==> r is Missing,
        !(200 <= status < 300) && status != 404 ==> (r matches LookupReply::Failed(m)
            && m@ == failure_message(service@, status_line(status))),
{
    if 200 <= status && status < 300 {
        LookupReply::Found
    } else if status == 404 {
        LookupReply::Missing
    } else {
        let line = status_text(status);
        LookupReply::Failed(service_failure(service, line.as_str()))
    }
}

/// Reads the status of the orders backend's answer to placing an order:
/// `None` when it was accepted (the body holds the order), else the
/// message the refusal is reported with.
pub fn read_place_reply(status: u16, body: &str) -> (r: Option<String>)
    requires
        100 <= status <= 999,
    ensures
        200 <= status < 300 ==> r is None,
        !(200 <= status < 300) ==> (r matches Some(m) && m@ == rejection_message(status_line(status), body@)),
{
    if 200 <= status && status < 300 {
        None
    } else {
        let line = status_text(status);
        Some(order_rejection(line.as_str(), body))
    }
}

} // verus!
