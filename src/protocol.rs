//! The addresses of the requests a coordinator sends to a storage node.
use crate::models::QueryParams;
use crate::ring::{identity_of, Node};
use crate::text::{decimal, decimal_string};
use vstd::prelude::*;

verus! {

/// `http://host:port`, the root of a node's interface.
pub open spec fn base_url(n: Node) -> Seq<char> {
    "http://"@ + identity_of(n)
}

/// The query string of a listing: `top` and `skip` where given.
pub open spec fn query_string(query: Option<QueryParams>) -> Seq<char> {
    match query {
        None => Seq::empty(),
        Some(q) => match (q.top, q.skip) {
            (None, None) => Seq::empty(),
            (Some(t), None) => "?top="@ + decimal(t as nat),
            (None, Some(k)) => "?skip="@ + decimal(k as nat),
            (Some(t), Some(k)) => "?top="@ + decimal(t as nat) + "&skip="@ + decimal(k as nat),
        },
    }
}

fn base(node: &Node) -> (r: String)
    ensures
        r@ == base_url(*node),
{
    let mut s = String::from_str("http://");
    let id = node.identity();
    s.append(id.as_str());
    s
}

/// The health probe: `GET /hello`.
pub fn hello_url(node: &Node) -> (r: String)
    ensures
        r@ == base_url(*node) + "/hello"@,
{
    let mut s = base(node);
    s.append("/hello");
    s
}

/// Creating a short link: `POST /shorten`.
pub fn shorten_url(node: &Node) -> (r: String)
    ensures
        r@ == base_url(*node) + "/shorten"@,
{
    let mut s = base(node);
    s.append("/shorten");
    s
}

/// Looking a record up: `GET /{code}/summary`.
pub fn summary_url(node: &Node, code: &str) -> (r: String)
    ensures
        r@ == base_url(*node) + "/"@ + code@ + "/summary"@,
{
    let mut s = base(node);
    s.append("/");
    s.append(code);
    s.append("/summary");
    s
}

/// Removing a record: `DELETE /admin/{code}`.
pub fn delete_url(node: &Node, code: &str) -> (r: String)
    ensures
        r@ == base_url(*node) + "/admin/"@ + code@,
{
    let mut s = base(node);
    s.append("/admin/");
    s.append(code);
    s
}

/// Listing records: `GET /urls`, with `top` and `skip` where given.
pub fn urls_url(node: &Node, query: Option<QueryParams>) -> (r: String)
    ensures
        r@ == base_url(*node) + "/urls"@ + query_string(query),
{
    let mut s = base(node);
    s.append("/urls");
    match query {
        None => {},
        Some(q) => match (q.top, q.skip) {
            (None, None) => {},
            (Some(t), None) => {
                s.append("?top=");
                let d = decimal_string(t as u64);
                s.append(d.as_str());
            },
            (None, Some(k)) => {
                s.append("?skip=");
                let d = decimal_string(k as u64);
                s.append(d.as_str());
            },
            (Some(t), Some(k)) => {
                s.append("?top=");
                let d = decimal_string(t as u64);
                s.append(d.as_str());
                s.append("&skip=");
                let e = decimal_string(k as u64);
                s.append(e.as_str());
            },
        },
    }
    proof {
        assert(s@ =~= base_url(*node) + "/urls"@ + query_string(query));
    }
    s
}

} // verus!
