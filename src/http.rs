//! The request methods and the snapshot of a response.

use vstd::prelude::*;
use crate::strmap::StrMap;

verus! {

#[allow(non_camel_case_types, clippy::upper_case_acronyms)]
#[derive(Clone, Copy, Debug, PartialEq, Eq, Structural)]
pub enum HttpMethod {
    GET,
    POST,
    PUT,
    DELETE,
    PATCH,
}

impl HttpMethod {
    pub open spec fn name(self) -> Seq<char> {
        match self {
            HttpMethod::GET => "GET"@,
            HttpMethod::POST => "POST"@,
            HttpMethod::PUT => "PUT"@,
            HttpMethod::DELETE => "DELETE"@,
            HttpMethod::PATCH => "PATCH"@,
        }
    }

    /// The method's name on the wire.
    pub fn as_str(&self) -> (r: &'static str)
        ensures
            r@ == self.name(),
    {
        match self {
            HttpMethod::GET => "GET",
            HttpMethod::POST => "POST",
            HttpMethod::PUT => "PUT",
            HttpMethod::DELETE => "DELETE",
            HttpMethod::PATCH => "PATCH",
        }
    }
}

/// The name of the header that identifies the client.
pub const USER_AGENT_HEADER: &'static str = "User-Agent";

/// The value of that header.
pub const USER_AGENT: &'static str = "hit-cli";

/// The headers sent with a request: those given, but for any `User-Agent`, then the
/// tool's own `User-Agent`.
pub open spec fn sent_headers(headers: Seq<(String, String)>) -> Seq<(Seq<char>, Seq<char>)> {
    headers.filter(|h: (String, String)| h.0@ != USER_AGENT_HEADER@).map_values(
        |h: (String, String)| (h.0@, h.1@),
    ).push((USER_AGENT_HEADER@, USER_AGENT@))
}

pub fn request_headers(headers: &Vec<(String, String)>) -> (r: Vec<(String, String)>)
    ensures
        r@.map_values(|h: (String, String)| (h.0@, h.1@)) == sent_headers(headers@),
{
    let ghost view = |h: (String, String)| (h.0@, h.1@);
    let ghost keep = |h: (String, String)| h.0@ != USER_AGENT_HEADER@;
    let user_agent = String::from_str(USER_AGENT_HEADER);
    let mut out: Vec<(String, String)> = Vec::new();
    let mut i: usize = 0;
    while i < headers.len()
        invariant
            i <= headers.len(),
            user_agent@ == USER_AGENT_HEADER@,
            view == (|h: (String, String)| (h.0@, h.1@)),
            keep == (|h: (String, String)| h.0@ != USER_AGENT_HEADER@),
            out@.map_values(view) == headers@.subrange(0, i as int).filter(keep).map_values(view),
        decreases headers.len() - i,
    {
        let ghost prev = out@;
        assert(headers@.subrange(0, i + 1).drop_last() =~= headers@.subrange(0, i as int));
        proof {
            reveal(Seq::filter);
        }
        if headers[i].0 != user_agent {
            out.push((headers[i].0.clone(), headers[i].1.clone()));
            assert(out@.map_values(view) =~= prev.map_values(view).push(view(headers@[i as int])));
        }
        i = i + 1;
    }
    assert(headers@.subrange(0, i as int) =~= headers@);
    let ghost prev = out@;
    out.push((user_agent, String::from_str(USER_AGENT)));
    assert(out@.map_values(view) =~= prev.map_values(view).push((USER_AGENT_HEADER@, USER_AGENT@)));
    out
}

/// What a request brought back: the address after redirects, the status, the headers
/// and the body as text.
#[derive(Debug)]
pub struct Response {
    pub url: String,
    pub status: u16,
    pub headers: StrMap<String>,
    pub body: String,
}

} // verus!
