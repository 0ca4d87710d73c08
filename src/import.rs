//! Turning the paths of an OpenAPI document into URL templates.

use vstd::prelude::*;
use crate::text::chars_of;

verus! {

/// The URL template of an OpenAPI path: `{{API_URL}}` followed by the path, each
/// `{name}` segment written `:name`.
pub open spec fn url_template_of(path: Seq<char>) -> Seq<char> {
    "{{API_URL}}"@ + route_of(path)
}

/// `path` with each `{` written `:` and each `}` dropped.
pub open spec fn route_of(path: Seq<char>) -> Seq<char>
    decreases path.len(),
{
    if path.len() == 0 {
        path
    } else {
        let rest = route_of(path.drop_last());
        if path.last() == '{' {
            rest.push(':')
        } else if path.last() == '}' {
            rest
        } else {
            rest.push(path.last())
        }
    }
}

pub fn url_of_openapi_path(path: &str) -> (r: String)
    ensures
        r@ == url_template_of(path@),
{
    let chars = chars_of(path);
    let mut out = String::from_str("{{API_URL}}");
    let mut i: usize = 0;
    while i < chars.len()
        invariant
            i <= chars.len(),
            chars@ == path@,
            out@ == "{{API_URL}}"@ + route_of(path@.subrange(0, i as int)),
        decreases chars.len() - i,
    {
        let c = chars[i];
        assert(path@.subrange(0, i + 1).drop_last() =~= path@.subrange(0, i as int));
        if c == '{' {
            out.push(':');
        } else if c != '}' {
            out.push(c);
        }
        i = i + 1;
    }
    assert(path@.subrange(0, i as int) =~= path@);
    out
}

} // verus!
