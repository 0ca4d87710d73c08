//! `last view`.

use vstd::prelude::*;
use crate::app_config::AppConfig;
use crate::error::{CliError, ErrorKind, is_error, no_last_request};
use crate::http::Response;
use crate::text::chars_of;

verus! {

#[derive(Debug)]
pub enum LastCommand {
    View,
}

/// Runs a `last` command for the directory `dir`: the response kept for it.
pub fn init<'a>(command: LastCommand, store: &'a AppConfig, dir: &String) -> (r: Result<
    &'a Response,
    CliError,
>)
    ensures
        store.prev_request@.contains_key(dir@) ==> r is Ok && *r->Ok_0 == store.prev_request@[dir@],
        !store.prev_request@.contains_key(dir@) ==> r is Err && is_error(
            r->Err_0,
            ErrorKind::Resolution,
            "No last request found"@,
        ),
{
    match command {
        LastCommand::View => match store.get_prev_request(dir) {
            Some(response) => Ok(response),
            None => Err(no_last_request()),
        },
    }
}


/// The JSON pointer of a dotted path: `a.b` points at `/a/b`.
pub open spec fn pointer_of(path: Seq<char>) -> Seq<char> {
    seq!['/'] + path.map_values(|c: char| if c == '.' { '/' } else { c })
}

pub fn json_pointer(path: &str) -> (r: String)
    ensures
        r@ == pointer_of(path@),
{
    let chars = chars_of(path);
    let mut out = String::new();
    out.push('/');
    let mut i: usize = 0;
    while i < chars.len()
        invariant
            i <= chars.len(),
            chars@ == path@,
            out@ == pointer_of(path@.subrange(0, i as int)),
        decreases chars.len() - i,
    {
        let c = chars[i];
        if c == '.' {
            out.push('/');
        } else {
            out.push(c);
        }
        assert(pointer_of(path@.subrange(0, i + 1)) =~= pointer_of(path@.subrange(0, i as int)).push(
            if c == '.' {
                '/'
            } else {
                c
            },
        ));
        i = i + 1;
    }
    assert(path@.subrange(0, i as int) =~= path@);
    out
}

} // verus!
