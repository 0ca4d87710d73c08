//! Rendering of `{{name}}` references against environment variables, by handlebars.

use vstd::prelude::*;
use crate::error::{CliError, ErrorKind, is_error, template_not_resolved};
use crate::params::{
    env_placeholder_at, lemma_key_len_bounds, lemma_word_run_bounds, matched_key_len, param_match,
    word_end, word_run,
};
use crate::strmap::{StrMap, string_view};
use crate::text::{chars_of, string_of_range};

verus! {

#[verifier::external_type_specification]
#[verifier::external_body]
pub struct ExRenderError(handlebars::RenderError);

/// What handlebars renders `template` to with the variables `vars`, if it renders.
pub uninterp spec fn rendered(template: Seq<char>, vars: Map<Seq<char>, Seq<char>>) -> Option<
    Seq<char>,
>;

/// Relies on handlebars' `Registry::render_template` in strict mode, with the variables
/// handed over as a sorted map: the rendered text, or an error where the template is
/// malformed or refers to a variable that `vars` lacks.
#[verifier::external_body]
fn render_template(template: &str, vars: &StrMap<String>) -> (r: Result<
    String,
    handlebars::RenderError,
>)
    ensures
        match r {
            Ok(s) => rendered(template@, string_view(vars@)) == Some(s@),
            Err(_) => rendered(template@, string_view(vars@)) is None,
        },
{
    let mut registry = handlebars::Handlebars::new();
    registry.set_strict_mode(true);
    let mut data = std::collections::BTreeMap::new();
    for i in 0..vars.len() {
        data.insert(vars.key_at(i).as_str(), vars.value_at(i).as_str());
    }
    registry.render_template(template, &data)
}

/// `piece` in front of what `rest` resolved to, if it resolved.
pub open spec fn prepend(piece: Seq<char>, rest: Option<Seq<char>>) -> Option<Seq<char>> {
    match rest {
        Some(r) => Some(piece + r),
        None => None,
    }
}

/// What `s` resolves to from position `i`, in one pass: each `{{name}}` reference is
/// rendered by handlebars against `vars`, each `:` followed by a key of `params` is
/// replaced, with the key, by its value (the longest key where several fit), and any
/// other character is kept. What a variable or a parameter brings in is never read
/// again, so an environment value cannot add a parameter and a parameter value is never
/// rendered. None where a reference does not render.
pub open spec fn resolve_from(
    s: Seq<char>,
    vars: Map<Seq<char>, Seq<char>>,
    params: Map<Seq<char>, Seq<char>>,
    i: int,
) -> Option<Seq<char>>
    decreases s.len() - i
    via resolve_from_decreases
{
    if i < 0 || i >= s.len() {
        Some(Seq::empty())
    } else if env_placeholder_at(s, i) {
        let end = i + 4 + word_run(s, i + 2);
        match rendered(s.subrange(i, end), vars) {
            Some(v) => prepend(v, resolve_from(s, vars, params, end)),
            None => None,
        }
    } else if s[i] == ':' && matched_key_len(s, params, i) >= 0 {
        let end = i + 1 + matched_key_len(s, params, i);
        prepend(params[s.subrange(i + 1, end)], resolve_from(s, vars, params, end))
    } else {
        prepend(seq![s[i]], resolve_from(s, vars, params, i + 1))
    }
}

#[via_fn]
proof fn resolve_from_decreases(
    s: Seq<char>,
    vars: Map<Seq<char>, Seq<char>>,
    params: Map<Seq<char>, Seq<char>>,
    i: int,
) {
    lemma_word_run_bounds(s, i + 2);
    lemma_key_len_bounds(s, params, i, s.len() - i - 1);
}

/// What a whole template resolves to.
pub open spec fn resolved(
    s: Seq<char>,
    vars: Map<Seq<char>, Seq<char>>,
    params: Map<Seq<char>, Seq<char>>,
) -> Option<Seq<char>> {
    resolve_from(s, vars, params, 0)
}

/// The reference `{{name}}` rendered against `vars`.
fn render_reference(reference: &str, vars: &StrMap<String>) -> (r: Result<String, CliError>)
    ensures
        match rendered(reference@, string_view(vars@)) {
            Some(v) => r is Ok && r->Ok_0@ == v,
            None => r is Err && is_error(
                r->Err_0,
                ErrorKind::Resolution,
                "template could not be resolved"@,
            ),
        },
{
    match render_template(reference, vars) {
        Ok(v) => Ok(v),
        Err(_) => Err(template_not_resolved()),
    }
}

/// `template` resolved against the variables `vars` and the parameters `params`; a
/// reference that does not render is an error.
pub fn resolve_template(template: &str, vars: &StrMap<String>, params: &StrMap<String>) -> (r:
    Result<String, CliError>)
    ensures
        match resolved(template@, string_view(vars@), string_view(params@)) {
            Some(t) => r is Ok && r->Ok_0@ == t,
            None => r is Err && is_error(
                r->Err_0,
                ErrorKind::Resolution,
                "template could not be resolved"@,
            ),
        },
{
    let ghost s = template@;
    let ghost v = string_view(vars@);
    let ghost p = string_view(params@);
    let chars = chars_of(template);
    let n = chars.len();
    let mut out = String::new();
    let mut i: usize = 0;
    assert(out@ + Seq::<char>::empty() =~= Seq::<char>::empty());
    while i < n
        invariant
            i <= n == chars.len(),
            chars@ == s,
            s == template@,
            v == string_view(vars@),
            p == string_view(params@),
            resolved(s, v, p) == prepend(out@, resolve_from(s, v, p, i as int)),
        decreases n - i,
    {
        let ghost before = out@;
        proof {
            lemma_word_run_bounds(s, i + 2);
            lemma_key_len_bounds(s, p, i as int, s.len() - i - 1);
        }
        let mut end: usize = i;
        if chars[i] == '{' && i + 1 < n && chars[i + 1] == '{' {
            let e = word_end(&chars, i + 2);
            if e > i + 2 && e < n - 1 && chars[e] == '}' && chars[e + 1] == '}' {
                end = e + 2;
            }
        }
        if end > i {
            assert(env_placeholder_at(s, i as int));
            let reference = string_of_range(&chars, i, end);
            match render_reference(reference.as_str(), vars) {
                Ok(value) => {
                    let ghost rest = resolve_from(s, v, p, end as int);
                    out.append(value.as_str());
                    assert(prepend(before, prepend(value@, rest)) == prepend(out@, rest)) by {
                        if rest is Some {
                            assert(before + (value@ + rest->0) =~= out@ + rest->0);
                        }
                    }
                    i = end;
                },
                Err(e) => {
                    return Err(e);
                },
            }
        } else {
            assert(!env_placeholder_at(s, i as int));
            let matched = if chars[i] == ':' {
                param_match(&chars, i, params)
            } else {
                None
            };
            let ghost rest_from = if matched is Some {
                i + 1 + matched->0
            } else {
                i + 1
            };
            let ghost piece = if matched is Some {
                p[s.subrange(i + 1, rest_from)]
            } else {
                seq![s[i as int]]
            };
            match matched {
                Some(m) => {
                    let key = string_of_range(&chars, i + 1, i + 1 + m);
                    match params.get(&key) {
                        Some(value) => out.append(value.as_str()),
                        None => {},
                    }
                    i = i + 1 + m;
                },
                None => {
                    out.push(chars[i]);
                    i = i + 1;
                },
            }
            let ghost rest = resolve_from(s, v, p, rest_from);
            assert(out@ =~= before + piece);
            assert(prepend(before, prepend(piece, rest)) == prepend(out@, rest)) by {
                if rest is Some {
                    assert(before + (piece + rest->0) =~= out@ + rest->0);
                }
            }
        }
    }
    assert(resolve_from(s, v, p, n as int) == Some(Seq::<char>::empty()));
    assert(out@ + Seq::<char>::empty() =~= out@);
    Ok(out)
}

} // verus!
