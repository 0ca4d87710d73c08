//! Placeholders in templates: `:name` parameters supplied at the command line
//! and `{{name}}` references to environment variables.

use vstd::prelude::*;
use crate::strmap::{StrMap, string_view, strings_view};
use crate::text::{chars_of, string_of_range};
use array_tool::vec::Union;

verus! {

/// What regex_syntax's `is_word_character` says of a character: Unicode `\w`.
pub uninterp spec fn is_word_char(c: char) -> bool;

/// An ASCII letter, digit or `_`: the word characters among the ASCII ones.
pub open spec fn is_ascii_word_char(c: char) -> bool {
    ('a' <= c && c <= 'z') || ('A' <= c && c <= 'Z') || ('0' <= c && c <= '9') || c == '_'
}

/// How many word characters follow position `i` without a break.
pub open spec fn word_run(s: Seq<char>, i: int) -> int
    decreases s.len() - i,
{
    if 0 <= i < s.len() && is_word_char(s[i]) {
        1 + word_run(s, i + 1)
    } else {
        0
    }
}

/// The names of the `:name` placeholders from position `i` on, in order, repeats included.
pub open spec fn tokens_from(s: Seq<char>, i: int) -> Seq<Seq<char>>
    decreases s.len() - i
    via tokens_from_decreases
{
    if i < 0 || i >= s.len() {
        Seq::empty()
    } else if s[i] == ':' && word_run(s, i + 1) > 0 {
        let end = i + 1 + word_run(s, i + 1);
        seq![s.subrange(i + 1, end)] + tokens_from(s, end)
    } else {
        tokens_from(s, i + 1)
    }
}

/// The names of all `:name` placeholders of `s`, in order, repeats included.
pub open spec fn param_tokens(s: Seq<char>) -> Seq<Seq<char>> {
    tokens_from(s, 0)
}

/// `s` with each element after its first occurrence dropped.
pub open spec fn unique(s: Seq<Seq<char>>) -> Seq<Seq<char>>
    decreases s.len(),
{
    if s.len() == 0 {
        s
    } else {
        let u = unique(s.drop_last());
        if u.contains(s.last()) {
            u
        } else {
            u.push(s.last())
        }
    }
}

/// The distinct placeholder names of `s`, in the order of first occurrence.
pub open spec fn param_names(s: Seq<char>) -> Seq<Seq<char>> {
    unique(param_tokens(s))
}

/// The length of the longest key of `values`, at most `n` long, that follows the `:`
/// at position `i`; -1 if there is none.
pub open spec fn key_len_at(s: Seq<char>, values: Map<Seq<char>, Seq<char>>, i: int, n: int) -> int
    decreases n + 1,
{
    if n < 0 {
        -1
    } else if values.contains_key(s.subrange(i + 1, i + 1 + n)) {
        n
    } else {
        key_len_at(s, values, i, n - 1)
    }
}

/// The length of the longest key of `values` written right after position `i`, or -1.
pub open spec fn matched_key_len(s: Seq<char>, values: Map<Seq<char>, Seq<char>>, i: int) -> int {
    key_len_at(s, values, i, s.len() - i - 1)
}

/// `s` from position `i` on, with each `:` followed by a key of `values` replaced, with
/// that key, by the key's value (the longest key where several fit). One pass: the
/// text that a value brings in is never read again.
pub open spec fn substitute_from(s: Seq<char>, values: Map<Seq<char>, Seq<char>>, i: int) -> Seq<
    char,
>
    decreases s.len() - i
    via substitute_from_decreases
{
    if i < 0 || i >= s.len() {
        Seq::empty()
    } else if s[i] == ':' && matched_key_len(s, values, i) >= 0 {
        let end = i + 1 + matched_key_len(s, values, i);
        values[s.subrange(i + 1, end)] + substitute_from(s, values, end)
    } else {
        seq![s[i]] + substitute_from(s, values, i + 1)
    }
}

/// Every `":" + k`, for `k` a key of `values`, replaced by the value of `k` in one pass.
pub open spec fn substitute(s: Seq<char>, values: Map<Seq<char>, Seq<char>>) -> Seq<char> {
    substitute_from(s, values, 0)
}

/// A `{{name}}` reference starts at position `i`.
pub open spec fn env_placeholder_at(s: Seq<char>, i: int) -> bool {
    let n = word_run(s, i + 2);
    &&& 0 <= i && i + 3 + n < s.len()
    &&& s[i] == '{' && s[i + 1] == '{'
    &&& n > 0
    &&& s[i + 2 + n] == '}' && s[i + 3 + n] == '}'
}

/// `s` holds a `{{name}}` reference to an environment variable.
pub open spec fn has_env_placeholder(s: Seq<char>) -> bool {
    exists|i: int| env_placeholder_at(s, i)
}

pub proof fn lemma_word_run_bounds(s: Seq<char>, i: int)
    ensures
        0 <= word_run(s, i),
        0 <= i <= s.len() ==> i + word_run(s, i) <= s.len(),
        i >= s.len() ==> word_run(s, i) == 0,
    decreases s.len() - i,
{
    if 0 <= i < s.len() && is_word_char(s[i]) {
        lemma_word_run_bounds(s, i + 1);
    }
}

#[via_fn]
proof fn tokens_from_decreases(s: Seq<char>, i: int) {
    lemma_word_run_bounds(s, i + 1);
}

#[via_fn]
proof fn substitute_from_decreases(s: Seq<char>, values: Map<Seq<char>, Seq<char>>, i: int) {
    lemma_key_len_bounds(s, values, i, s.len() - i - 1);
}

pub proof fn lemma_key_len_bounds(s: Seq<char>, values: Map<Seq<char>, Seq<char>>, i: int, n: int)
    ensures
        -1 <= key_len_at(s, values, i, n),
        key_len_at(s, values, i, n) <= n || n < 0,
        key_len_at(s, values, i, n) >= 0 ==> values.contains_key(
            s.subrange(i + 1, i + 1 + key_len_at(s, values, i, n)),
        ),
    decreases n + 1,
{
    if n >= 0 && !values.contains_key(s.subrange(i + 1, i + 1 + n)) {
        lemma_key_len_bounds(s, values, i, n - 1);
    }
}

/// Relies on regex_syntax's `is_word_character`, the class of `\w` in a Unicode regex:
/// `Alphabetic`, `Join_Control`, `Decimal_Number`, `Mark` or `Connector_Punctuation`,
/// which among ASCII characters are exactly the letters, the digits and `_`.
#[verifier::external_body]
pub fn is_word(c: char) -> (r: bool)
    ensures
        r == is_word_char(c),
        (c as u32) < 128 ==> (r <==> is_ascii_word_char(c)),
{
    regex_syntax::is_word_character(c)
}

/// The end of the run of word characters that starts at `from`.
pub fn word_end(chars: &Vec<char>, from: usize) -> (r: usize)
    requires
        from <= chars.len(),
    ensures
        r == from + word_run(chars@, from as int),
        r <= chars.len(),
{
    let mut j = from;
    while j < chars.len() && is_word(chars[j])
        invariant
            from <= j <= chars.len(),
            word_run(chars@, from as int) == (j - from) + word_run(chars@, j as int),
        decreases chars.len() - j,
    {
        j = j + 1;
    }
    j
}

/// `v` holds a string equal to `x`.
pub fn contains_string(v: &Vec<String>, x: &String) -> (r: bool)
    ensures
        r == strings_view(v@).contains(x@),
{
    let mut i: usize = 0;
    while i < v.len()
        invariant
            i <= v.len(),
            forall|j: int| 0 <= j < i ==> v@[j]@ != x@,
        decreases v.len() - i,
    {
        if v[i] == *x {
            assert(strings_view(v@)[i as int] == x@);
            return true;
        }
        i = i + 1;
    }
    assert(!strings_view(v@).contains(x@)) by {
        if strings_view(v@).contains(x@) {
            let j = choose|j: int| 0 <= j < v.len() && strings_view(v@)[j] == x@;
            assert(v@[j]@ == x@);
        }
    }
    false
}

/// The distinct names of the `:name` placeholders of `input`, in the order in which
/// they first occur.
pub fn get_params_from_string(input: &str) -> (r: Vec<String>)
    ensures
        strings_view(r@) == param_names(input@),
{
    let chars = chars_of(input);
    let n = chars.len();
    let mut out: Vec<String> = Vec::new();
    let ghost mut found: Seq<Seq<char>> = Seq::empty();
    let mut i: usize = 0;
    assert(strings_view(out@) =~= unique(found));
    while i < n
        invariant
            i <= n == chars.len(),
            chars@ == input@,
            found + tokens_from(input@, i as int) == tokens_from(input@, 0),
            strings_view(out@) == unique(found),
        decreases n - i,
    {
        let ghost s = input@;
        if chars[i] == ':' && i + 1 < n && is_word(chars[i + 1]) {
            let end = word_end(&chars, i + 1);
            proof {
                lemma_word_run_bounds(s, i + 1);
                lemma_word_run_bounds(s, i + 2);
            }
            let name = string_of_range(&chars, i + 1, end);
            assert(tokens_from(s, i as int) == seq![name@] + tokens_from(s, end as int));
            proof {
                assert(found.push(name@) + tokens_from(s, end as int) =~= found + (seq![name@]
                    + tokens_from(s, end as int)));
                assert(found.push(name@).drop_last() =~= found);
            }
            if !contains_string(&out, &name) {
                out.push(name);
                assert(strings_view(out@) =~= unique(found).push(name@));
            }
            proof {
                found = found.push(name@);
            }
            i = end;
        } else {
            assert(tokens_from(s, i as int) == tokens_from(s, i + 1)) by {
                if i + 1 < n {
                } else {
                    lemma_word_run_bounds(s, i + 1);
                }
            }
            i = i + 1;
        }
    }
    assert(tokens_from(input@, n as int) =~= Seq::<Seq<char>>::empty());
    assert(found =~= tokens_from(input@, 0));
    out
}

/// Relies on array_tool's `Union::union`: the strings of `a` followed by those of `b`,
/// each kept at its first occurrence only.
#[verifier::external_body]
fn union_of(a: &Vec<String>, b: Vec<String>) -> (r: Vec<String>)
    ensures
        strings_view(r@) == unique(strings_view(a@) + strings_view(b@)),
{
    a.union(b)
}

/// The names of `first` followed by those of `second` that `first` lacks.
pub fn union_params(first: &Vec<String>, second: Vec<String>) -> (r: Vec<String>)
    ensures
        strings_view(r@) == unique(strings_view(first@) + strings_view(second@)),
{
    union_of(first, second)
}

/// `s` holds a `{{name}}` reference to an environment variable.
pub fn has_env_vars(s: &str) -> (r: bool)
    ensures
        r == has_env_placeholder(s@),
{
    let chars = chars_of(s);
    let n = chars.len();
    let mut i: usize = 0;
    while i < n
        invariant
            i <= n == chars.len(),
            chars@ == s@,
            forall|k: int| k < i ==> !env_placeholder_at(s@, k),
        decreases n - i,
    {
        if chars[i] == '{' && i + 1 < n && chars[i + 1] == '{' {
            let end = word_end(&chars, i + 2);
            if end > i + 2 && end < n - 1 && chars[end] == '}' && chars[end + 1] == '}' {
                assert(env_placeholder_at(s@, i as int));
                return true;
            }
        }
        assert(!env_placeholder_at(s@, i as int));
        i = i + 1;
    }
    assert forall|k: int| !env_placeholder_at(s@, k) by {
        lemma_word_run_bounds(s@, k + 2);
    }
    false
}

/// The length of the longest key of `params` written right after position `i`.
pub fn param_match(chars: &Vec<char>, i: usize, params: &StrMap<String>) -> (r: Option<usize>)
    requires
        i < chars.len(),
    ensures
        match r {
            Some(n) => n == matched_key_len(chars@, string_view(params@), i as int) && n >= 0,
            None => matched_key_len(chars@, string_view(params@), i as int) < 0,
        },
{
    let ghost s = chars@;
    let ghost values = string_view(params@);
    let ghost top = s.len() - i - 1;
    let mut n: usize = chars.len() - i - 1;
    loop
        invariant
            i < chars.len(),
            n <= top,
            values == string_view(params@),
            s == chars@,
            top == s.len() - i - 1,
            key_len_at(s, values, i as int, top) == key_len_at(s, values, i as int, n as int),
        decreases n,
    {
        let key = string_of_range(chars, i + 1, i + 1 + n);
        if params.contains_key(&key) {
            return Some(n);
        }
        assert(!values.contains_key(s.subrange(i + 1, i + 1 + n)));
        if n == 0 {
            assert(key_len_at(s, values, i as int, -1) == -1);
            assert(key_len_at(s, values, i as int, 0) == -1);
            return None;
        }
        n = n - 1;
    }
}

/// `input` with every `":" + k`, for `k` a key of `params`, replaced by the value of `k`,
/// in one pass: what a value brings in is never read as a placeholder.
pub fn replace_params(input: String, params: &StrMap<String>) -> (r: String)
    ensures
        r@ == substitute(input@, string_view(params@)),
{
    let ghost values = string_view(params@);
    let chars = chars_of(input.as_str());
    let n = chars.len();
    let mut out = String::new();
    let mut i: usize = 0;
    assert(out@ + substitute_from(input@, values, 0) =~= substitute(input@, values));
    while i < n
        invariant
            i <= n == chars.len(),
            chars@ == input@,
            values == string_view(params@),
            out@ + substitute_from(input@, values, i as int) == substitute(input@, values),
        decreases n - i,
    {
        let ghost s = input@;
        let ghost before = out@;
        let matched = if chars[i] == ':' {
            param_match(&chars, i, params)
        } else {
            None
        };
        match matched {
            Some(m) => {
                proof {
                    lemma_key_len_bounds(s, values, i as int, s.len() - i - 1);
                }
                let end = i + 1 + m;
                let key = string_of_range(&chars, i + 1, end);
                let ghost piece = values[key@];
                assert(substitute_from(s, values, i as int) == piece + substitute_from(
                    s,
                    values,
                    end as int,
                ));
                match params.get(&key) {
                    Some(v) => out.append(v.as_str()),
                    None => {},
                }
                assert(out@ =~= before + piece);
                assert(before + (piece + substitute_from(s, values, end as int)) =~= (before + piece)
                    + substitute_from(s, values, end as int));
                i = end;
            },
            None => {
                assert(substitute_from(s, values, i as int) == seq![chars[i as int]] + substitute_from(
                    s,
                    values,
                    i + 1,
                ));
                out.push(chars[i]);
                assert(before + (seq![chars[i as int]] + substitute_from(s, values, i + 1)) =~= out@
                    + substitute_from(s, values, i + 1));
                i = i + 1;
            },
        }
    }
    assert(substitute_from(input@, values, n as int) =~= Seq::<char>::empty());
    assert(out@ =~= out@ + substitute_from(input@, values, n as int));
    out
}

/// The position at which `x` first occurs in `s`, or -1.
pub open spec fn first_index(s: Seq<Seq<char>>, x: Seq<char>) -> int
    decreases s.len(),
{
    if s.len() == 0 {
        -1
    } else if s.drop_last().contains(x) {
        first_index(s.drop_last(), x)
    } else if s.last() == x {
        s.len() - 1
    } else {
        -1
    }
}

pub proof fn lemma_first_index(s: Seq<Seq<char>>, x: Seq<char>)
    ensures
        s.contains(x) ==> 0 <= first_index(s, x) < s.len() && s[first_index(s, x)] == x,
        !s.contains(x) ==> first_index(s, x) == -1,
    decreases s.len(),
{
    if s.len() > 0 {
        lemma_first_index(s.drop_last(), x);
        if s.drop_last().contains(x) {
            let i = first_index(s, x);
            assert(s[i] == s.drop_last()[i]);
        } else if s.contains(x) {
            let i = choose|i: int| 0 <= i < s.len() && s[i] == x;
            if i < s.len() - 1 {
                assert(s.drop_last()[i] == x);
            }
        }
    }
}

/// Dropping repeats keeps exactly the elements, each once, in the order of their
/// first occurrence.
pub proof fn lemma_unique(s: Seq<Seq<char>>)
    ensures
        unique(s).no_duplicates(),
        forall|x: Seq<char>| unique(s).contains(x) <==> s.contains(x),
        forall|i: int, j: int|
            0 <= i < j < unique(s).len() ==> first_index(s, unique(s)[i]) < first_index(
                s,
                unique(s)[j],
            ),
        forall|i: int| 0 <= i < unique(s).len() ==> 0 <= first_index(s, #[trigger] unique(s)[i]),
    decreases s.len(),
{
    if s.len() > 0 {
        let t = s.drop_last();
        let x = s.last();
        lemma_unique(t);
        let u = unique(t);
        assert forall|y: Seq<char>| s.contains(y) <==> t.contains(y) || y == x by {
            if s.contains(y) && y != x {
                let k = choose|k: int| 0 <= k < s.len() && s[k] == y;
                assert(t[k] == y);
            }
            if t.contains(y) {
                let k = choose|k: int| 0 <= k < t.len() && t[k] == y;
                assert(s[k] == y);
            }
            if y == x {
                assert(s[s.len() - 1] == y);
            }
        }
        assert forall|y: Seq<char>| t.contains(y) implies first_index(s, y) == first_index(t, y) by {
        }
        if !u.contains(x) {
            let v = u.push(x);
            assert(v.no_duplicates()) by {
                assert forall|i: int, j: int| 0 <= i < v.len() && 0 <= j < v.len() && i != j implies v[i]
                    != v[j] by {
                    if j == u.len() {
                        assert(u.contains(v[i]) ==> v[i] != x);
                        assert(u[i] == v[i]);
                    } else if i == u.len() {
                        assert(u[j] == v[j]);
                    } else {
                        assert(u[i] == v[i] && u[j] == v[j]);
                    }
                }
            }
            assert forall|y: Seq<char>| v.contains(y) <==> s.contains(y) by {
                if v.contains(y) {
                    let k = choose|k: int| 0 <= k < v.len() && v[k] == y;
                    if k < u.len() {
                        assert(u[k] == y);
                    }
                }
                if u.contains(y) {
                    let k = choose|k: int| 0 <= k < u.len() && u[k] == y;
                    assert(v[k] == y);
                }
                if y == x {
                    assert(v[u.len() as int] == y);
                }
            }
            assert(!t.contains(x));
            assert(first_index(s, x) == s.len() - 1);
            assert forall|i: int| 0 <= i < v.len() implies 0 <= first_index(s, #[trigger] v[i]) by {
                if i < u.len() {
                    assert(v[i] == u[i]);
                    assert(u.contains(u[i]));
                }
            }
            assert forall|i: int, j: int| 0 <= i < j < v.len() implies first_index(s, v[i])
                < first_index(s, v[j]) by {
                assert(v[i] == u[i]);
                assert(u.contains(u[i]));
                lemma_first_index(t, u[i]);
                if j < u.len() {
                    assert(v[j] == u[j]);
                    assert(u.contains(u[j]));
                }
            }
        } else {
            assert forall|y: Seq<char>| u.contains(y) <==> s.contains(y) by {
            }
            assert forall|i: int| 0 <= i < u.len() implies 0 <= first_index(s, #[trigger] u[i]) by {
                assert(u.contains(u[i]));
            }
            assert forall|i: int, j: int| 0 <= i < j < u.len() implies first_index(s, u[i])
                < first_index(s, u[j]) by {
                assert(u.contains(u[i]));
                assert(u.contains(u[j]));
            }
        }
    }
}

/// A sequence without repeats is its own deduplication.
pub proof fn lemma_unique_of_distinct(s: Seq<Seq<char>>)
    requires
        s.no_duplicates(),
    ensures
        unique(s) == s,
    decreases s.len(),
{
    if s.len() > 0 {
        let t = s.drop_last();
        assert(t.no_duplicates()) by {
            assert forall|i: int, j: int| 0 <= i < t.len() && 0 <= j < t.len() && i != j implies t[i]
                != t[j] by {
                assert(t[i] == s[i] && t[j] == s[j]);
            }
        }
        lemma_unique_of_distinct(t);
        assert(!t.contains(s.last())) by {
            if t.contains(s.last()) {
                let k = choose|k: int| 0 <= k < t.len() && t[k] == s.last();
                assert(s[k] == s[s.len() - 1]);
            }
        }
        assert(t.push(s.last()) =~= s);
    }
}

/// Deduplicating twice changes nothing.
pub proof fn lemma_unique_idempotent(s: Seq<Seq<char>>)
    ensures
        unique(unique(s)) == unique(s),
{
    lemma_unique(s);
    lemma_unique_of_distinct(unique(s));
}

/// Deduplicating `a + b`, where `a` has no repeats, keeps `a` in front.
pub proof fn lemma_unique_keeps_prefix(a: Seq<Seq<char>>, b: Seq<Seq<char>>)
    requires
        a.no_duplicates(),
    ensures
        unique(a + b).len() >= a.len(),
        unique(a + b).subrange(0, a.len() as int) == a,
    decreases b.len(),
{
    if b.len() == 0 {
        assert(a + b =~= a);
        lemma_unique_of_distinct(a);
        assert(a.subrange(0, a.len() as int) =~= a);
    } else {
        lemma_unique_keeps_prefix(a, b.drop_last());
        assert((a + b).drop_last() =~= a + b.drop_last());
        let u = unique(a + b.drop_last());
        assert(u.push(b.last()).subrange(0, a.len() as int) =~= u.subrange(0, a.len() as int));
    }
}

/// The names of a template come without repeats, each name that occurs in it is
/// among them, and they stand in the order of their first occurrence.
pub proof fn lemma_param_names_first_seen(s: Seq<char>)
    ensures
        param_names(s).no_duplicates(),
        forall|x: Seq<char>| param_names(s).contains(x) <==> param_tokens(s).contains(x),
        forall|i: int, j: int|
            0 <= i < j < param_names(s).len() ==> first_index(param_tokens(s), param_names(s)[i])
                < first_index(param_tokens(s), param_names(s)[j]),
{
    lemma_unique(param_tokens(s));
}

} // verus!
