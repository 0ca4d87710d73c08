//! Completion of JSON paths typed at a prompt.

use vstd::prelude::*;
use crate::strmap::strings_view;
use crate::text::{chars_of, string_of_range};

verus! {

/// What `str::to_lowercase` makes of a string.
pub uninterp spec fn lower_of(s: Seq<char>) -> Seq<char>;

/// Relies on `str::to_lowercase`: the lowercase form, a function of the characters alone.
#[verifier::external_body]
fn lowercase(s: &str) -> (r: String)
    ensures
        r@ == lower_of(s@),
{
    s.to_lowercase()
}

/// `needle` occurs in `hay`.
pub open spec fn occurs_in(needle: Seq<char>, hay: Seq<char>) -> bool {
    exists|i: int|
        0 <= i && i + needle.len() <= hay.len() && #[trigger] hay.subrange(i, i + needle.len())
            == needle
}

/// The suggestions whose lowercase form holds `lower_input`, in order.
pub open spec fn matching(suggestions: Seq<Seq<char>>, lower_input: Seq<char>) -> Seq<Seq<char>>
    decreases suggestions.len(),
{
    if suggestions.len() == 0 {
        suggestions
    } else {
        let rest = matching(suggestions.drop_last(), lower_input);
        if occurs_in(lower_input, lower_of(suggestions.last())) {
            rest.push(suggestions.last())
        } else {
            rest
        }
    }
}

/// How many characters `a` and `b` share from the start.
pub open spec fn common_prefix_len(a: Seq<char>, b: Seq<char>) -> int
    decreases a.len(),
{
    if a.len() == 0 || b.len() == 0 || a[0] != b[0] {
        0
    } else {
        1 + common_prefix_len(a.drop_first(), b.drop_first())
    }
}

/// How many characters `first` shares from the start with every string of `rest`.
pub open spec fn shared_prefix_len(first: Seq<char>, rest: Seq<Seq<char>>) -> int
    decreases rest.len(),
{
    if rest.len() == 0 {
        first.len() as int
    } else {
        let n = shared_prefix_len(first, rest.drop_last());
        let m = common_prefix_len(first, rest.last());
        if m < n {
            m
        } else {
            n
        }
    }
}

/// The longest prefix that all the strings share; none for no strings.
pub open spec fn longest_common_prefix_of(s: Seq<Seq<char>>) -> Seq<char> {
    if s.len() == 0 {
        Seq::empty()
    } else {
        s[0].take(shared_prefix_len(s[0], s.drop_first()))
    }
}

proof fn lemma_common_prefix_len(a: Seq<char>, b: Seq<char>)
    ensures
        0 <= common_prefix_len(a, b) <= a.len(),
        common_prefix_len(a, b) <= b.len(),
    decreases a.len(),
{
    if a.len() > 0 && b.len() > 0 && a[0] == b[0] {
        lemma_common_prefix_len(a.drop_first(), b.drop_first());
    }
}

proof fn lemma_shared_prefix_len(first: Seq<char>, rest: Seq<Seq<char>>)
    ensures
        0 <= shared_prefix_len(first, rest) <= first.len(),
    decreases rest.len(),
{
    if rest.len() > 0 {
        lemma_shared_prefix_len(first, rest.drop_last());
        lemma_common_prefix_len(first, rest.last());
    }
}

/// `needle` occurs in `hay`.
pub fn occurs(needle: &str, hay: &str) -> (r: bool)
    ensures
        r == occurs_in(needle@, hay@),
{
    let n = chars_of(needle);
    let h = chars_of(hay);
    if n.len() > h.len() {
        return false;
    }
    let mut i: usize = 0;
    while i <= h.len() - n.len()
        invariant
            n@ == needle@,
            h@ == hay@,
            n.len() <= h.len(),
            i <= h.len() - n.len() + 1,
            forall|k: int| 0 <= k < i ==> #[trigger] h@.subrange(k, k + n.len()) != n@,
        decreases h.len() - n.len() + 1 - i,
    {
        let mut j: usize = 0;
        while j < n.len() && h[i + j] == n[j]
            invariant
                j <= n.len(),
                i + n.len() <= h.len(),
                forall|k: int| 0 <= k < j ==> h@[i + k] == n@[k],
            decreases n.len() - j,
        {
            j = j + 1;
        }
        if j == n.len() {
            assert(h@.subrange(i as int, i + n.len()) =~= n@);
            return true;
        }
        assert(h@.subrange(i as int, i + n.len())[j as int] != n@[j as int]);
        i = i + 1;
    }
    assert forall|k: int| 0 <= k && k + n.len() <= h.len() implies #[trigger] h@.subrange(
        k,
        k + n.len(),
    ) != n@ by {
        assert(k < i);
    }
    false
}

/// The suggestion, lowercased, holds the lowercased input.
pub fn matches_folded(lower_input: &str, lower_suggestion: &str) -> (r: bool)
    ensures
        r == occurs_in(lower_input@, lower_suggestion@),
{
    occurs(lower_input, lower_suggestion)
}

/// How many characters `a` and `b` share from the start.
fn common_prefix(a: &Vec<char>, b: &Vec<char>) -> (r: usize)
    ensures
        r == common_prefix_len(a@, b@),
{
    let mut i: usize = 0;
    assert(a@.skip(0) =~= a@);
    assert(b@.skip(0) =~= b@);
    while i < a.len() && i < b.len() && a[i] == b[i]
        invariant
            i <= a.len(),
            i <= b.len(),
            common_prefix_len(a@, b@) == i + common_prefix_len(a@.skip(i as int), b@.skip(i as int)),
        decreases a.len() - i,
    {
        assert(a@.skip(i + 1) =~= a@.skip(i as int).drop_first());
        assert(b@.skip(i + 1) =~= b@.skip(i as int).drop_first());
        i = i + 1;
    }
    i
}

/// The longest prefix that all `strings` share.
pub fn longest_common_prefix(strings: &Vec<String>) -> (r: String)
    ensures
        r@ == longest_common_prefix_of(strings_view(strings@)),
{
    let ghost s = strings_view(strings@);
    if strings.len() == 0 {
        return String::new();
    }
    let first = chars_of(strings[0].as_str());
    let mut len = first.len();
    let mut k: usize = 1;
    assert(s.drop_first().subrange(0, 0) =~= Seq::<Seq<char>>::empty());
    while k < strings.len()
        invariant
            1 <= k <= strings.len(),
            s == strings_view(strings@),
            first@ == s[0],
            len == shared_prefix_len(s[0], s.drop_first().subrange(0, k - 1)),
        decreases strings.len() - k,
    {
        let other = chars_of(strings[k].as_str());
        let m = common_prefix(&first, &other);
        assert(s.drop_first().subrange(0, k as int).drop_last() =~= s.drop_first().subrange(
            0,
            k - 1,
        ));
        assert(s.drop_first().subrange(0, k as int).last() == s[k as int]);
        if m < len {
            len = m;
        }
        k = k + 1;
    }
    assert(s.drop_first().subrange(0, k - 1) =~= s.drop_first());
    proof {
        lemma_shared_prefix_len(s[0], s.drop_first());
    }
    let r = string_of_range(&first, 0, len);
    assert(first@.subrange(0, len as int) =~= first@.take(len as int));
    r
}

/// Offers, for a typed input, the known paths that hold it, without regard to case.
#[derive(Clone, Debug)]
pub struct CustomAutocomplete {
    suggestions: Vec<String>,
}

impl CustomAutocomplete {
    pub closed spec fn suggestion_list(self) -> Seq<Seq<char>> {
        strings_view(self.suggestions@)
    }

    pub fn new(suggestions: Vec<String>) -> (r: Self)
        ensures
            r.suggestion_list() == strings_view(suggestions@),
    {
        Self { suggestions }
    }

    /// The suggestions that hold `input`, ignoring case, in order.
    pub fn get_suggestions(&self, input: &str) -> (r: Vec<String>)
        ensures
            strings_view(r@) == matching(self.suggestion_list(), lower_of(input@)),
    {
        let input_lower = lowercase(input);
        let mut out: Vec<String> = Vec::new();
        let mut i: usize = 0;
        while i < self.suggestions.len()
            invariant
                i <= self.suggestions.len(),
                input_lower@ == lower_of(input@),
                strings_view(out@) == matching(
                    self.suggestion_list().subrange(0, i as int),
                    input_lower@,
                ),
            decreases self.suggestions.len() - i,
        {
            let s = &self.suggestions[i];
            let s_lower = lowercase(s.as_str());
            assert(self.suggestion_list().subrange(0, i + 1).drop_last() =~= self.suggestion_list().subrange(
                0,
                i as int,
            ));
            assert(self.suggestion_list().subrange(0, i + 1).last() == s@);
            if matches_folded(input_lower.as_str(), s_lower.as_str()) {
                let ghost before = strings_view(out@);
                out.push(s.clone());
                assert(strings_view(out@) =~= before.push(s@));
            }
            i = i + 1;
        }
        assert(self.suggestion_list().subrange(0, i as int) =~= self.suggestion_list());
        out
    }

    /// What the input is completed to: the highlighted suggestion if there is one, else
    /// the longest prefix that all suggestions for the input share.
    pub fn get_completion(&self, input: &str, highlighted_suggestion: Option<String>) -> (r: String)
        ensures
            match highlighted_suggestion {
                Some(s) => r@ == s@,
                None => r@ == longest_common_prefix_of(
                    matching(self.suggestion_list(), lower_of(input@)),
                ),
            },
    {
        match highlighted_suggestion {
            Some(suggestion) => suggestion,
            None => longest_common_prefix(&self.get_suggestions(input)),
        }
    }
}

} // verus!
