//! Regular expressions: the matching is done by the `regex` crate, and this
//! module holds what it reports as plain text.

use vstd::prelude::*;

verus! {

/// What one match of a regular expression captured: for each group of the
/// expression the text it matched, or `None` for a group that took no part
/// in the match. Group 0 is the whole match.
pub struct Captures {
    pub groups: Vec<Option<String>>,
}

/// The model of the text of one group.
pub open spec fn group_view(g: Option<String>) -> Option<Seq<char>> {
    match g {
        Some(s) => Some(s@),
        None => None,
    }
}

impl View for Captures {
    type V = Seq<Option<Seq<char>>>;

    open spec fn view(&self) -> Seq<Option<Seq<char>>> {
        self.groups@.map_values(|g: Option<String>| group_view(g))
    }
}

/// The model of the outcome of a search: the groups, or `None` for no match.
pub open spec fn captures_view(c: Option<Captures>) -> Option<Seq<Option<Seq<char>>>> {
    match c {
        Some(caps) => Some(caps@),
        None => None,
    }
}

/// The text of group `i` in the outcome of a search: `None` where nothing
/// matched, where the expression has no such group, and where the group took
/// no part in the match.
pub open spec fn group(found: Option<Seq<Option<Seq<char>>>>, i: int) -> Option<Seq<char>> {
    match found {
        Some(groups) => if 0 <= i < groups.len() {
            groups[i]
        } else {
            None
        },
        None => None,
    }
}

/// What the regular expression `pattern` captures at its first match in
/// `haystack`: `None` where it matches nowhere, and where `pattern` is no
/// regular expression that the engine accepts.
pub uninterp spec fn regex_captures(pattern: Seq<char>, haystack: Seq<char>) -> Option<
    Seq<Option<Seq<char>>>,
>;

/// Compiles `pattern` with `regex::Regex::new` and searches `haystack` with
/// `regex::Regex::captures`. Believed, not proved: the outcome depends on the
/// two texts alone, so it is the value that `regex_captures` names. Nothing
/// else is claimed of it.
#[verifier::external_body]
pub(crate) fn search(pattern: &str, haystack: &str) -> (found: Option<Captures>)
    ensures
        captures_view(found) == regex_captures(pattern@, haystack@),
{
    match regex::Regex::new(pattern) {
        Ok(re) => re.captures(haystack).map(
            |caps| Captures {
                groups: caps.iter().map(|m| m.map(|g| String::from(g.as_str()))).collect(),
            },
        ),
        Err(_) => None,
    }
}

impl Captures {
    /// The text of group `i`.
    pub fn get(&self, i: usize) -> (text: Option<&str>)
        ensures
            match text {
                Some(t) => group(Some(self@), i as int) == Some(t@),
                None => group(Some(self@), i as int) is None,
            },
    {
        if i < self.groups.len() {
            match &self.groups[i] {
                Some(s) => Some(s.as_str()),
                None => None,
            }
        } else {
            None
        }
    }
}

} // verus!
