//! What the cluster tool lists: names of nodes, namespaces and deployments,
//! one token `kind/name` per line, and the text it prints line by line.

use crate::order::{sort_names, sorted, strings_view};
use crate::text::{chars_of, find_char, index_of, lines_of};
use vstd::prelude::*;

verus! {

/// The name in a token `kind/name`: all that follows the first `/`. `None`
/// for a token without a `/`, and for one with nothing after it.
pub open spec fn identifier_of(token: Seq<char>) -> Option<Seq<char>> {
    let i = index_of(token, '/');
    if 0 <= i && i + 1 < token.len() {
        Some(token.subrange(i + 1, token.len() as int))
    } else {
        None
    }
}

/// The names in a list of tokens, in the order of the tokens; a token that
/// holds no name is passed over.
pub open spec fn identifiers_of(tokens: Seq<Seq<char>>) -> Seq<Seq<char>>
    decreases tokens.len(),
{
    if tokens.len() == 0 {
        Seq::empty()
    } else {
        let before = identifiers_of(tokens.drop_last());
        match identifier_of(tokens.last()) {
            Some(name) => before.push(name),
            None => before,
        }
    }
}

/// Whether no name of the list is empty.
pub open spec fn none_empty(names: Seq<Seq<char>>) -> bool {
    forall|i: int| 0 <= i < names.len() ==> (#[trigger] names[i]).len() > 0
}

/// A list of names as the extractors pass it on: in lexicographic order, and
/// without an empty name.
pub open spec fn well_formed_names(names: Seq<Seq<char>>) -> bool {
    sorted(names) && none_empty(names)
}

/// Lines put together again: each line followed by a line feed.
pub open spec fn joined(lines: Seq<Seq<char>>) -> Seq<char>
    decreases lines.len(),
{
    if lines.len() == 0 {
        Seq::empty()
    } else {
        joined(lines.drop_last()) + lines.last() + seq!['\n']
    }
}

/// The texts that each list of strings holds.
pub open spec fn lists_view(lists: Seq<Vec<String>>) -> Seq<Seq<Seq<char>>> {
    lists.map_values(|list: Vec<String>| strings_view(list@))
}

/// Every name among the identifiers of a list of tokens is not empty.
pub proof fn lemma_identifiers_none_empty(tokens: Seq<Seq<char>>)
    ensures
        none_empty(identifiers_of(tokens)),
    decreases tokens.len(),
{
    if tokens.len() > 0 {
        lemma_identifiers_none_empty(tokens.drop_last());
    }
}

/// The names of two lists of tokens put together are the names of the one
/// followed by the names of the other.
pub proof fn lemma_identifiers_of_concat(a: Seq<Seq<char>>, b: Seq<Seq<char>>)
    ensures
        identifiers_of(a + b) == identifiers_of(a) + identifiers_of(b),
    decreases b.len(),
{
    if b.len() == 0 {
        assert(a + b == a);
        assert(identifiers_of(a) + identifiers_of(b) == identifiers_of(a));
    } else {
        lemma_identifiers_of_concat(a, b.drop_last());
        assert((a + b).drop_last() == a + b.drop_last());
        assert((a + b).last() == b.last());
        let before = identifiers_of(a) + identifiers_of(b.drop_last());
        match identifier_of(b.last()) {
            Some(name) => {
                assert(before.push(name) == identifiers_of(a) + identifiers_of(
                    b.drop_last(),
                ).push(name));
            },
            None => {},
        }
    }
}

/// Two lists that hold the same tokens, each as often as the other, hold the
/// same names, each as often as the other.
pub proof fn lemma_identifiers_of_permutation(a: Seq<Seq<char>>, b: Seq<Seq<char>>)
    requires
        a.to_multiset() == b.to_multiset(),
    ensures
        identifiers_of(a).to_multiset() == identifiers_of(b).to_multiset(),
    decreases a.len(),
{
    vstd::seq_lib::to_multiset_len(a);
    vstd::seq_lib::to_multiset_len(b);
    if a.len() == 0 {
        assert(b =~= a);
    } else {
        let token = a.last();
        let a0 = a.drop_last();
        assert(a == a0.push(token));
        vstd::seq_lib::to_multiset_build(a0, token);
        vstd::seq_lib::to_multiset_contains(b, token);
        assert(b.to_multiset().count(token) > 0);
        let i = choose|i: int| 0 <= i < b.len() && b[i] == token;
        let left = b.subrange(0, i);
        let right = b.subrange(i + 1, b.len() as int);
        let b0 = left + right;
        assert(b0 == b.remove(i));
        vstd::seq_lib::to_multiset_remove(b, i);
        assert(a0.to_multiset() =~= a.to_multiset().remove(token));
        lemma_identifiers_of_permutation(a0, b0);
        // the names of `b` are those of `b0` and that of the token
        assert(b == left + seq![token] + right);
        lemma_identifiers_of_concat(left, seq![token]);
        lemma_identifiers_of_concat(left + seq![token], right);
        lemma_identifiers_of_concat(left, right);
        lemma_identifiers_of_concat(a0, seq![token]);
        assert(a == a0 + seq![token]);
        let one = identifiers_of(seq![token]);
        vstd::seq_lib::lemma_multiset_commutative(identifiers_of(left), one);
        vstd::seq_lib::lemma_multiset_commutative(identifiers_of(left) + one, identifiers_of(right));
        vstd::seq_lib::lemma_multiset_commutative(identifiers_of(left), identifiers_of(right));
        vstd::seq_lib::lemma_multiset_commutative(identifiers_of(a0), one);
        assert(identifiers_of(b).to_multiset() =~= identifiers_of(b0).to_multiset().add(
            one.to_multiset(),
        ));
    }
}

/// The sorted list of the names that the tool listed does not depend on the
/// order in which it listed them: where two lists hold the same tokens, the
/// sorted lists of their names are the same list.
pub proof fn lemma_listing_order_is_irrelevant(
    first: Seq<Seq<char>>,
    second: Seq<Seq<char>>,
    names_of_first: Seq<Seq<char>>,
    names_of_second: Seq<Seq<char>>,
)
    requires
        first.to_multiset() == second.to_multiset(),
        sorted(names_of_first),
        sorted(names_of_second),
        names_of_first.to_multiset() == identifiers_of(first).to_multiset(),
        names_of_second.to_multiset() == identifiers_of(second).to_multiset(),
    ensures
        names_of_first == names_of_second,
{
    lemma_identifiers_of_permutation(first, second);
    crate::order::lemma_sorted_is_unique(names_of_first, names_of_second);
}

/// Whether a line comes out of its text again as it went in: it holds no line
/// feed and does not end in a carriage return.
pub open spec fn plain_line(line: Seq<char>) -> bool {
    !line.contains('\n') && (line.len() > 0 ==> line.last() != '\r')
}

/// Two lists of lines put together join to the text of the one followed by
/// the text of the other.
pub proof fn lemma_joined_concat(a: Seq<Seq<char>>, b: Seq<Seq<char>>)
    ensures
        joined(a + b) == joined(a) + joined(b),
    decreases b.len(),
{
    if b.len() == 0 {
        assert(a + b == a);
        assert(joined(a) + joined(b) == joined(a));
    } else {
        lemma_joined_concat(a, b.drop_last());
        assert((a + b).drop_last() == a + b.drop_last());
        assert((a + b).last() == b.last());
        assert(joined(a) + joined(b.drop_last()) + b.last() + seq!['\n'] == joined(a) + (joined(
            b.drop_last(),
        ) + b.last() + seq!['\n']));
    }
}

/// The lines of joined text are the lines that were joined, where each of
/// them is a plain line.
pub proof fn lemma_lines_of_joined(lines: Seq<Seq<char>>)
    requires
        forall|i: int| 0 <= i < lines.len() ==> plain_line(#[trigger] lines[i]),
    ensures
        lines_of(joined(lines)) == lines,
    decreases lines.len(),
{
    if lines.len() == 0 {
        assert(lines_of(joined(lines)) =~= lines);
    } else {
        let first = lines[0];
        let rest = lines.drop_first();
        assert(lines == seq![first] + rest);
        lemma_joined_concat(seq![first], rest);
        assert(joined(seq![first]) == first + seq!['\n']) by {
            let one = seq![first];
            assert(one.drop_last() =~= Seq::<Seq<char>>::empty());
            assert(one.last() == first);
            assert(joined(one.drop_last()) == Seq::<char>::empty());
            assert(Seq::<char>::empty() + first + seq!['\n'] =~= first + seq!['\n']);
        }
        let text = joined(lines);
        let at = first.len() as int;
        assert(text == first + seq!['\n'] + joined(rest));
        assert(plain_line(first));
        assert forall|j: int| 0 <= j < at implies text[j] != '\n' by {
            assert(text[j] == first[j]);
            assert(first.contains(first[j]));
        }
        assert(text[at] == '\n');
        crate::text::lemma_index_of_is(text, '\n', at);
        assert(text.subrange(0, at) == first);
        assert(text.subrange(at + 1, text.len() as int) == joined(rest));
        assert forall|i: int| 0 <= i < rest.len() implies plain_line(#[trigger] rest[i]) by {
            assert(rest[i] == lines[i + 1]);
        }
        lemma_lines_of_joined(rest);
        assert(lines_of(text) == seq![first] + rest);
    }
}

/// Reads the name out of a token `kind/name`.
pub fn identifier(token: &str) -> (name: Option<String>)
    ensures
        match name {
            Some(n) => identifier_of(token@) == Some(n@),
            None => identifier_of(token@) is None,
        },
{
    let chars = chars_of(token);
    let n: usize = chars.len();
    assert(chars@.subrange(0, n as int) == token@);
    let at: usize = find_char(&chars, 0, n, '/');
    if at < n && at + 1 < n {
        Some(String::from_str(token.substring_char(at + 1, n)))
    } else {
        None
    }
}

/// The names in the tokens that the tool listed, in the order of the
/// tokens.
pub fn identifiers(tokens: &Vec<String>) -> (names: Vec<String>)
    ensures
        strings_view(names@) == identifiers_of(strings_view(tokens@)),
{
    let mut names: Vec<String> = Vec::new();
    let ghost all = strings_view(tokens@);
    proof {
        assert(strings_view(names@) =~= Seq::<Seq<char>>::empty());
        assert(all.take(0) =~= Seq::<Seq<char>>::empty());
    }
    for k in 0..tokens.len()
        invariant
            all == strings_view(tokens@),
            strings_view(names@) == identifiers_of(all.take(k as int)),
    {
        let ghost before = strings_view(names@);
        proof {
            assert(all.take(k + 1).drop_last() == all.take(k as int));
            assert(all.take(k + 1).last() == tokens@[k as int]@);
        }
        match identifier(tokens[k].as_str()) {
            Some(name) => {
                names.push(name);
                assert(strings_view(names@) =~= before.push(name@));
            },
            None => {},
        }
    }
    proof {
        assert(all.take(tokens.len() as int) == all);
    }
    names
}

/// The names in the tokens that the tool listed, in lexicographic order.
pub fn sorted_identifiers(tokens: &Vec<String>) -> (names: Vec<String>)
    ensures
        well_formed_names(strings_view(names@)),
        strings_view(names@).to_multiset() == identifiers_of(strings_view(tokens@)).to_multiset(),
{
    let names = sort_names(identifiers(tokens));
    proof {
        let got = strings_view(names@);
        let want = identifiers_of(strings_view(tokens@));
        lemma_identifiers_none_empty(strings_view(tokens@));
        assert forall|i: int| 0 <= i < got.len() implies (#[trigger] got[i]).len() > 0 by {
            vstd::seq_lib::to_multiset_contains(got, got[i]);
            vstd::seq_lib::to_multiset_contains(want, got[i]);
            assert(got.contains(got[i]));
            let j = choose|j: int| 0 <= j < want.len() && want[j] == got[i];
            assert(want[j].len() > 0);
        }
    }
    names
}

/// Puts the lines that the tool printed together again, a line feed after
/// each.
pub fn join_lines(lines: &Vec<String>) -> (text: String)
    ensures
        text@ == joined(strings_view(lines@)),
{
    let mut text = String::new();
    let ghost all = strings_view(lines@);
    proof {
        assert(all.take(0) =~= Seq::<Seq<char>>::empty());
        reveal_strlit("\n");
    }
    for k in 0..lines.len()
        invariant
            all == strings_view(lines@),
            text@ == joined(all.take(k as int)),
            "\n"@ == seq!['\n'],
    {
        proof {
            assert(all.take(k + 1).drop_last() == all.take(k as int));
            assert(all.take(k + 1).last() == lines@[k as int]@);
        }
        text.append(lines[k].as_str());
        text.append("\n");
    }
    proof {
        assert(all.take(lines.len() as int) == all);
    }
    text
}

} // verus!
