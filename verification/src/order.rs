//! The lexicographic order of text, and lists of names kept in that order.

use crate::text::chars_of;
use vstd::prelude::*;

verus! {

/// Whether `a` stands before `b`, or equals it, in the lexicographic order by
/// code point: the order of the first character in which they differ, and a
/// prefix before what it is a prefix of.
pub open spec fn precedes(a: Seq<char>, b: Seq<char>) -> bool
    decreases a.len(),
{
    if a.len() == 0 {
        true
    } else if b.len() == 0 {
        false
    } else if a[0] != b[0] {
        (a[0] as u32) < (b[0] as u32)
    } else {
        precedes(a.drop_first(), b.drop_first())
    }
}

/// Whether each name of the list precedes every later one.
pub open spec fn sorted(names: Seq<Seq<char>>) -> bool {
    forall|i: int, j: int| 0 <= i < j < names.len() ==> precedes(names[i], names[j])
}

/// The texts that a sequence of strings holds.
pub open spec fn strings_view(v: Seq<String>) -> Seq<Seq<char>> {
    v.map_values(|s: String| s@)
}

/// Two characters that differ have code points that differ.
pub proof fn lemma_code_points_differ(a: char, b: char)
    ensures
        a != b ==> a as u32 != b as u32,
{
}

/// Of two texts, one precedes the other.
pub proof fn lemma_precedes_total(a: Seq<char>, b: Seq<char>)
    ensures
        precedes(a, b) || precedes(b, a),
    decreases a.len(),
{
    if a.len() > 0 && b.len() > 0 {
        if a[0] == b[0] {
            lemma_precedes_total(a.drop_first(), b.drop_first());
        } else {
            lemma_code_points_differ(a[0], b[0]);
        }
    }
}

/// Two texts that precede each other are equal.
pub proof fn lemma_precedes_antisymmetric(a: Seq<char>, b: Seq<char>)
    requires
        precedes(a, b),
        precedes(b, a),
    ensures
        a == b,
    decreases a.len(),
{
    if a.len() == 0 || b.len() == 0 {
        assert(a.len() == 0 && b.len() == 0);
        assert(a =~= b);
    } else {
        assert(a[0] == b[0]);
        let x = a.drop_first();
        let y = b.drop_first();
        lemma_precedes_antisymmetric(x, y);
        assert(a =~= seq![a[0]] + x);
        assert(b =~= seq![b[0]] + y);
    }
}

/// What precedes a text precedes all that the text precedes.
pub proof fn lemma_precedes_transitive(a: Seq<char>, b: Seq<char>, c: Seq<char>)
    requires
        precedes(a, b),
        precedes(b, c),
    ensures
        precedes(a, c),
    decreases a.len(),
{
    if a.len() > 0 && b.len() > 0 && c.len() > 0 && a[0] == b[0] && b[0] == c[0] {
        lemma_precedes_transitive(a.drop_first(), b.drop_first(), c.drop_first());
    }
}

/// Two sorted lists that hold the same names, each as often as the other, are
/// the same list: sorting has one outcome.
pub proof fn lemma_sorted_is_unique(x: Seq<Seq<char>>, y: Seq<Seq<char>>)
    requires
        sorted(x),
        sorted(y),
        x.to_multiset() == y.to_multiset(),
    ensures
        x == y,
    decreases x.len(),
{
    broadcast use vstd::seq_lib::group_to_multiset_ensures;

    assert(x.len() == y.len()) by {
        x.to_multiset_ensures();
        y.to_multiset_ensures();
    }
    if x.len() > 0 {
        let a = x.last();
        let b = y.last();
        // the last name of each list occurs in the other, so each precedes the other
        assert(x.to_multiset().count(a) > 0) by {
            x.to_multiset_ensures();
            assert(x.contains(a));
        }
        assert(y.to_multiset().count(b) > 0) by {
            y.to_multiset_ensures();
            assert(y.contains(b));
        }
        assert(y.contains(a)) by {
            y.to_multiset_ensures();
        }
        assert(x.contains(b)) by {
            x.to_multiset_ensures();
        }
        let i = choose|i: int| 0 <= i < y.len() && y[i] == a;
        let j = choose|j: int| 0 <= j < x.len() && x[j] == b;
        assert(precedes(a, b)) by {
            if i < y.len() - 1 {
                assert(precedes(y[i], y[y.len() - 1]));
            }
            lemma_precedes_reflexive(a);
        }
        assert(precedes(b, a)) by {
            if j < x.len() - 1 {
                assert(precedes(x[j], x[x.len() - 1]));
            }
            lemma_precedes_reflexive(b);
        }
        lemma_precedes_antisymmetric(a, b);
        let x0 = x.drop_last();
        let y0 = y.drop_last();
        assert(x0.to_multiset() == y0.to_multiset()) by {
            assert(x == x0.push(a));
            assert(y == y0.push(b));
            vstd::seq_lib::to_multiset_build(x0, a);
            vstd::seq_lib::to_multiset_build(y0, b);
            assert(x0.to_multiset() =~= x.to_multiset().remove(a));
            assert(y0.to_multiset() =~= y.to_multiset().remove(b));
        }
        assert(sorted(x0)) by {
            assert forall|p: int, q: int| 0 <= p < q < x0.len() implies precedes(x0[p], x0[q]) by {
                assert(precedes(x[p], x[q]));
            }
        }
        assert(sorted(y0)) by {
            assert forall|p: int, q: int| 0 <= p < q < y0.len() implies precedes(y0[p], y0[q]) by {
                assert(precedes(y[p], y[q]));
            }
        }
        lemma_sorted_is_unique(x0, y0);
        assert(x == x0.push(a));
        assert(y == y0.push(b));
    } else {
        assert(x =~= y);
    }
}

/// Every text precedes itself.
pub proof fn lemma_precedes_reflexive(a: Seq<char>)
    ensures
        precedes(a, a),
    decreases a.len(),
{
    if a.len() > 0 {
        lemma_precedes_reflexive(a.drop_first());
    }
}

/// Decides the lexicographic order of two texts.
pub fn chars_precede(a: &Vec<char>, b: &Vec<char>) -> (r: bool)
    ensures
        r == precedes(a@, b@),
{
    let mut i: usize = 0;
    assert(a@.skip(0) == a@ && b@.skip(0) == b@);
    while i < a.len() && i < b.len() && a[i] == b[i]
        invariant
            i <= a.len(),
            i <= b.len(),
            precedes(a@, b@) == precedes(a@.skip(i as int), b@.skip(i as int)),
        decreases a.len() - i,
    {
        proof {
            assert(a@.skip(i as int).drop_first() == a@.skip(i + 1));
            assert(b@.skip(i as int).drop_first() == b@.skip(i + 1));
        }
        i += 1;
    }
    if i == a.len() {
        true
    } else if i == b.len() {
        false
    } else {
        (a[i] as u32) < (b[i] as u32)
    }
}

/// Puts `name` into a sorted list at the place that keeps the list sorted.
pub fn insert_sorted(names: &mut Vec<String>, name: String)
    requires
        sorted(strings_view(old(names)@)),
    ensures
        sorted(strings_view(final(names)@)),
        strings_view(final(names)@).to_multiset() == strings_view(old(names)@).to_multiset().insert(
            name@,
        ),
        final(names)@.len() == old(names)@.len() + 1,
{
    let key = chars_of(name.as_str());
    let ghost before = strings_view(names@);
    let mut at: usize = 0;
    let mut found: bool = false;
    while at < names.len() && !found
        invariant
            at <= names.len(),
            names@ == old(names)@,
            before == strings_view(names@),
            key@ == name@,
            forall|j: int| 0 <= j < at ==> precedes(#[trigger] before[j], key@),
            found ==> at < names.len() && !precedes(before[at as int], key@),
        decreases names.len() - at + (if found { 0int } else { 1int }),
    {
        let other = chars_of(names[at].as_str());
        if chars_precede(&other, &key) {
            at += 1;
        } else {
            found = true;
        }
    }
    names.insert(at, name);
    proof {
        let after = strings_view(names@);
        assert(after =~= before.insert(at as int, name@));
        vstd::seq_lib::to_multiset_insert(before, at as int, name@);
        assert forall|i: int, j: int| 0 <= i < j < after.len() implies precedes(
            after[i],
            after[j],
        ) by {
            if j < at {
                assert(precedes(before[i], before[j]));
            } else if j == at {
                assert(precedes(before[i], key@));
            } else {
                // `at` is within the old list and holds a name that `name` precedes
                lemma_precedes_total(before[at as int], key@);
                if i < at {
                    assert(precedes(before[i], before[j - 1]));
                } else if i == at {
                    if j - 1 > at {
                        assert(precedes(before[at as int], before[j - 1]));
                    } else {
                        lemma_precedes_reflexive(before[at as int]);
                    }
                    lemma_precedes_transitive(key@, before[at as int], before[j - 1]);
                } else {
                    assert(precedes(before[i - 1], before[j - 1]));
                }
            }
        }
    }
}

/// The names of `names` in lexicographic order.
pub fn sort_names(names: Vec<String>) -> (out: Vec<String>)
    ensures
        sorted(strings_view(out@)),
        strings_view(out@).to_multiset() == strings_view(names@).to_multiset(),
        out@.len() == names@.len(),
{
    let mut rest = names;
    let mut out: Vec<String> = Vec::new();
    let ghost all = strings_view(names@);
    proof {
        assert(strings_view(out@) =~= Seq::<Seq<char>>::empty());
        assert(Seq::<Seq<char>>::empty().to_multiset() =~= vstd::multiset::Multiset::empty()) by {
            broadcast use vstd::seq_lib::group_to_multiset_ensures;

        }
    }
    loop
        invariant
            sorted(strings_view(out@)),
            all == strings_view(names@),
            strings_view(out@).to_multiset().add(strings_view(rest@).to_multiset())
                == all.to_multiset(),
            out@.len() + rest@.len() == names@.len(),
        ensures
            rest@.len() == 0,
        decreases rest@.len(),
    {
        let ghost held = strings_view(rest@);
        let ghost done = strings_view(out@);
        match rest.pop() {
            Some(name) => {
                proof {
                    assert(held =~= strings_view(rest@).push(name@));
                    vstd::seq_lib::to_multiset_build(strings_view(rest@), name@);
                }
                insert_sorted(&mut out, name);
                proof {
                    assert(strings_view(out@).to_multiset().add(
                        strings_view(rest@).to_multiset(),
                    ) =~= done.to_multiset().add(held.to_multiset()));
                }
            },
            None => {
                break;
            },
        }
    }
    proof {
        assert(strings_view(rest@) =~= Seq::<Seq<char>>::empty());
        broadcast use vstd::seq_lib::group_to_multiset_ensures;

        assert(strings_view(rest@).to_multiset() =~= vstd::multiset::Multiset::empty());
        assert(strings_view(out@).to_multiset() =~= all.to_multiset());
    }
    out
}

} // verus!
