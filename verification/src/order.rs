//! The order of texts: by their first different character, and a text before
//! whatever it begins.

use vstd::prelude::*;
use crate::text::chars_of;

verus! {

/// `a` comes before `b`.
pub open spec fn before(a: Seq<char>, b: Seq<char>) -> bool
    decreases a.len(),
{
    if b.len() == 0 {
        false
    } else if a.len() == 0 {
        true
    } else if a[0] != b[0] {
        a[0] < b[0]
    } else {
        before(a.drop_first(), b.drop_first())
    }
}

/// Each text comes before all that follow it; so none stands twice.
pub open spec fn ascending(list: Seq<Seq<char>>) -> bool {
    forall|i: int, j: int|
        #![trigger list[i], list[j]]
        0 <= i < j < list.len() ==> before(list[i], list[j])
}

/// No text comes before itself.
pub proof fn lemma_irreflexive(a: Seq<char>)
    ensures
        !before(a, a),
    decreases a.len(),
{
    if a.len() > 0 {
        lemma_irreflexive(a.drop_first());
    }
}

/// Of two different texts one comes before the other.
pub proof fn lemma_total(a: Seq<char>, b: Seq<char>)
    ensures
        before(a, b) || before(b, a) || a == b,
    decreases a.len(),
{
    if a.len() > 0 && b.len() > 0 && a[0] == b[0] {
        lemma_total(a.drop_first(), b.drop_first());
        if a.drop_first() == b.drop_first() {
            assert(a =~= seq![a[0]] + a.drop_first());
            assert(b =~= seq![b[0]] + b.drop_first());
        }
    } else if a.len() == 0 && b.len() == 0 {
        assert(a =~= b);
    }
}

/// What comes before a text comes before all that follow it.
pub proof fn lemma_transitive(a: Seq<char>, b: Seq<char>, c: Seq<char>)
    requires
        before(a, b),
        before(b, c),
    ensures
        before(a, c),
    decreases a.len(),
{
    if a.len() > 0 && a[0] == b[0] && b[0] == c[0] {
        lemma_transitive(a.drop_first(), b.drop_first(), c.drop_first());
    }
}

/// An ascending list is known by what it holds.
pub proof fn lemma_ascending_unique(one: Seq<Seq<char>>, other: Seq<Seq<char>>)
    requires
        ascending(one),
        ascending(other),
        forall|text: Seq<char>| #[trigger] one.contains(text) <==> other.contains(text),
    ensures
        one == other,
    decreases one.len(),
{
    if one.len() == 0 {
        if other.len() > 0 {
            assert(other.contains(other[0]));
            assert(one.contains(other[0]));
        }
        assert(one =~= other);
    } else {
        assert(one.contains(one[0]));
        let last = one.last();
        assert(one.contains(one[one.len() - 1]));
        assert(other.contains(last));
        let at = choose|at: int| 0 <= at < other.len() && other[at] == last;
        if at < other.len() - 1 {
            let end = other.last();
            assert(other.contains(other[other.len() - 1]));
            assert(one.contains(end));
            let there = choose|there: int| 0 <= there < one.len() && one[there] == end;
            assert(before(other[at], other[other.len() - 1]));
            if there < one.len() - 1 {
                assert(before(one[there], one[one.len() - 1]));
                lemma_transitive(last, end, last);
            }
            lemma_irreflexive(last);
        }
        assert(other.last() == last);
        let first = one.drop_last();
        let second = other.drop_last();
        assert forall|text: Seq<char>| #[trigger] first.contains(text) <==> second.contains(
            text,
        ) by {
            if first.contains(text) {
                let i = choose|i: int| 0 <= i < first.len() && first[i] == text;
                assert(before(one[i], one[one.len() - 1]));
                lemma_irreflexive(last);
                assert(one.contains(one[i]));
                let j = choose|j: int| 0 <= j < other.len() && other[j] == text;
                assert(second[j] == text);
            }
            if second.contains(text) {
                let i = choose|i: int| 0 <= i < second.len() && second[i] == text;
                assert(before(other[i], other[other.len() - 1]));
                lemma_irreflexive(last);
                assert(other.contains(other[i]));
                assert(one.contains(text));
                let j = choose|j: int| 0 <= j < one.len() && one[j] == text;
                assert(first[j] == text);
            }
        }
        assert(ascending(first)) by {
            assert forall|i: int, j: int|
                #![trigger first[i], first[j]]
                0 <= i < j < first.len() implies before(first[i], first[j]) by {
                assert(before(one[i], one[j]));
            }
        }
        assert(ascending(second)) by {
            assert forall|i: int, j: int|
                #![trigger second[i], second[j]]
                0 <= i < j < second.len() implies before(second[i], second[j]) by {
                assert(before(other[i], other[j]));
            }
        }
        lemma_ascending_unique(first, second);
        assert(one =~= first.push(last));
        assert(other =~= second.push(last));
    }
}

/// Whether `a` comes before `b`.
pub fn is_before(a: &str, b: &str) -> (r: bool)
    ensures
        r == before(a@, b@),
{
    let first = chars_of(a);
    let second = chars_of(b);
    let mut i: usize = 0;
    assert(a@.skip(0) =~= a@);
    assert(b@.skip(0) =~= b@);
    while i < first.len() && i < second.len() && first[i] == second[i]
        invariant
            first@ == a@,
            second@ == b@,
            i <= first.len(),
            i <= second.len(),
            before(a@.skip(i as int), b@.skip(i as int)) == before(a@, b@),
        decreases first.len() - i,
    {
        assert(a@.skip(i as int).drop_first() =~= a@.skip(i + 1));
        assert(b@.skip(i as int).drop_first() =~= b@.skip(i + 1));
        i = i + 1;
    }
    if i >= second.len() {
        false
    } else if i >= first.len() {
        true
    } else {
        first[i] < second[i]
    }
}

} // verus!
