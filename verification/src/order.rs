//! The order in which the listing presents logical paths: deeper paths
//! first, paths of equal depth in lexicographic order.

use crate::text::{compare_text, count_char, count_of, lex_le, texts, TextOrder};
use crate::text::{lemma_lex_le_antisymmetric, lemma_lex_le_total, lemma_lex_le_transitive};
use vstd::multiset::Multiset;
use vstd::prelude::*;
use vstd::relations::total_ordering;
use vstd::seq_lib::{to_multiset_build, to_multiset_insert, to_multiset_remove};

verus! {

/// Number of path separators in `path`.
pub open spec fn depth(path: Seq<char>) -> nat {
    count_char(path, '/')
}

/// `a` may stand before `b` in the listing.
pub open spec fn listed_before(a: Seq<char>, b: Seq<char>) -> bool {
    depth(a) > depth(b) || (depth(a) == depth(b) && lex_le(a, b))
}

/// Every path of `paths` may stand before all that follow it.
pub open spec fn in_listing_order(paths: Seq<Seq<char>>) -> bool {
    forall|i: int, j: int| 0 <= i < j < paths.len() ==> listed_before(paths[i], paths[j])
}

/// `paths` brought into listing order.
pub open spec fn listing_order(paths: Seq<Seq<char>>) -> Seq<Seq<char>> {
    paths.sort_by(|a: Seq<char>, b: Seq<char>| listed_before(a, b))
}

/// Of two paths one may stand before the other.
pub proof fn lemma_listed_before_total(a: Seq<char>, b: Seq<char>)
    ensures
        listed_before(a, b) || listed_before(b, a),
{
    lemma_lex_le_total(a, b);
}

/// What may stand before a path may stand before all that the path may
/// stand before.
pub proof fn lemma_listed_before_transitive(a: Seq<char>, b: Seq<char>, c: Seq<char>)
    requires
        listed_before(a, b),
        listed_before(b, c),
    ensures
        listed_before(a, c),
{
    if depth(a) == depth(b) && depth(b) == depth(c) {
        lemma_lex_le_transitive(a, b, c);
    }
}

/// Two paths that may each stand before the other are the same.
pub proof fn lemma_listed_before_antisymmetric(a: Seq<char>, b: Seq<char>)
    requires
        listed_before(a, b),
        listed_before(b, a),
    ensures
        a == b,
{
    lemma_lex_le_antisymmetric(a, b);
}

/// The listing order is determined by the paths alone: two sequences that
/// hold the same paths equally often and are both in listing order are equal.
pub proof fn lemma_listing_order_unique(a: Seq<Seq<char>>, b: Seq<Seq<char>>)
    requires
        a.to_multiset() == b.to_multiset(),
        in_listing_order(a),
        in_listing_order(b),
    ensures
        a == b,
    decreases a.len(),
{
    a.to_multiset_ensures();
    b.to_multiset_ensures();
    if a.len() > 0 {
        assert(b.to_multiset().count(a[0]) > 0);
        assert(a.to_multiset().count(b[0]) > 0);
        let j = choose|j: int| 0 <= j < b.len() && b[j] == a[0];
        let i = choose|i: int| 0 <= i < a.len() && a[i] == b[0];
        if j != 0 && i != 0 {
            lemma_listed_before_antisymmetric(a[0], b[0]);
        }
        to_multiset_remove(a, 0);
        to_multiset_remove(b, 0);
        lemma_listing_order_unique(a.drop_first(), b.drop_first());
        assert(b =~= seq![b[0]] + b.drop_first());
    }
}

/// `listing_order` rearranges its argument, and the result is in listing
/// order.
pub proof fn lemma_listing_order(paths: Seq<Seq<char>>)
    ensures
        in_listing_order(listing_order(paths)),
        listing_order(paths).to_multiset() == paths.to_multiset(),
        listing_order(paths).len() == paths.len(),
{
    let leq = |a: Seq<char>, b: Seq<char>| listed_before(a, b);
    assert(total_ordering(leq)) by {
        assert forall|x: Seq<char>| #[trigger] leq(x, x) by {
            crate::text::lemma_lex_le_reflexive(x);
        }
        assert forall|x: Seq<char>, y: Seq<char>| #[trigger] leq(x, y) && #[trigger] leq(
            y,
            x,
        ) implies x == y by {
            lemma_listed_before_antisymmetric(x, y);
        }
        assert forall|x: Seq<char>, y: Seq<char>, z: Seq<char>| #[trigger] leq(x, y)
            && #[trigger] leq(y, z) implies leq(x, z) by {
            lemma_listed_before_transitive(x, y, z);
        }
        assert forall|x: Seq<char>, y: Seq<char>| #[trigger] leq(x, y) || #[trigger] leq(y, x) by {
            lemma_listed_before_total(x, y);
        }
    }
    paths.lemma_sort_by_ensures(leq);
    let sorted = listing_order(paths);
    assert(in_listing_order(sorted)) by {
        assert forall|i: int, j: int| 0 <= i < j < sorted.len() implies listed_before(
            sorted[i],
            sorted[j],
        ) by {
            assert(leq(sorted[i], sorted[j]));
        }
    }
    sorted.to_multiset_ensures();
    paths.to_multiset_ensures();
}

/// Whether `a` may stand before `b` in the listing.
pub fn precedes(a: &str, b: &str) -> (r: bool)
    ensures
        r == listed_before(a@, b@),
{
    let depth_a = count_of(a, '/');
    let depth_b = count_of(b, '/');
    if depth_a != depth_b {
        depth_a > depth_b
    } else {
        match compare_text(a, b) {
            TextOrder::After => false,
            _ => {
                proof {
                    crate::text::lemma_lex_le_reflexive(a@);
                    if lex_le(a@, b@) && lex_le(b@, a@) {
                        lemma_lex_le_antisymmetric(a@, b@);
                    }
                }
                true
            },
        }
    }
}

/// Brings `files` into listing order.
pub fn sort_files(files: &mut Vec<String>)
    ensures
        texts(final(files)@) == listing_order(texts(old(files)@)),
        in_listing_order(texts(final(files)@)),
        texts(final(files)@).to_multiset() == texts(old(files)@).to_multiset(),
{
    let mut sorted: Vec<String> = Vec::new();
    proof {
        assert(texts(sorted@).to_multiset() =~= Multiset::<Seq<char>>::empty()) by {
            texts(sorted@).to_multiset_ensures();
        }
    }
    while files.len() > 0
        invariant
            in_listing_order(texts(sorted@)),
            texts(sorted@).to_multiset().add(texts(files@).to_multiset()) == texts(
                old(files)@,
            ).to_multiset(),
        decreases files.len(),
    {
        let ghost before = files@;
        let ghost placed = sorted@;
        let item = files.pop().unwrap();
        let mut pos: usize = 0;
        while pos < sorted.len() && precedes(sorted[pos].as_str(), item.as_str())
            invariant
                pos <= sorted.len(),
                sorted@ == placed,
                forall|k: int| 0 <= k < pos ==> listed_before(#[trigger] sorted@[k]@, item@),
            decreases sorted.len() - pos,
        {
            pos = pos + 1;
        }
        sorted.insert(pos, item);
        proof {
            let done = texts(placed);
            let now = texts(sorted@);
            assert(now =~= done.insert(pos as int, item@));
            assert(texts(before) =~= texts(files@).push(item@));
            to_multiset_insert(done, pos as int, item@);
            to_multiset_build(texts(files@), item@);
            assert forall|i: int, j: int| 0 <= i < j < now.len() implies listed_before(
                now[i],
                now[j],
            ) by {
                if i == pos {
                    lemma_listed_before_total(done[pos as int], item@);
                    if j - 1 > pos {
                        lemma_listed_before_transitive(item@, done[pos as int], done[j - 1]);
                    }
                }
            }
        }
    }
    proof {
        assert(texts(files@).to_multiset() =~= Multiset::<Seq<char>>::empty()) by {
            texts(files@).to_multiset_ensures();
        }
        assert(texts(sorted@).to_multiset().add(Multiset::<Seq<char>>::empty()) =~= texts(
            sorted@,
        ).to_multiset());
        lemma_listing_order(texts(old(files)@));
        lemma_listing_order_unique(texts(sorted@), listing_order(texts(old(files)@)));
    }
    *files = sorted;
}

} // verus!
