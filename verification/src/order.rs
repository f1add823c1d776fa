//! Sorting texts.
use crate::text;
use vstd::prelude::*;

verus! {

/// Whether no text of the list comes before one that stands ahead of it.
pub open spec fn ordered(list: Seq<Seq<char>>) -> bool {
    forall|i: int, j: int|
        0 <= i < j < list.len() ==> !text::less(#[trigger] list[j], #[trigger] list[i])
}

/// Whether no two places of the list hold the same text.
pub open spec fn distinct(list: Seq<Seq<char>>) -> bool {
    forall|i: int, j: int| 0 <= i < j < list.len() ==> #[trigger] list[i] != #[trigger] list[j]
}

proof fn lemma_same_code(a: char, b: char)
    requires
        a as u32 == b as u32,
    ensures
        a == b,
{
}

/// Texts that are not ordered either way are the same.
pub proof fn lemma_less_total(a: Seq<char>, b: Seq<char>)
    ensures
        text::less(a, b) || text::less(b, a) || a == b,
        !(text::less(a, b) && text::less(b, a)),
    decreases a.len(),
{
    if a.len() > 0 && b.len() > 0 {
        lemma_less_total(a.skip(1), b.skip(1));
        if a[0] as u32 == b[0] as u32 && a.skip(1) == b.skip(1) {
            lemma_same_code(a[0], b[0]);
            assert(a =~= seq![a[0]] + a.skip(1));
            assert(b =~= seq![b[0]] + b.skip(1));
        }
    } else if a.len() == 0 && b.len() == 0 {
        assert(a =~= b);
    }
}

pub proof fn lemma_less_transitive(a: Seq<char>, b: Seq<char>, c: Seq<char>)
    requires
        text::less(a, b),
        text::less(b, c),
    ensures
        text::less(a, c),
    decreases a.len(),
{
    if a.len() > 0 && a[0] as u32 == b[0] as u32 && b[0] as u32 == c[0] as u32 {
        lemma_less_transitive(a.skip(1), b.skip(1), c.skip(1));
    }
}

/// Two steps along the order that never go back are one such step.
pub proof fn lemma_not_less_transitive(a: Seq<char>, b: Seq<char>, c: Seq<char>)
    requires
        !text::less(b, a),
        !text::less(c, b),
    ensures
        !text::less(c, a),
{
    lemma_less_total(a, b);
    lemma_less_total(b, c);
    lemma_less_total(a, c);
    if text::less(a, b) && text::less(b, c) {
        lemma_less_transitive(a, b, c);
    }
}

/// An ordered list is the only ordered arrangement of what it holds.
pub proof fn lemma_ordered_unique(a: Seq<Seq<char>>, b: Seq<Seq<char>>)
    requires
        ordered(a),
        ordered(b),
        a.to_multiset() == b.to_multiset(),
    ensures
        a == b,
    decreases a.len(),
{
    broadcast use vstd::seq_lib::group_to_multiset_ensures;

    assert(a.len() == a.to_multiset().len());
    assert(b.len() == b.to_multiset().len());
    if a.len() == 0 {
        assert(a =~= b);
    } else {
        let x = a.last();
        let y = b.last();
        assert(a.to_multiset().contains(x));
        assert(b.to_multiset().contains(y));
        assert(b.contains(x));
        assert(a.contains(y));
        let i = choose|i: int| 0 <= i < b.len() && b[i] == x;
        let j = choose|j: int| 0 <= j < a.len() && a[j] == y;
        lemma_less_total(x, y);
        assert(x == y);
        assert(a =~= a.drop_last().push(x));
        assert(b =~= b.drop_last().push(x));
        assert(a.drop_last().to_multiset() =~= a.to_multiset().remove(x));
        assert(b.drop_last().to_multiset() =~= b.to_multiset().remove(x));
        lemma_ordered_unique(a.drop_last(), b.drop_last());
    }
}

/// The position in the ordered `list` before which everything is no greater than `s`, and from
/// which on everything is greater.
fn place_for(list: &Vec<String>, s: &str) -> (r: usize)
    requires
        ordered(text::views(list@)),
    ensures
        r <= list@.len(),
        forall|i: int| 0 <= i < r ==> !text::less(s@, #[trigger] list@[i]@),
        forall|i: int| r <= i < list@.len() ==> text::less(s@, #[trigger] list@[i]@),
{
    let mut n: usize = list.len();
    while n > 0 && text::is_less(s, list[n - 1].as_str())
        invariant
            n <= list@.len(),
            forall|i: int| n <= i < list@.len() ==> text::less(s@, #[trigger] list@[i]@),
        decreases n,
    {
        n = n - 1;
    }
    proof {
        let v = text::views(list@);
        assert forall|i: int| 0 <= i < n implies !text::less(s@, #[trigger] list@[i]@) by {
            if i < n - 1 {
                assert(!text::less(v[n - 1], v[i]));
                lemma_not_less_transitive(v[i], v[n - 1], s@);
            }
        }
    }
    n
}

/// The texts of `list` in order.
pub fn sorted(list: &Vec<String>) -> (r: Vec<String>)
    ensures
        ordered(text::views(r@)),
        text::views(r@).to_multiset() == text::views(list@).to_multiset(),
        r@.len() == list@.len(),
{
    broadcast use vstd::seq_lib::group_to_multiset_ensures;

    let mut out: Vec<String> = Vec::new();
    let mut i: usize = 0;
    let ghost all = text::views(list@);
    assert(all.take(0) =~= text::views(out@));
    while i < list.len()
        invariant
            i <= list@.len(),
            all == text::views(list@),
            out@.len() == i,
            ordered(text::views(out@)),
            text::views(out@).to_multiset() == all.take(i as int).to_multiset(),
        decreases list@.len() - i,
    {
        broadcast use vstd::seq_lib::group_to_multiset_ensures;

        let ghost before = text::views(out@);
        let n: usize = place_for(&out, list[i].as_str());
        let ghost s = list@[i as int]@;
        out.insert(n, list[i].clone());
        proof {
            let after = text::views(out@);
            assert(after =~= before.insert(n as int, s));
            assert(all.take(i + 1) =~= all.take(i as int).push(s));
            assert(before.insert(n as int, s).to_multiset() =~= before.to_multiset().insert(s));
            assert forall|a: int, b: int| 0 <= a < b < after.len() implies !text::less(
                #[trigger] after[b],
                #[trigger] after[a],
            ) by {
                lemma_less_total(after[a], after[b]);
                if a < n && b > n {
                    assert(!text::less(before[b - 1], before[a]));
                } else if a >= n && b > n {
                    if a > n {
                        assert(!text::less(before[b - 1], before[a - 1]));
                    }
                } else if b < n {
                    assert(!text::less(before[b], before[a]));
                }
            }
        }
        i = i + 1;
    }
    assert(all.take(all.len() as int) =~= all);
    out
}

} // verus!
