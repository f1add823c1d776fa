//! Ranges of the input line that the editor treats as one piece.
use crate::text;
use vstd::prelude::*;

verus! {

/// A piece of the input with a range of characters.
pub trait Atom: Sized {
    spec fn lo(&self) -> usize;

    spec fn hi(&self) -> usize;

    /// The same piece with another range.
    spec fn placed(self, lo: usize, hi: usize) -> Self;

    proof fn placed_range(self, lo: usize, hi: usize)
        ensures
            self.placed(lo, hi).lo() == lo,
            self.placed(lo, hi).hi() == hi,
    ;

    fn range(&self) -> (r: (usize, usize))
        ensures
            r.0 == self.lo(),
            r.1 == self.hi(),
    ;

    fn place(self, lo: usize, hi: usize) -> (r: Self)
        ensures
            r == self.placed(lo, hi),
    ;
}

/// `value` moved by `delta`, kept within what a position can hold.
pub open spec fn shifted(value: int, delta: int) -> int {
    if delta < 0 {
        text::max_int(0, value + delta)
    } else {
        text::min_int(usize::MAX as int, value + delta)
    }
}

/// Where the range `lo..hi` ends up when `old_len` characters at `start` give way to `new_len`
/// others: unchanged before them, moved after them, and gone where it overlaps them.
pub open spec fn edited_range(lo: usize, hi: usize, start: int, old_len: int, new_len: int)
    -> Option<(usize, usize)> {
    if hi <= start {
        Some((lo, hi))
    } else if lo >= start + old_len {
        Some(
            (
                shifted(lo as int, new_len - old_len) as usize,
                shifted(hi as int, new_len - old_len) as usize,
            ),
        )
    } else {
        None
    }
}

pub(crate) fn shift_char(value: usize, old_len: usize, new_len: usize) -> (r: usize)
    ensures
        r == shifted(value as int, new_len - old_len),
{
    if new_len >= old_len {
        value.saturating_add(new_len - old_len)
    } else {
        value.saturating_sub(old_len - new_len)
    }
}

/// The atoms that outlive an edit, in order, each where the edit puts it.
pub open spec fn edited_atoms<T: Atom>(atoms: Seq<T>, start: int, old_len: int, new_len: int)
    -> Seq<T>
    decreases atoms.len(),
{
    if atoms.len() == 0 {
        Seq::empty()
    } else {
        let before = edited_atoms(atoms.drop_last(), start, old_len, new_len);
        match edited_range(atoms.last().lo(), atoms.last().hi(), start, old_len, new_len) {
            Some((lo, hi)) => before.push(atoms.last().placed(lo, hi)),
            None => before,
        }
    }
}

/// Brings the atoms up to date with an edit of the input.
pub fn edit_atoms<T: Atom>(atoms: &mut Vec<T>, start: usize, old_len: usize, new_len: usize)
    requires
        start + old_len <= usize::MAX,
    ensures
        final(atoms)@ == edited_atoms(old(atoms)@, start as int, old_len as int, new_len as int),
{
    let ghost all = atoms@;
    let mut rest: Vec<T> = Vec::new();
    // Taken off the end, so that they come back in order.
    while atoms.len() > 0
        invariant
            atoms@.len() + rest@.len() == all.len(),
            atoms@ == all.take(atoms@.len() as int),
            forall|k: int| 0 <= k < rest@.len() ==> rest@[k] == all[all.len() - 1 - k],
        decreases atoms@.len(),
    {
        let ghost before = atoms@;
        let atom = atoms.pop();
        match atom {
            Some(a) => {
                rest.push(a);
            },
            None => {},
        }
        assert(atoms@ =~= all.take(atoms@.len() as int));
    }
    assert(atoms@ =~= edited_atoms(all.take(0), start as int, old_len as int, new_len as int));
    while rest.len() > 0
        invariant
            start + old_len <= usize::MAX,
            rest@.len() <= all.len(),
            atoms@ == edited_atoms(
                all.take(all.len() - rest@.len()),
                start as int,
                old_len as int,
                new_len as int,
            ),
            forall|k: int| 0 <= k < rest@.len() ==> rest@[k] == all[all.len() - 1 - k],
        decreases rest@.len(),
    {
        let ghost n = all.len() - rest@.len();
        let atom = rest.pop();
        match atom {
            Some(a) => {
                assert(a == all[n]);
                assert(all.take(n + 1).drop_last() =~= all.take(n));
                assert(all.take(n + 1).last() == a);
                let (lo, hi) = a.range();
                if hi <= start {
                    let kept = a.place(lo, hi);
                    atoms.push(kept);
                } else if lo >= start + old_len {
                    let kept = a.place(
                        shift_char(lo, old_len, new_len),
                        shift_char(hi, old_len, new_len),
                    );
                    atoms.push(kept);
                }
            },
            None => {},
        }
    }
    assert(all.take(all.len() as int) =~= all);
}

/// Every atom's range is non-empty and within a text of `n` characters.
pub open spec fn atoms_within<T: Atom>(atoms: Seq<T>, n: int) -> bool {
    forall|i: int| 0 <= i < atoms.len() ==> (#[trigger] atoms[i]).lo() < atoms[i].hi() <= n
}

/// An edit keeps the atoms within the text.
pub proof fn lemma_edited_within<T: Atom>(
    atoms: Seq<T>,
    n: int,
    start: int,
    old_len: int,
    new_len: int,
)
    requires
        atoms_within(atoms, n),
        0 <= start,
        0 <= old_len,
        0 <= new_len,
        start + old_len <= n,
        n - old_len + new_len <= usize::MAX,
    ensures
        atoms_within(edited_atoms(atoms, start, old_len, new_len), n - old_len + new_len),
        edited_atoms(atoms, start, old_len, new_len).len() <= atoms.len(),
    decreases atoms.len(),
{
    if atoms.len() > 0 {
        let last = atoms.last();
        assert(last == atoms[atoms.len() - 1]);
        assert(atoms_within(atoms.drop_last(), n)) by {
            assert forall|i: int| 0 <= i < atoms.drop_last().len() implies (
            #[trigger] atoms.drop_last()[i]).lo() < atoms.drop_last()[i].hi() <= n by {
                assert(atoms.drop_last()[i] == atoms[i]);
            }
        }
        lemma_edited_within(atoms.drop_last(), n, start, old_len, new_len);
        match edited_range(last.lo(), last.hi(), start, old_len, new_len) {
            Some((lo, hi)) => {
                last.placed_range(lo, hi);
            },
            None => {},
        }
    }
}

/// `atoms` with `x` put behind the last atom that does not start after it.
pub open spec fn insert_by_start<T: Atom>(atoms: Seq<T>, x: T) -> Seq<T>
    decreases atoms.len(),
{
    if atoms.len() == 0 || atoms.last().lo() <= x.lo() {
        atoms.push(x)
    } else {
        insert_by_start(atoms.drop_last(), x).push(atoms.last())
    }
}

/// `atoms` ordered by where they start; those that start together keep their order.
pub open spec fn by_start<T: Atom>(atoms: Seq<T>) -> Seq<T>
    decreases atoms.len(),
{
    if atoms.len() == 0 {
        Seq::empty()
    } else {
        insert_by_start(by_start(atoms.drop_last()), atoms.last())
    }
}

pub open spec fn starts_ascend<T: Atom>(atoms: Seq<T>) -> bool {
    forall|i: int, j: int|
        0 <= i <= j < atoms.len() ==> (#[trigger] atoms[i]).lo() <= (#[trigger] atoms[j]).lo()
}

proof fn lemma_insert_by_start<T: Atom>(atoms: Seq<T>, x: T)
    requires
        starts_ascend(atoms),
    ensures
        starts_ascend(insert_by_start(atoms, x)),
        insert_by_start(atoms, x).to_multiset() == atoms.to_multiset().insert(x),
        insert_by_start(atoms, x).len() == atoms.len() + 1,
        forall|i: int|
            0 <= i <= atoms.len() ==> (#[trigger] insert_by_start(atoms, x)[i]) == x || exists|
                k: int,
            |
                0 <= k < atoms.len() && atoms[k] == insert_by_start(atoms, x)[i],
    decreases atoms.len(),
{
    broadcast use vstd::seq_lib::group_to_multiset_ensures;

    if atoms.len() == 0 || atoms.last().lo() <= x.lo() {
        assert forall|i: int| 0 <= i <= atoms.len() implies (#[trigger] insert_by_start(atoms, x)[i])
            == x || exists|k: int| 0 <= k < atoms.len() && atoms[k] == insert_by_start(atoms, x)[i] by {
            if i < atoms.len() {
                assert(atoms[i] == insert_by_start(atoms, x)[i]);
            }
        }
    } else {
        let d = atoms.drop_last();
        lemma_insert_by_start(d, x);
        let r = insert_by_start(d, x);
        let out = insert_by_start(atoms, x);
        assert(out =~= r.push(atoms.last()));
        assert forall|i: int| 0 <= i < r.len() implies (#[trigger] r[i]).lo() <= atoms.last().lo() by {
            if r[i] != x {
                let k = choose|k: int| 0 <= k < d.len() && d[k] == r[i];
                assert(atoms[k] == d[k]);
            }
        }
        assert forall|i: int, j: int| 0 <= i <= j < out.len() implies (#[trigger] out[i]).lo() <= (
        #[trigger] out[j]).lo() by {
            if j < r.len() {
                assert(out[i] == r[i]);
                assert(out[j] == r[j]);
            } else if i < r.len() {
                assert(out[i] == r[i]);
            }
        }
        assert(atoms =~= d.push(atoms.last()));
        assert forall|i: int| 0 <= i <= atoms.len() implies (#[trigger] out[i]) == x || exists|k: int|
            0 <= k < atoms.len() && atoms[k] == out[i] by {
            if i < r.len() {
                assert(out[i] == r[i]);
                if r[i] != x {
                    let k = choose|k: int| 0 <= k < d.len() && d[k] == r[i];
                    assert(atoms[k] == out[i]);
                }
            } else {
                assert(atoms[atoms.len() - 1] == out[i]);
            }
        }
    }
}

/// Ordering by start changes the order alone: the result ascends and holds the same atoms.
pub proof fn lemma_by_start<T: Atom>(atoms: Seq<T>)
    ensures
        starts_ascend(by_start(atoms)),
        by_start(atoms).to_multiset() == atoms.to_multiset(),
        by_start(atoms).len() == atoms.len(),
    decreases atoms.len(),
{
    broadcast use vstd::seq_lib::group_to_multiset_ensures;

    if atoms.len() > 0 {
        lemma_by_start(atoms.drop_last());
        lemma_insert_by_start(by_start(atoms.drop_last()), atoms.last());
        assert(atoms =~= atoms.drop_last().push(atoms.last()));
    }
}

fn insert_ordered<T: Atom>(atoms: &mut Vec<T>, x: T)
    ensures
        final(atoms)@ == insert_by_start(old(atoms)@, x),
{
    let mut at: usize = atoms.len();
    let (lo, _) = x.range();
    let ghost all = atoms@;
    assert(all.take(at as int) =~= all);
    assert(all.skip(at as int) =~= Seq::empty());
    assert(insert_by_start(all, x) =~= insert_by_start(all, x) + all.skip(at as int));
    while at > 0
        invariant
            at <= all.len(),
            atoms@ == all,
            lo == x.lo(),
            insert_by_start(all, x) == insert_by_start(all.take(at as int), x) + all.skip(at as int),
        ensures
            at <= all.len(),
            insert_by_start(all, x) == all.take(at as int).push(x) + all.skip(at as int),
        decreases at,
    {
        let (other, _) = atoms[at - 1].range();
        assert(all.take(at as int).last() == all[at - 1]);
        if other <= lo {
            break;
        }
        assert(all.take(at as int).drop_last() =~= all.take(at - 1));
        assert(insert_by_start(all.take(at - 1), x).push(all[at - 1]) + all.skip(at as int)
            =~= insert_by_start(all.take(at - 1), x) + all.skip(at - 1));
        at = at - 1;
    }
    atoms.insert(at, x);
    assert(atoms@ =~= insert_by_start(all, x));
}

/// Puts the atoms in the order of their starts.
pub fn sort_by_start<T: Atom>(atoms: &mut Vec<T>)
    ensures
        final(atoms)@ == by_start(old(atoms)@),
{
    let ghost all = atoms@;
    let mut rest: Vec<T> = Vec::new();
    while atoms.len() > 0
        invariant
            atoms@.len() + rest@.len() == all.len(),
            atoms@ == all.take(atoms@.len() as int),
            forall|k: int| 0 <= k < rest@.len() ==> rest@[k] == all[all.len() - 1 - k],
        decreases atoms@.len(),
    {
        let atom = atoms.pop();
        match atom {
            Some(a) => {
                rest.push(a);
            },
            None => {},
        }
        assert(atoms@ =~= all.take(atoms@.len() as int));
    }
    assert(atoms@ =~= by_start(all.take(0)));
    while rest.len() > 0
        invariant
            rest@.len() <= all.len(),
            atoms@ == by_start(all.take(all.len() - rest@.len())),
            forall|k: int| 0 <= k < rest@.len() ==> rest@[k] == all[all.len() - 1 - k],
        decreases rest@.len(),
    {
        let ghost n = all.len() - rest@.len();
        let atom = rest.pop();
        match atom {
            Some(a) => {
                assert(all.take(n + 1).drop_last() =~= all.take(n));
                assert(all.take(n + 1).last() == a);
                insert_ordered(atoms, a);
            },
            None => {},
        }
    }
    assert(all.take(all.len() as int) =~= all);
}

} // verus!
