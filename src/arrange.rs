use vstd::prelude::*;

use crate::model::{folders_view, Folder, FolderView};
use crate::state::{move_in_range, moved};

verus! {

/// One entry of a batch renumbering: folder `folder_id` gets `new_ordering`.
#[derive(Debug)]
pub struct FolderOrderUpdate {
    pub folder_id: i32,
    pub new_ordering: i32,
}

impl View for FolderOrderUpdate {
    type V = (i32, i32);

    open spec fn view(&self) -> (i32, i32) {
        (self.folder_id, self.new_ordering)
    }
}

pub open spec fn updates_view(s: Seq<FolderOrderUpdate>) -> Seq<(i32, i32)> {
    s.map_values(|u: FolderOrderUpdate| u@)
}

/// Where `f` goes in the ordering-sorted `s`: after every folder whose ordering is not
/// greater than its own, so that folders with equal orderings keep their order.
pub open spec fn insert_position(s: Seq<FolderView>, f: FolderView) -> int
    decreases s.len(),
{
    if s.len() == 0 {
        0
    } else if s.last().ordering <= f.ordering {
        s.len() as int
    } else {
        insert_position(s.drop_last(), f)
    }
}

/// `s` sorted by ascending ordering; folders with equal orderings keep their order.
pub open spec fn sorted_by_ordering(s: Seq<FolderView>) -> Seq<FolderView>
    decreases s.len(),
{
    if s.len() == 0 {
        s
    } else {
        let rest = sorted_by_ordering(s.drop_last());
        rest.insert(insert_position(rest, s.last()), s.last())
    }
}

/// The batch that gives each folder of `s` its position as ordering.
pub open spec fn position_updates(s: Seq<FolderView>) -> Seq<(i32, i32)> {
    Seq::new(s.len(), |i: int| (s[i].id, i as i32))
}

pub proof fn lemma_insert_position_bounds(s: Seq<FolderView>, f: FolderView)
    ensures
        0 <= insert_position(s, f) <= s.len(),
    decreases s.len(),
{
    if s.len() > 0 && s.last().ordering > f.ordering {
        lemma_insert_position_bounds(s.drop_last(), f);
    }
}

pub proof fn lemma_sorted_len(s: Seq<FolderView>)
    ensures
        sorted_by_ordering(s).len() == s.len(),
    decreases s.len(),
{
    if s.len() > 0 {
        lemma_sorted_len(s.drop_last());
        lemma_insert_position_bounds(sorted_by_ordering(s.drop_last()), s.last());
    }
}

/// `sorted_by_ordering` yields a list in ascending ordering.
pub proof fn lemma_sorted_is_ascending(s: Seq<FolderView>)
    ensures
        forall|i: int, j: int|
            0 <= i < j < s.len() ==> #[trigger] sorted_by_ordering(s)[i].ordering
                <= #[trigger] sorted_by_ordering(s)[j].ordering,
    decreases s.len(),
{
    lemma_sorted_len(s);
    if s.len() > 0 {
        let rest = sorted_by_ordering(s.drop_last());
        let f = s.last();
        lemma_sorted_is_ascending(s.drop_last());
        lemma_sorted_len(s.drop_last());
        lemma_insert_position_splits(rest, f);
        lemma_insert_position_bounds(rest, f);
        let p = insert_position(rest, f);
        let t = rest.insert(p, f);
        assert(sorted_by_ordering(s) == t);
        assert forall|i: int, j: int| 0 <= i < j < s.len() implies #[trigger] t[i].ordering
            <= #[trigger] t[j].ordering by {
            if j < p {
                assert(t[i] == rest[i] && t[j] == rest[j]);
            } else if j == p {
                assert(t[i] == rest[i]);
            } else if i < p {
                assert(t[i] == rest[i] && t[j] == rest[j - 1]);
            } else if i == p {
                assert(t[j] == rest[j - 1]);
            } else {
                assert(t[i] == rest[i - 1] && t[j] == rest[j - 1]);
            }
        }
    }
}

/// What precedes the insert position is not above `f`; what follows it is above `f`.
pub proof fn lemma_insert_position_splits(s: Seq<FolderView>, f: FolderView)
    requires
        forall|i: int, j: int|
            0 <= i < j < s.len() ==> #[trigger] s[i].ordering <= #[trigger] s[j].ordering,
    ensures
        forall|i: int| 0 <= i < insert_position(s, f) ==> #[trigger] s[i].ordering <= f.ordering,
        forall|i: int| insert_position(s, f) <= i < s.len() ==> #[trigger] s[i].ordering
            > f.ordering,
    decreases s.len(),
{
    if s.len() > 0 {
        if s.last().ordering <= f.ordering {
            assert forall|i: int| 0 <= i < s.len() implies #[trigger] s[i].ordering
                <= f.ordering by {
                if i < s.len() - 1 {
                    assert(s[i].ordering <= s[s.len() - 1].ordering);
                }
            }
        } else {
            let d = s.drop_last();
            assert forall|i: int, j: int| 0 <= i < j < d.len() implies #[trigger] d[i].ordering
                <= #[trigger] d[j].ordering by {
                assert(d[i] == s[i] && d[j] == s[j]);
            }
            lemma_insert_position_splits(d, f);
            lemma_insert_position_bounds(d, f);
            assert forall|i: int| 0 <= i < insert_position(s, f) implies #[trigger] s[i].ordering
                <= f.ordering by {
                assert(d[i] == s[i]);
            }
            assert forall|i: int| insert_position(s, f) <= i < s.len() implies #[trigger] s[i].ordering
                > f.ordering by {
                if i < s.len() - 1 {
                    assert(d[i] == s[i]);
                }
            }
        }
    }
}

/// The folders sorted stably by ascending ordering.
pub fn sort_folders_by_ordering(v: Vec<Folder>) -> (r: Vec<Folder>)
    ensures
        folders_view(r@) == sorted_by_ordering(folders_view(v@)),
{
    let ghost sv = folders_view(v@);
    let mut out: Vec<Folder> = Vec::new();
    let mut rest = v;
    let ghost mut k: int = 0;
    proof {
        assert(sv.skip(0) =~= sv);
        assert(sv.take(0) =~= Seq::<FolderView>::empty());
    }
    while rest.len() > 0
        invariant
            0 <= k <= sv.len(),
            folders_view(rest@) == sv.skip(k),
            rest@.len() == sv.len() - k,
            folders_view(out@) == sorted_by_ordering(sv.take(k)),
        decreases rest@.len(),
    {
        let ghost old_rest = rest@;
        let f = rest.remove(0);
        let ghost ov = folders_view(out@);
        proof {
            assert(folders_view(old_rest)[0] == sv.skip(k)[0]);
            assert(f@ == sv[k]);
            assert(rest@ =~= old_rest.skip(1));
            assert(folders_view(rest@) =~= folders_view(old_rest).skip(1));
            assert(folders_view(rest@) =~= sv.skip(k + 1));
            assert(sv.take(k + 1).drop_last() =~= sv.take(k));
            assert(sv.take(k + 1).last() == f@);
        }
        let mut j: usize = out.len();
        proof {
            assert(ov.take(j as int) =~= ov);
        }
        while j > 0 && out[j - 1].ordering > f.ordering
            invariant
                j <= out@.len(),
                ov == folders_view(out@),
                insert_position(ov, f@) == insert_position(ov.take(j as int), f@),
            decreases j,
        {
            proof {
                assert(ov.take(j as int).drop_last() =~= ov.take(j as int - 1));
            }
            j = j - 1;
        }
        proof {
            if j > 0 {
                assert(ov.take(j as int).last() == ov[j as int - 1]);
            }
        }
        out.insert(j, f);
        proof {
            assert(folders_view(out@) =~= ov.insert(j as int, f@));
            k = k + 1;
        }
    }
    proof {
        assert(sv.take(k) =~= sv);
    }
    out
}

/// The batch that gives each folder of `v` its position as ordering.
pub fn position_order_updates(v: &Vec<Folder>) -> (r: Vec<FolderOrderUpdate>)
    requires
        v@.len() <= i32::MAX,
    ensures
        updates_view(r@) == position_updates(folders_view(v@)),
{
    let mut out: Vec<FolderOrderUpdate> = Vec::new();
    let mut i: usize = 0;
    while i < v.len()
        invariant
            i <= v@.len() <= i32::MAX,
            updates_view(out@) == position_updates(folders_view(v@)).take(i as int),
        decreases v@.len() - i,
    {
        let ghost prev = out@;
        out.push(FolderOrderUpdate { folder_id: v[i].id, new_ordering: i as i32 });
        proof {
            assert(updates_view(out@) =~= updates_view(prev).push(out@[i as int]@));
            assert(updates_view(out@) =~= position_updates(folders_view(v@)).take(i as int + 1));
        }
        i = i + 1;
    }
    proof {
        assert(position_updates(folders_view(v@)).take(i as int) =~= position_updates(
            folders_view(v@),
        ));
    }
    out
}

proof fn lemma_insert_to_multiset<A>(t: Seq<A>, p: int, x: A)
    requires
        0 <= p <= t.len(),
    ensures
        t.insert(p, x).to_multiset() == t.to_multiset().insert(x),
{
    broadcast use vstd::seq_lib::group_to_multiset_ensures;

    let u = t.insert(p, x);
    assert(u.remove(p) =~= t);
    assert(u[p] == x);
    assert(u.contains(x));
    assert(u.to_multiset().remove(x) == t.to_multiset());
    assert(u.to_multiset() =~= t.to_multiset().insert(x));
}

/// `sorted_by_ordering` rearranges the folders: it holds each as often as `s` does.
pub proof fn lemma_sorted_permutes(s: Seq<FolderView>)
    ensures
        sorted_by_ordering(s).to_multiset() == s.to_multiset(),
    decreases s.len(),
{
    broadcast use vstd::seq_lib::group_to_multiset_ensures;

    if s.len() > 0 {
        let d = s.drop_last();
        lemma_sorted_permutes(d);
        let rest = sorted_by_ordering(d);
        lemma_insert_position_bounds(rest, s.last());
        lemma_insert_to_multiset(rest, insert_position(rest, s.last()), s.last());
        assert(s =~= d.push(s.last()));
    }
}

/// A move in range rearranges the list: it holds each element as often as before.
pub proof fn lemma_moved_permutes<A>(s: Seq<A>, from: int, to: int)
    requires
        move_in_range(s.len() as int, from, to),
    ensures
        moved(s, from, to).to_multiset() == s.to_multiset(),
{
    broadcast use vstd::seq_lib::group_to_multiset_ensures;

    let r = s.remove(from);
    let p = if from < to {
        to - 1
    } else {
        to
    };
    lemma_insert_to_multiset(r, p, s[from]);
    assert(s.contains(s[from]));
    assert(s.to_multiset().remove(s[from]).insert(s[from]) =~= s.to_multiset());
}

} // verus!
