//! Sequences: the views of their elements, and the first element that meets a condition.
use vstd::prelude::*;

verus! {

/// The views of the elements of `s`, in order.
pub open spec fn views<T: View>(s: Seq<T>) -> Seq<T::V> {
    s.map_values(|t: T| t@)
}

pub broadcast proof fn lemma_views_empty<T: View>()
    ensures
        #[trigger] views::<T>(Seq::empty()) == Seq::<T::V>::empty(),
{
    assert(views::<T>(Seq::empty()) =~= Seq::<T::V>::empty());
}

pub broadcast proof fn lemma_views_push<T: View>(s: Seq<T>, t: T)
    ensures
        #[trigger] views(s.push(t)) == views(s).push(t@),
{
    assert(views(s.push(t)) =~= views(s).push(t@));
}

pub broadcast proof fn lemma_views_add<T: View>(s: Seq<T>, t: Seq<T>)
    ensures
        #[trigger] views(s + t) == views(s) + views(t),
{
    assert(views(s + t) =~= views(s) + views(t));
}

pub broadcast proof fn lemma_views_len<T: View>(s: Seq<T>)
    ensures
        #[trigger] views(s).len() == s.len(),
{
}

pub broadcast proof fn lemma_views_index<T: View>(s: Seq<T>, i: int)
    requires
        0 <= i < s.len(),
    ensures
        #[trigger] views(s)[i] == s[i]@,
{
}

pub broadcast proof fn lemma_views_update<T: View>(s: Seq<T>, i: int, t: T)
    requires
        0 <= i < s.len(),
    ensures
        #[trigger] views(s.update(i, t)) == views(s).update(i, t@),
{
    assert(views(s.update(i, t)) =~= views(s).update(i, t@));
}

pub broadcast group group_views {
    lemma_views_empty,
    lemma_views_push,
    lemma_views_add,
    lemma_views_len,
    lemma_views_index,
    lemma_views_update,
}

/// Whether the first element of `s` that meets `p` is at `i`.
pub open spec fn first_where<T>(s: Seq<T>, p: spec_fn(T) -> bool, i: int) -> bool {
    &&& 0 <= i < s.len()
    &&& p(s[i])
    &&& forall|j: int| 0 <= j < i ==> !p(#[trigger] s[j])
}

/// Where the first element of `s` that meets `p` is; `None` where none does.
pub open spec fn find<T>(s: Seq<T>, p: spec_fn(T) -> bool) -> Option<int> {
    if exists|i: int| first_where(s, p, i) {
        Some(choose|i: int| first_where(s, p, i))
    } else {
        None
    }
}

/// The element at which `p` first holds is the one that `find` gives.
pub proof fn lemma_find_at<T>(s: Seq<T>, p: spec_fn(T) -> bool, i: int)
    requires
        first_where(s, p, i),
    ensures
        find(s, p) == Some(i),
{
    let k = choose|k: int| first_where(s, p, k);
    assert(first_where(s, p, k));
    assert(k == i) by {
        if k < i {
            assert(!p(s[k]));
        } else if i < k {
            assert(!p(s[i]));
        }
    }
}

proof fn lemma_first_where_exists<T>(s: Seq<T>, p: spec_fn(T) -> bool, i: int) -> (k: int)
    requires
        0 <= i < s.len(),
        p(s[i]),
    ensures
        first_where(s, p, k),
    decreases i,
{
    if forall|j: int| 0 <= j < i ==> !p(#[trigger] s[j]) {
        i
    } else {
        let j = choose|j: int| 0 <= j < i && p(#[trigger] s[j]);
        lemma_first_where_exists(s, p, j)
    }
}

/// What `find` gives is the first element that meets `p`, and it gives none only where there is
/// none.
pub proof fn lemma_find<T>(s: Seq<T>, p: spec_fn(T) -> bool)
    ensures
        match find(s, p) {
            Some(i) => first_where(s, p, i),
            None => forall|j: int| 0 <= j < s.len() ==> !p(#[trigger] s[j]),
        },
{
    if find(s, p) is None {
        assert forall|j: int| 0 <= j < s.len() implies !p(#[trigger] s[j]) by {
            if p(s[j]) {
                let k = lemma_first_where_exists(s, p, j);
                assert(first_where(s, p, k));
            }
        }
    }
}

/// The last `n` elements of `s`, or all where there are no more.
pub open spec fn last_of<T>(s: Seq<T>, n: int) -> Seq<T> {
    if s.len() > n {
        s.skip(s.len() - n)
    } else {
        s
    }
}

/// What is kept of `s` meets `p` and is in `s`.
pub proof fn lemma_filter_in<T>(s: Seq<T>, p: spec_fn(T) -> bool)
    ensures
        forall|k: int|
            0 <= k < s.filter(p).len() ==> p(#[trigger] s.filter(p)[k]) && s.contains(
                s.filter(p)[k],
            ),
    decreases s.len(),
{
    reveal(Seq::filter);
    if s.len() > 0 {
        lemma_filter_in(s.drop_last(), p);
        let t = s.drop_last().filter(p);
        assert(s.filter(p) == if p(s.last()) {
            t.push(s.last())
        } else {
            t
        });
        assert forall|k: int| 0 <= k < s.filter(p).len() implies p(#[trigger] s.filter(p)[k])
            && s.contains(s.filter(p)[k]) by {
            if k < t.len() {
                assert(s.filter(p)[k] == t[k]);
                let m = choose|m: int| 0 <= m < s.drop_last().len() && s.drop_last()[m] == t[k];
                assert(s[m] == t[k]);
            } else {
                assert(s[s.len() - 1] == s.filter(p)[k]);
            }
        }
    }
}

/// Of elements that differ, those that meet `p` differ too, and all of them are kept.
pub proof fn lemma_filter_distinct<T>(s: Seq<T>, p: spec_fn(T) -> bool)
    requires
        s.no_duplicates(),
    ensures
        s.filter(p).no_duplicates(),
        forall|x: T| #[trigger] s.filter(p).contains(x) <==> s.contains(x) && p(x),
    decreases s.len(),
{
    reveal(Seq::filter);
    lemma_filter_in(s, p);
    assert forall|x: T| #[trigger] s.filter(p).contains(x) <==> s.contains(x) && p(x) by {
        if s.contains(x) && p(x) {
            let i = choose|i: int| 0 <= i < s.len() && s[i] == x;
            s.lemma_filter_contains(p, i);
        }
    }
    if s.len() > 0 {
        let less = s.drop_last();
        lemma_filter_distinct(less, p);
        if less.filter(p).contains(s.last()) {
            let i = choose|i: int| 0 <= i < less.len() && less[i] == s.last();
            assert(s[i] == s[s.len() - 1]);
        }
    }
}

/// Where all that meets `q` is kept, the first element that meets `q` is the same before and
/// after.
pub proof fn lemma_find_filtered<T>(s: Seq<T>, p: spec_fn(T) -> bool, q: spec_fn(T) -> bool)
    requires
        forall|x: T| #[trigger] q(x) ==> p(x),
    ensures
        match (find(s, q), find(s.filter(p), q)) {
            (Some(i), Some(k)) => s[i] == s.filter(p)[k],
            (None, None) => true,
            _ => false,
        },
    decreases s.len(),
{
    reveal(Seq::filter);
    lemma_find(s, q);
    lemma_find(s.filter(p), q);
    if s.len() > 0 {
        let less = s.drop_last();
        let kept = less.filter(p);
        lemma_find_filtered(less, p, q);
        lemma_find(less, q);
        lemma_find(kept, q);
        if let (Some(i), Some(k)) = (find(less, q), find(kept, q)) {
            assert forall|j: int| 0 <= j < i implies !q(#[trigger] s[j]) by {
                assert(!q(less[j]));
            }
            lemma_find_at(s, q, i);
            assert forall|j: int| 0 <= j < k implies !q(#[trigger] s.filter(p)[j]) by {
                assert(!q(kept[j]));
            }
            lemma_find_at(s.filter(p), q, k);
        } else if q(s.last()) {
            assert forall|j: int| 0 <= j < less.len() implies !q(#[trigger] s[j]) by {
                assert(!q(less[j]));
            }
            lemma_find_at(s, q, s.len() - 1);
            assert forall|j: int| 0 <= j < kept.len() implies !q(#[trigger] s.filter(p)[j]) by {
                assert(!q(kept[j]));
            }
            lemma_find_at(s.filter(p), q, kept.len() as int);
        } else {
            assert forall|j: int| 0 <= j < s.len() implies !q(#[trigger] s[j]) by {
                if j < less.len() {
                    assert(!q(less[j]));
                }
            }
            assert forall|j: int| 0 <= j < s.filter(p).len() implies !q(
                #[trigger] s.filter(p)[j],
            ) by {
                if j < kept.len() {
                    assert(!q(kept[j]));
                }
            }
        }
    }
}

/// Where all elements meet `p`, all are kept.
pub proof fn lemma_filter_all<T>(s: Seq<T>, p: spec_fn(T) -> bool)
    requires
        forall|k: int| 0 <= k < s.len() ==> p(#[trigger] s[k]),
    ensures
        s.filter(p) == s,
    decreases s.len(),
{
    reveal(Seq::filter);
    if s.len() > 0 {
        let less = s.drop_last();
        assert forall|k: int| 0 <= k < less.len() implies p(#[trigger] less[k]) by {
            assert(p(s[k]));
        }
        lemma_filter_all(less, p);
        assert(p(s[s.len() - 1]));
        assert(less.push(s.last()) =~= s);
    } else {
        assert(s.filter(p) =~= s);
    }
}

/// Where all elements but one meet `p`, that one is taken out.
pub proof fn lemma_filter_but_one<T>(s: Seq<T>, p: spec_fn(T) -> bool, i: int)
    requires
        0 <= i < s.len(),
        !p(s[i]),
        forall|k: int| 0 <= k < s.len() && k != i ==> p(#[trigger] s[k]),
    ensures
        s.filter(p) == s.remove(i),
    decreases s.len(),
{
    reveal(Seq::filter);
    let less = s.drop_last();
    if i == s.len() - 1 {
        assert forall|k: int| 0 <= k < less.len() implies p(#[trigger] less[k]) by {
            assert(p(s[k]));
        }
        lemma_filter_all(less, p);
        assert(s.remove(i) =~= less);
    } else {
        assert forall|k: int| 0 <= k < less.len() && k != i implies p(#[trigger] less[k]) by {
            assert(p(s[k]));
        }
        lemma_filter_but_one(less, p, i);
        assert(p(s[s.len() - 1]));
        assert(s.remove(i) =~= less.remove(i).push(s.last()));
    }
}

} // verus!
