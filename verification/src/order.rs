//! Texts in order: by their characters from the left, a prefix before what it
//! begins.
use crate::text::{push_item, same};
use vstd::prelude::*;

verus! {

/// Whether `a` comes before `b` or is `b`.
pub open spec fn text_le(a: Seq<char>, b: Seq<char>) -> bool
    decreases a.len(),
{
    if a.len() == 0 {
        true
    } else if b.len() == 0 {
        false
    } else if a[0] == b[0] {
        text_le(a.skip(1), b.skip(1))
    } else {
        a[0] < b[0]
    }
}

/// Whether `a` comes before `b` or is `b`.
pub fn text_not_after(a: &str, b: &str) -> (r: bool)
    ensures
        r == text_le(a@, b@),
{
    let n: usize = a.unicode_len();
    let m: usize = b.unicode_len();
    let mut i: usize = 0;
    assert(a@.skip(0) =~= a@);
    assert(b@.skip(0) =~= b@);
    while i < n && i < m
        invariant
            i <= n,
            i <= m,
            n == a@.len(),
            m == b@.len(),
            text_le(a@, b@) == text_le(a@.skip(i as int), b@.skip(i as int)),
        decreases n - i,
    {
        let x = a.get_char(i);
        let y = b.get_char(i);
        assert(a@.skip(i as int)[0] == x);
        assert(b@.skip(i as int)[0] == y);
        if x != y {
            return x < y;
        }
        assert(a@.skip(i as int).skip(1) =~= a@.skip(i + 1));
        assert(b@.skip(i as int).skip(1) =~= b@.skip(i + 1));
        i += 1;
    }
    i == n
}

/// Of two texts, one comes before the other or they are the same.
pub proof fn text_le_total(a: Seq<char>, b: Seq<char>)
    ensures
        text_le(a, b) || text_le(b, a),
    decreases a.len(),
{
    if a.len() > 0 && b.len() > 0 && a[0] == b[0] {
        text_le_total(a.skip(1), b.skip(1));
    }
}

/// What comes before something comes before all that follows it.
pub proof fn text_le_transitive(a: Seq<char>, b: Seq<char>, c: Seq<char>)
    requires
        text_le(a, b),
        text_le(b, c),
    ensures
        text_le(a, c),
    decreases a.len(),
{
    if a.len() > 0 && b.len() > 0 && c.len() > 0 && a[0] == b[0] && b[0] == c[0] {
        text_le_transitive(a.skip(1), b.skip(1), c.skip(1));
    }
}

/// Two texts neither of which comes after the other are the same.
pub proof fn text_le_antisymmetric(a: Seq<char>, b: Seq<char>)
    requires
        text_le(a, b),
        text_le(b, a),
    ensures
        a == b,
    decreases a.len(),
{
    if a.len() > 0 && b.len() > 0 {
        text_le_antisymmetric(a.skip(1), b.skip(1));
        assert(a =~= seq![a[0]] + a.skip(1));
        assert(b =~= seq![b[0]] + b.skip(1));
    } else {
        assert(a =~= b);
    }
}

/// `list` with `x` behind the last element that does not come after it.
pub open spec fn inserted(list: Seq<Seq<char>>, x: Seq<char>) -> Seq<Seq<char>>
    decreases list.len(),
{
    if list.len() == 0 {
        seq![x]
    } else if text_le(list.last(), x) {
        list.push(x)
    } else {
        inserted(list.drop_last(), x).push(list.last())
    }
}

/// The elements of `list` in order.
pub open spec fn sorted(list: Seq<Seq<char>>) -> Seq<Seq<char>>
    decreases list.len(),
{
    if list.len() == 0 {
        Seq::empty()
    } else {
        inserted(sorted(list.drop_last()), list.last())
    }
}

/// Whether every element comes before those behind it.
pub open spec fn is_sorted(list: Seq<Seq<char>>) -> bool {
    forall|i: int, j: int| 0 <= i <= j < list.len() ==> text_le(#[trigger] list[i], #[trigger] list[j])
}

proof fn text_le_self(a: Seq<char>)
    ensures
        text_le(a, a),
    decreases a.len(),
{
    if a.len() > 0 {
        text_le_self(a.skip(1));
    }
}

proof fn inserted_keeps_order(list: Seq<Seq<char>>, x: Seq<char>)
    requires
        is_sorted(list),
    ensures
        is_sorted(inserted(list, x)),
        inserted(list, x).to_multiset() == list.to_multiset().insert(x),
        inserted(list, x).len() == list.len() + 1,
        list.len() > 0 && text_le(x, list.last()) ==> inserted(list, x).last() == list.last()
            || inserted(list, x).last() == x,
    decreases list.len(),
{
    broadcast use vstd::seq_lib::group_to_multiset_ensures;

    if list.len() == 0 {
        assert(inserted(list, x) =~= Seq::<Seq<char>>::empty().push(x));
        assert(list =~= Seq::<Seq<char>>::empty());
        text_le_self(x);
    } else if text_le(list.last(), x) {
        let r = list.push(x);
        assert forall|i: int, j: int| 0 <= i <= j < r.len() implies text_le(
            #[trigger] r[i],
            #[trigger] r[j],
        ) by {
            if j == list.len() {
                if i < list.len() {
                    assert(text_le(list[i], list[list.len() - 1]));
                    text_le_transitive(list[i], list.last(), x);
                } else {
                    text_le_self(x);
                }
            } else {
                assert(text_le(list[i], list[j]));
            }
        }
    } else {
        let front = list.drop_last();
        assert(is_sorted(front)) by {
            assert forall|i: int, j: int| 0 <= i <= j < front.len() implies text_le(
                #[trigger] front[i],
                #[trigger] front[j],
            ) by {
                assert(text_le(list[i], list[j]));
            }
        }
        inserted_keeps_order(front, x);
        text_le_total(list.last(), x);
        let mid = inserted(front, x);
        let r = mid.push(list.last());
        assert(r == inserted(list, x));
        assert(list =~= front.push(list.last()));
        assert(r.to_multiset() =~= list.to_multiset().insert(x));
        assert forall|i: int| 0 <= i < mid.len() implies text_le(#[trigger] mid[i], list.last()) by {
            assert(mid.to_multiset().contains(mid[i])) by {
                assert(mid.contains(mid[i]));
            }
            assert(front.to_multiset().insert(x).contains(mid[i]));
            if mid[i] != x {
                assert(front.to_multiset().contains(mid[i]));
                assert(front.contains(mid[i]));
                let k = choose|k: int| 0 <= k < front.len() && front[k] == mid[i];
                assert(text_le(list[k], list[list.len() - 1]));
            }
        }
        assert forall|i: int, j: int| 0 <= i <= j < r.len() implies text_le(
            #[trigger] r[i],
            #[trigger] r[j],
        ) by {
            if j == mid.len() {
                if i < mid.len() {
                    assert(text_le(mid[i], list.last()));
                } else {
                    text_le_self(list.last());
                }
            } else {
                assert(text_le(mid[i], mid[j]));
            }
        }
    }
}

/// The elements in order are in order, and are the elements.
pub proof fn sorted_is_sorted(list: Seq<Seq<char>>)
    ensures
        is_sorted(sorted(list)),
        sorted(list).to_multiset() == list.to_multiset(),
        sorted(list).len() == list.len(),
    decreases list.len(),
{
    broadcast use vstd::seq_lib::group_to_multiset_ensures;

    if list.len() > 0 {
        let front = list.drop_last();
        sorted_is_sorted(front);
        inserted_keeps_order(sorted(front), list.last());
        assert(list =~= front.push(list.last()));
    } else {
        assert(list =~= Seq::<Seq<char>>::empty());
    }
}

/// Sorting adds nothing and loses nothing.
pub proof fn sorted_holds_the_same(list: Seq<Seq<char>>, x: Seq<char>)
    ensures
        sorted(list).contains(x) == list.contains(x),
{
    broadcast use vstd::seq_lib::group_to_multiset_ensures;

    sorted_is_sorted(list);
    assert(sorted(list).to_multiset().contains(x) == list.to_multiset().contains(x));
}

fn insert_text(list: &mut Vec<String>, x: String)
    ensures
        final(list).deep_view() == inserted(old(list).deep_view(), x@),
{
    let ghost all = list.deep_view();
    let ghost new = x@;
    let mut at: usize = list.len();
    let mut found: bool = false;
    assert(all.take(at as int) =~= all);
    assert(inserted(all, new) =~= inserted(all.take(at as int), new) + all.skip(at as int));
    while at > 0 && !found
        invariant
            at <= list.len(),
            all == list.deep_view(),
            new == x@,
            inserted(all, new) == inserted(all.take(at as int), new) + all.skip(at as int),
            found ==> at > 0 && text_le(all.take(at as int).last(), new),
        decreases at, if found { 0int } else { 1int },
    {
        let ghost here = all.take(at as int);
        assert(here.last() == list@[at - 1]@);
        if text_not_after(list[at - 1].as_str(), x.as_str()) {
            found = true;
        } else {
            assert(here.drop_last() =~= all.take(at - 1));
            assert(inserted(all.take(at - 1), new).push(here.last()) + all.skip(at as int)
                =~= inserted(all.take(at - 1), new) + all.skip(at - 1));
            at -= 1;
        }
    }
    assert(inserted(all.take(at as int), new) =~= all.take(at as int).push(new));
    list.insert(at, x);
    assert(list.deep_view() =~= all.take(at as int).push(new) + all.skip(at as int));
}

/// The elements in order.
pub fn sort_texts(list: &Vec<String>) -> (r: Vec<String>)
    ensures
        r.deep_view() == sorted(list.deep_view()),
{
    let mut done: Vec<String> = Vec::new();
    let ghost all = list.deep_view();
    let mut i: usize = 0;
    assert(all.take(0) =~= Seq::<Seq<char>>::empty());
    assert(done.deep_view() =~= Seq::<Seq<char>>::empty());
    while i < list.len()
        invariant
            i <= list.len(),
            all == list.deep_view(),
            done.deep_view() == sorted(all.take(i as int)),
        decreases list.len() - i,
    {
        assert(all.take(i + 1).drop_last() =~= all.take(i as int));
        assert(all.take(i + 1).last() == list@[i as int]@);
        insert_text(&mut done, list[i].clone());
        i += 1;
    }
    assert(all.take(i as int) =~= all);
    done
}

/// `list` without the elements equal to the one before them.
pub open spec fn deduped(list: Seq<Seq<char>>) -> Seq<Seq<char>>
    decreases list.len(),
{
    if list.len() <= 1 {
        list
    } else if list[list.len() - 2] == list.last() {
        deduped(list.drop_last())
    } else {
        deduped(list.drop_last()).push(list.last())
    }
}

/// The elements without those equal to the one before them.
pub fn dedup_texts(list: &Vec<String>) -> (r: Vec<String>)
    ensures
        r.deep_view() == deduped(list.deep_view()),
{
    let mut kept: Vec<String> = Vec::new();
    let ghost all = list.deep_view();
    let mut i: usize = 0;
    assert(all.take(0) =~= Seq::<Seq<char>>::empty());
    assert(kept.deep_view() =~= Seq::<Seq<char>>::empty());
    while i < list.len()
        invariant
            i <= list.len(),
            all == list.deep_view(),
            kept.deep_view() == deduped(all.take(i as int)),
        decreases list.len() - i,
    {
        let ghost now = all.take(i + 1);
        assert(now.drop_last() =~= all.take(i as int));
        assert(now.last() == list@[i as int]@);
        if i == 0 {
            push_item(&mut kept, list[i].clone());
            assert(kept.deep_view() =~= now);
        } else {
            assert(now[now.len() - 2] == list@[i - 1]@);
            if !same(list[i - 1].as_str(), list[i].as_str()) {
                push_item(&mut kept, list[i].clone());
            }
        }
        i += 1;
    }
    assert(all.take(i as int) =~= all);
    kept
}

/// A list with an element added holds that element and what it held.
pub proof fn contains_pushed<A>(list: Seq<A>, last: A, x: A)
    ensures
        list.push(last).contains(x) <==> list.contains(x) || x == last,
{
    if list.contains(x) {
        let i = choose|i: int| 0 <= i < list.len() && list[i] == x;
        assert(list.push(last)[i] == x);
    }
    assert(list.push(last)[list.len() as int] == last);
    if list.push(last).contains(x) && x != last {
        let i = choose|i: int| 0 <= i < list.push(last).len() && list.push(last)[i] == x;
        assert(list[i] == x);
    }
}

/// Two lists together hold what either holds.
pub proof fn contains_joined<A>(first: Seq<A>, second: Seq<A>, x: A)
    ensures
        (first + second).contains(x) <==> first.contains(x) || second.contains(x),
{
    let both = first + second;
    if first.contains(x) {
        let i = choose|i: int| 0 <= i < first.len() && first[i] == x;
        assert(both[i] == x);
    }
    if second.contains(x) {
        let i = choose|i: int| 0 <= i < second.len() && second[i] == x;
        assert(both[first.len() + i] == x);
    }
    if both.contains(x) {
        let i = choose|i: int| 0 <= i < both.len() && both[i] == x;
        if i < first.len() {
            assert(first[i] == x);
        } else {
            assert(second[i - first.len()] == x);
        }
    }
}

/// Leaving out repeated neighbours loses no element and adds none.
pub proof fn deduped_holds_the_same(list: Seq<Seq<char>>, x: Seq<char>)
    ensures
        deduped(list).contains(x) == list.contains(x),
    decreases list.len(),
{
    if list.len() > 0 {
        let front = list.drop_last();
        deduped_holds_the_same(front, x);
        assert(list =~= front.push(list.last()));
        contains_pushed(front, list.last(), x);
        contains_pushed(deduped(front), list.last(), x);
    }
}

/// There is one way to put elements in order.
pub proof fn sorted_lists_are_one(a: Seq<Seq<char>>, b: Seq<Seq<char>>)
    requires
        is_sorted(a),
        is_sorted(b),
        a.to_multiset() == b.to_multiset(),
    ensures
        a == b,
    decreases a.len(),
{
    broadcast use vstd::seq_lib::group_to_multiset_ensures;

    assert(a.len() == a.to_multiset().len());
    assert(b.len() == b.to_multiset().len());
    if a.len() > 0 {
        let fa = a.drop_last();
        let fb = b.drop_last();
        let la = a.last();
        let lb = b.last();
        assert(a =~= fa.push(la));
        assert(b =~= fb.push(lb));
        assert(b.to_multiset().contains(la)) by {
            assert(a.contains(la));
        }
        assert(b.contains(la));
        let i = choose|i: int| 0 <= i < b.len() && b[i] == la;
        assert(text_le(b[i], b[b.len() - 1]));
        assert(a.to_multiset().contains(lb)) by {
            assert(b.contains(lb));
        }
        assert(a.contains(lb));
        let j = choose|j: int| 0 <= j < a.len() && a[j] == lb;
        assert(text_le(a[j], a[a.len() - 1]));
        text_le_antisymmetric(la, lb);
        assert(fa.to_multiset() =~= a.to_multiset().remove(la));
        assert(fb.to_multiset() =~= b.to_multiset().remove(lb));
        assert forall|x: int, y: int| 0 <= x <= y < fa.len() implies text_le(
            #[trigger] fa[x],
            #[trigger] fa[y],
        ) by {
            assert(text_le(a[x], a[y]));
        }
        assert forall|x: int, y: int| 0 <= x <= y < fb.len() implies text_le(
            #[trigger] fb[x],
            #[trigger] fb[y],
        ) by {
            assert(text_le(b[x], b[y]));
        }
        sorted_lists_are_one(fa, fb);
    } else {
        assert(a =~= b);
    }
}

} // verus!
