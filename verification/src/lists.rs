//! Lists of strings that stand for sets of paths or for ordered patterns.

use crate::text::{contains_str, seq_contains, views};
use vstd::prelude::*;

verus! {

/// `base` with those of `items` appended that are not empty and not in it
/// yet, each once, in their order.
pub open spec fn with_added(base: Seq<Seq<char>>, items: Seq<Seq<char>>) -> Seq<Seq<char>>
    decreases items.len(),
{
    if items.len() == 0 {
        base
    } else {
        let rest = with_added(base, items.drop_last());
        let p = items.last();
        if p.len() == 0 || seq_contains(rest, p) {
            rest
        } else {
            rest.push(p)
        }
    }
}

/// `base` without its members that occur in `removed`, the others in their
/// order.
pub open spec fn with_removed(base: Seq<Seq<char>>, removed: Seq<Seq<char>>) -> Seq<Seq<char>>
    decreases base.len(),
{
    if base.len() == 0 {
        base
    } else {
        let rest = with_removed(base.drop_last(), removed);
        if seq_contains(removed, base.last()) {
            rest
        } else {
            rest.push(base.last())
        }
    }
}

/// `items` without its empty members, the others in their order.
pub open spec fn without_empty(items: Seq<Seq<char>>) -> Seq<Seq<char>>
    decreases items.len(),
{
    if items.len() == 0 {
        items
    } else {
        let rest = without_empty(items.drop_last());
        if items.last().len() == 0 {
            rest
        } else {
            rest.push(items.last())
        }
    }
}

/// Whether no member of `s` is empty.
pub open spec fn none_empty(s: Seq<Seq<char>>) -> bool {
    forall|i: int| 0 <= i < s.len() ==> (#[trigger] s[i]).len() > 0
}

/// Whether no member of `s` occurs twice.
pub open spec fn all_distinct(s: Seq<Seq<char>>) -> bool {
    forall|i: int, j: int| 0 <= i < j < s.len() ==> s[i] != s[j]
}

/// `with_added` keeps `base` in front, adds nothing empty and nothing
/// twice, and holds exactly the members of `base` and the members of
/// `items` that are not empty.
pub proof fn lemma_with_added(base: Seq<Seq<char>>, items: Seq<Seq<char>>)
    ensures
        base.len() <= with_added(base, items).len(),
        with_added(base, items).take(base.len() as int) == base,
        none_empty(base) ==> none_empty(with_added(base, items)),
        all_distinct(base) ==> all_distinct(with_added(base, items)),
        forall|p: Seq<char>|
            seq_contains(with_added(base, items), p) <==> (seq_contains(base, p) || (
            seq_contains(items, p) && p.len() > 0)),
    decreases items.len(),
{
    let out = with_added(base, items);
    if items.len() == 0 {
        assert(out.take(base.len() as int) =~= base);
        assert forall|p: Seq<char>| seq_contains(out, p) <==> (seq_contains(base, p) || (
        seq_contains(items, p) && p.len() > 0)) by {}
    } else {
        let front = items.drop_last();
        let rest = with_added(base, front);
        let last = items.last();
        lemma_with_added(base, front);
        assert(out.take(base.len() as int) =~= rest.take(base.len() as int));
        assert forall|p: Seq<char>| seq_contains(out, p) <==> (seq_contains(base, p) || (
        seq_contains(items, p) && p.len() > 0)) by {
            if seq_contains(items, p) {
                let i = choose|i: int| 0 <= i < items.len() && items[i] == p;
                if i < front.len() {
                    assert(front[i] == p);
                }
            }
            if seq_contains(front, p) {
                let i = choose|i: int| 0 <= i < front.len() && front[i] == p;
                assert(items[i] == p);
            }
            if seq_contains(rest, p) {
                let i = choose|i: int| 0 <= i < rest.len() && rest[i] == p;
                assert(out[i] == p);
            }
            if seq_contains(out, p) {
                let i = choose|i: int| 0 <= i < out.len() && out[i] == p;
                if i < rest.len() {
                    assert(rest[i] == p);
                } else {
                    assert(p == last);
                    assert(items[items.len() - 1] == p);
                }
            }
            if p == last && p.len() > 0 {
                assert(items[items.len() - 1] == p);
                if !seq_contains(rest, p) {
                    assert(out[out.len() - 1] == p);
                }
            }
        }
        if all_distinct(base) && !(last.len() == 0 || seq_contains(rest, last)) {
            assert forall|i: int, j: int| 0 <= i < j < out.len() implies out[i] != out[j] by {
                if j == rest.len() {
                    assert(rest[i] == out[i]);
                } else {
                    assert(rest[i] == out[i] && rest[j] == out[j]);
                }
            }
        }
    }
}

/// `with_removed` holds exactly the members of `base` that are not in
/// `removed`, and keeps what `base` had of order and distinctness.
pub proof fn lemma_with_removed(base: Seq<Seq<char>>, removed: Seq<Seq<char>>)
    ensures
        with_removed(base, removed).len() <= base.len(),
        none_empty(base) ==> none_empty(with_removed(base, removed)),
        all_distinct(base) ==> all_distinct(with_removed(base, removed)),
        forall|p: Seq<char>|
            seq_contains(with_removed(base, removed), p) <==> (seq_contains(base, p)
                && !seq_contains(removed, p)),
    decreases base.len(),
{
    let out = with_removed(base, removed);
    if base.len() > 0 {
        let front = base.drop_last();
        let rest = with_removed(front, removed);
        let last = base.last();
        lemma_with_removed(front, removed);
        assert forall|p: Seq<char>| seq_contains(out, p) <==> (seq_contains(base, p)
            && !seq_contains(removed, p)) by {
            if seq_contains(base, p) {
                let i = choose|i: int| 0 <= i < base.len() && base[i] == p;
                if i < front.len() {
                    assert(front[i] == p);
                }
            }
            if seq_contains(front, p) {
                let i = choose|i: int| 0 <= i < front.len() && front[i] == p;
                assert(base[i] == p);
            }
            if seq_contains(rest, p) {
                let i = choose|i: int| 0 <= i < rest.len() && rest[i] == p;
                assert(out[i] == p);
            }
            if seq_contains(out, p) {
                let i = choose|i: int| 0 <= i < out.len() && out[i] == p;
                if i < rest.len() {
                    assert(rest[i] == p);
                } else {
                    assert(p == last);
                    assert(base[base.len() - 1] == p);
                }
            }
            if p == last && !seq_contains(removed, p) {
                assert(out[out.len() - 1] == p);
            }
        }
        if none_empty(base) {
            assert forall|i: int| 0 <= i < front.len() implies (#[trigger] front[i]).len() > 0 by {
                assert(front[i] == base[i]);
            }
            assert(last == base[base.len() - 1]);
        }
        if all_distinct(base) {
            assert forall|i: int, j: int| 0 <= i < j < front.len() implies front[i] != front[j] by {
                assert(front[i] == base[i] && front[j] == base[j]);
            }
            if !seq_contains(removed, last) {
                assert forall|i: int, j: int| 0 <= i < j < out.len() implies out[i] != out[j] by {
                    if j == rest.len() {
                        assert(rest[i] == out[i]);
                        assert(seq_contains(rest, out[i]));
                        assert(seq_contains(front, out[i]));
                        let k = choose|k: int| 0 <= k < front.len() && front[k] == out[i];
                        assert(base[k] == out[i]);
                        assert(base[base.len() - 1] == last);
                    } else {
                        assert(rest[i] == out[i] && rest[j] == out[j]);
                    }
                }
            }
        }
    }
}

/// `without_empty` holds no empty member.
pub proof fn lemma_without_empty(items: Seq<Seq<char>>)
    ensures
        none_empty(without_empty(items)),
        forall|p: Seq<char>|
            seq_contains(without_empty(items), p) <==> (seq_contains(items, p) && p.len() > 0),
    decreases items.len(),
{
    let out = without_empty(items);
    if items.len() > 0 {
        let front = items.drop_last();
        let rest = without_empty(front);
        lemma_without_empty(front);
        assert forall|p: Seq<char>| seq_contains(out, p) <==> (seq_contains(items, p) && p.len()
            > 0) by {
            if seq_contains(items, p) {
                let i = choose|i: int| 0 <= i < items.len() && items[i] == p;
                if i < front.len() {
                    assert(front[i] == p);
                }
            }
            if seq_contains(front, p) {
                let i = choose|i: int| 0 <= i < front.len() && front[i] == p;
                assert(items[i] == p);
            }
            if seq_contains(rest, p) {
                let i = choose|i: int| 0 <= i < rest.len() && rest[i] == p;
                assert(out[i] == p);
            }
            if seq_contains(out, p) {
                let i = choose|i: int| 0 <= i < out.len() && out[i] == p;
                if i < rest.len() {
                    assert(rest[i] == p);
                } else {
                    assert(items[items.len() - 1] == p);
                }
            }
            if p == items.last() && p.len() > 0 {
                assert(items[items.len() - 1] == p);
                assert(out[out.len() - 1] == p);
            }
        }
    }
}

/// `base` without its members that do not occur in `listed`, the others
/// in their order.
pub open spec fn only_listed(base: Seq<Seq<char>>, listed: Seq<Seq<char>>) -> Seq<Seq<char>>
    decreases base.len(),
{
    if base.len() == 0 {
        base
    } else {
        let rest = only_listed(base.drop_last(), listed);
        if seq_contains(listed, base.last()) {
            rest.push(base.last())
        } else {
            rest
        }
    }
}

/// Adding nothing and removing nothing leave a list as it is.
pub proof fn lemma_nothing_to_do(base: Seq<Seq<char>>)
    ensures
        with_added(base, Seq::empty()) == base,
        with_removed(base, Seq::empty()) == base,
    decreases base.len(),
{
    if base.len() > 0 {
        lemma_nothing_to_do(base.drop_last());
        assert(!seq_contains(Seq::<Seq<char>>::empty(), base.last()));
        assert(base.drop_last().push(base.last()) =~= base);
    }
}

/// `only_listed` holds exactly the members of `base` that are in `listed`.
pub proof fn lemma_only_listed(base: Seq<Seq<char>>, listed: Seq<Seq<char>>)
    ensures
        forall|p: Seq<char>|
            seq_contains(only_listed(base, listed), p) <==> (seq_contains(base, p) && seq_contains(
                listed,
                p,
            )),
    decreases base.len(),
{
    let out = only_listed(base, listed);
    if base.len() > 0 {
        let front = base.drop_last();
        let rest = only_listed(front, listed);
        let last = base.last();
        lemma_only_listed(front, listed);
        assert forall|p: Seq<char>| seq_contains(out, p) <==> (seq_contains(base, p)
            && seq_contains(listed, p)) by {
            if seq_contains(base, p) {
                let i = choose|i: int| 0 <= i < base.len() && base[i] == p;
                if i < front.len() {
                    assert(front[i] == p);
                }
            }
            if seq_contains(front, p) {
                let i = choose|i: int| 0 <= i < front.len() && front[i] == p;
                assert(base[i] == p);
            }
            if seq_contains(rest, p) {
                let i = choose|i: int| 0 <= i < rest.len() && rest[i] == p;
                assert(out[i] == p);
            }
            if seq_contains(out, p) {
                let i = choose|i: int| 0 <= i < out.len() && out[i] == p;
                if i < rest.len() {
                    assert(rest[i] == p);
                } else {
                    assert(p == last);
                    assert(base[base.len() - 1] == p);
                }
            }
            if p == last && seq_contains(listed, p) {
                assert(out[out.len() - 1] == p);
            }
        }
    }
}

/// The members of `list` that occur in `listed`.
pub fn keep_listed(list: &[String], listed: &[String]) -> (kept: Vec<String>)
    ensures
        views(kept@) == only_listed(views(list@), views(listed@)),
{
    let mut kept: Vec<String> = Vec::new();
    let mut i: usize = 0;
    assert(views(list@).take(0) =~= Seq::<Seq<char>>::empty());
    while i < list.len()
        invariant
            i <= list.len(),
            views(kept@) == only_listed(views(list@).take(i as int), views(listed@)),
        decreases list.len() - i,
    {
        let ghost before = views(kept@);
        assert(views(list@).take(i + 1).drop_last() =~= views(list@).take(i as int));
        assert(views(list@).take(i + 1).last() == list@[i as int]@);
        if contains_str(listed, list[i].as_str()) {
            kept.push(list[i].clone());
            assert(views(kept@) =~= before.push(list@[i as int]@));
        }
        i += 1;
    }
    assert(views(list@).take(list@.len() as int) =~= views(list@));
    kept
}

/// Appends to `list` those of `items` that are not empty and not in it
/// yet, each once.
pub fn add_new(list: &mut Vec<String>, items: &[String])
    ensures
        views(final(list)@) == with_added(views(old(list)@), views(items@)),
{
    let mut i: usize = 0;
    assert(views(items@).take(0) =~= Seq::<Seq<char>>::empty());
    while i < items.len()
        invariant
            i <= items.len(),
            views(list@) == with_added(views(old(list)@), views(items@).take(i as int)),
        decreases items.len() - i,
    {
        let ghost before = views(list@);
        assert(views(items@).take(i + 1).drop_last() =~= views(items@).take(i as int));
        assert(views(items@).take(i + 1).last() == items@[i as int]@);
        if items[i].as_str().unicode_len() > 0 && !contains_str(list.as_slice(), items[i].as_str()) {
            list.push(items[i].clone());
            assert(views(list@) =~= before.push(items@[i as int]@));
        }
        i += 1;
    }
    assert(views(items@).take(items@.len() as int) =~= views(items@));
}

/// The members of `list` that do not occur in `removed`.
pub fn remove_listed(list: &[String], removed: &[String]) -> (kept: Vec<String>)
    ensures
        views(kept@) == with_removed(views(list@), views(removed@)),
{
    let mut kept: Vec<String> = Vec::new();
    let mut i: usize = 0;
    assert(views(list@).take(0) =~= Seq::<Seq<char>>::empty());
    while i < list.len()
        invariant
            i <= list.len(),
            views(kept@) == with_removed(views(list@).take(i as int), views(removed@)),
        decreases list.len() - i,
    {
        let ghost before = views(kept@);
        assert(views(list@).take(i + 1).drop_last() =~= views(list@).take(i as int));
        assert(views(list@).take(i + 1).last() == list@[i as int]@);
        if !contains_str(removed, list[i].as_str()) {
            kept.push(list[i].clone());
            assert(views(kept@) =~= before.push(list@[i as int]@));
        }
        i += 1;
    }
    assert(views(list@).take(list@.len() as int) =~= views(list@));
    kept
}

/// The members of `list` that are not empty.
pub fn remove_empty(list: &[String]) -> (kept: Vec<String>)
    ensures
        views(kept@) == without_empty(views(list@)),
{
    let mut kept: Vec<String> = Vec::new();
    let mut i: usize = 0;
    assert(views(list@).take(0) =~= Seq::<Seq<char>>::empty());
    while i < list.len()
        invariant
            i <= list.len(),
            views(kept@) == without_empty(views(list@).take(i as int)),
        decreases list.len() - i,
    {
        let ghost before = views(kept@);
        assert(views(list@).take(i + 1).drop_last() =~= views(list@).take(i as int));
        assert(views(list@).take(i + 1).last() == list@[i as int]@);
        if list[i].as_str().unicode_len() > 0 {
            kept.push(list[i].clone());
            assert(views(kept@) =~= before.push(list@[i as int]@));
        }
        i += 1;
    }
    assert(views(list@).take(list@.len() as int) =~= views(list@));
    kept
}

} // verus!
