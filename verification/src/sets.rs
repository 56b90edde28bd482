//! Sequences that stand for sets: every value once, in first-come order.

use vstd::prelude::*;

verus! {

/// `items` without repetitions: each value once, where it first occurs.
pub open spec fn distinct<A>(items: Seq<A>) -> Seq<A>
    decreases items.len(),
{
    if items.len() == 0 {
        items
    } else {
        let before = distinct(items.drop_last());
        if before.contains(items.last()) {
            before
        } else {
            before.push(items.last())
        }
    }
}

/// Dropping repetitions leaves no value twice, loses and adds no value, and
/// changes nothing where no value occurs twice.
pub proof fn lemma_distinct<A>(items: Seq<A>)
    ensures
        distinct(items).no_duplicates(),
        distinct(items).len() <= items.len(),
        forall|item: A| #[trigger] distinct(items).contains(item) <==> items.contains(item),
        distinct(items).to_set() == items.to_set(),
        items.no_duplicates() ==> distinct(items) == items,
    decreases items.len(),
{
    let kept = distinct(items);
    if items.len() > 0 {
        let rest = items.drop_last();
        let last = items.last();
        let before = distinct(rest);
        lemma_distinct(rest);
        assert forall|item: A| #[trigger] kept.contains(item) <==> items.contains(item) by {
            assert(items.contains(item) <==> (rest.contains(item) || item == last)) by {
                if items.contains(item) {
                    let i = choose|i: int| 0 <= i < items.len() && items[i] == item;
                    if i < rest.len() {
                        assert(rest[i] == item);
                    }
                }
                if rest.contains(item) {
                    let i = choose|i: int| 0 <= i < rest.len() && rest[i] == item;
                    assert(items[i] == item);
                }
                assert(items[items.len() - 1] == last);
            }
            assert(before.contains(item) <==> rest.contains(item));
            if !before.contains(last) {
                assert(kept.contains(item) <==> (before.contains(item) || item == last)) by {
                    if kept.contains(item) {
                        let i = choose|i: int| 0 <= i < kept.len() && kept[i] == item;
                        if i < before.len() {
                            assert(before[i] == item);
                        }
                    }
                    if before.contains(item) {
                        let i = choose|i: int| 0 <= i < before.len() && before[i] == item;
                        assert(kept[i] == item);
                    }
                    assert(kept[kept.len() - 1] == last);
                }
            }
        }
        if !before.contains(last) {
            assert forall|i: int, j: int|
                0 <= i < kept.len() && 0 <= j < kept.len() && i != j implies kept[i]
                != kept[j] by {
                if i < before.len() {
                    assert(before[i] == kept[i]);
                    assert(before.contains(kept[i]));
                }
                if j < before.len() {
                    assert(before[j] == kept[j]);
                    assert(before.contains(kept[j]));
                }
            }
        }
        if items.no_duplicates() {
            assert(rest.no_duplicates()) by {
                assert forall|i: int, j: int|
                    0 <= i < rest.len() && 0 <= j < rest.len() && i != j implies rest[i]
                    != rest[j] by {
                    assert(rest[i] == items[i] && rest[j] == items[j]);
                }
            }
            if rest.contains(last) {
                let i = choose|i: int| 0 <= i < rest.len() && rest[i] == last;
                assert(items[i] == items[items.len() - 1]);
            }
            assert(kept =~= items);
        }
    }
    assert(kept.to_set() =~= items.to_set());
}

/// Whether one of `items` reads `wanted`.
fn contains_text(items: &Vec<String>, wanted: &String) -> (found: bool)
    ensures
        found == items.deep_view().contains(wanted@),
{
    let mut i: usize = 0;
    while i < items.len()
        invariant
            i <= items.len(),
            forall|k: int| 0 <= k < i ==> items.deep_view()[k] != wanted@,
        decreases items.len() - i,
    {
        if items[i] == *wanted {
            assert(items.deep_view()[i as int] == wanted@);
            return true;
        }
        i += 1;
    }
    false
}

/// The strings of `items` without repetitions, each where it first occurs.
pub fn distinct_strings(items: &Vec<String>) -> (kept: Vec<String>)
    ensures
        kept.deep_view() == distinct(items.deep_view()),
{
    let ghost all = items.deep_view();
    let mut kept: Vec<String> = Vec::new();
    let mut i: usize = 0;
    assert(kept.deep_view() =~= distinct(all.take(0)));
    while i < items.len()
        invariant
            i <= items.len(),
            all == items.deep_view(),
            kept.deep_view() == distinct(all.take(i as int)),
        decreases items.len() - i,
    {
        let ghost before = kept.deep_view();
        let seen = contains_text(&kept, &items[i]);
        if !seen {
            kept.push(items[i].clone());
        }
        proof {
            let upto = all.take(i + 1);
            assert(upto.drop_last() =~= all.take(i as int));
            assert(upto.last() == items[i as int]@);
            if !seen {
                assert(kept.deep_view() =~= before.push(items[i as int]@));
            } else {
                assert(kept.deep_view() =~= before);
            }
        }
        i += 1;
    }
    assert(all.take(items.len() as int) =~= all);
    kept
}

} // verus!
