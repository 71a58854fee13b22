//! What the ranks mean: the effect on the ledger of working through
//! inscriptions one after the other.

use vstd::prelude::*;

use crate::category::categories_of;
use crate::category::law_categories_listed_once;
use crate::category::law_category_names_distinct;
use crate::category::CategoryId;
use crate::decimal::decimal;
use crate::ledger::as_signed;
use crate::ledger::initial_store;
use crate::ledger::initialised;
use crate::ledger::law_cursor_reads_back;
use crate::ledger::law_init_fills_empty_tables;
use crate::ledger::law_recording_keeps_ranks_sound;
use crate::ledger::recorded;
use crate::ledger::StatementModel;
use crate::ledger::Store;

verus! {

/// Whether every category can take one more rank.
pub open spec fn has_room(store: Store) -> bool {
    &&& initialised(store)
    &&& forall|c: CategoryId| store.counts[#[trigger] c.name()] < i64::MAX
}

/// The tables once the rank of an inscription is recorded in each of `cats`. A
/// recording that fails is passed over.
pub open spec fn recorded_in_all(store: Store, cats: Seq<CategoryId>, id: Seq<char>) -> Store
    decreases cats.len(),
{
    if cats.len() == 0 {
        store
    } else {
        let before = recorded_in_all(store, cats.drop_last(), id);
        match recorded(before, cats.last().name(), id) {
            Some((after, rank)) => after,
            None => before,
        }
    }
}

/// The tables once the inscription number `n`, which has the id `id` and sits
/// on `sat`, is worked through: it is noted, ranked in the categories of its
/// sat, and the cursor is put on the number behind it.
pub open spec fn ingested(store: Store, n: u64, id: Seq<char>, sat: u64) -> Store {
    let marked = store.execute(
        StatementModel::MarkProcessed { number: as_signed(n), inscription_id: id },
    )->0;
    let ranked = recorded_in_all(marked, categories_of(sat as nat), id);
    ranked.execute(StatementModel::SetCursor { text: decimal((n + 1) as nat) })->0
}

/// The tables of a new database once the inscriptions `items`, each an id and a
/// sat, are worked through under the numbers from zero on.
pub open spec fn ingested_all(items: Seq<(Seq<char>, u64)>) -> Store
    decreases items.len(),
{
    if items.len() == 0 {
        initial_store()
    } else {
        ingested(
            ingested_all(items.drop_last()),
            (items.len() - 1) as u64,
            items.last().0,
            items.last().1,
        )
    }
}

/// How many of `items` sit on a sat of the category.
pub open spec fn members(items: Seq<(Seq<char>, u64)>, c: CategoryId) -> nat
    decreases items.len(),
{
    if items.len() == 0 {
        0
    } else {
        members(items.drop_last(), c) + (if c.holds(items.last().1 as nat) {
            1nat
        } else {
            0nat
        })
    }
}

/// No inscription occurs twice in `items`.
pub open spec fn distinct_ids(items: Seq<(Seq<char>, u64)>) -> bool {
    forall|i: int, j: int|
        0 <= i < j < items.len() ==> (#[trigger] items[i]).0 != (#[trigger] items[j]).0
}

pub(crate) proof fn lemma_recorded_in_all(store: Store, cats: Seq<CategoryId>, id: Seq<char>)
    requires
        has_room(store),
        cats.no_duplicates(),
    ensures
        ({
            let after = recorded_in_all(store, cats, id);
            &&& initialised(after)
            &&& after.cursor == store.cursor
            &&& after.processed == store.processed
            &&& store.sound() ==> after.sound()
            &&& forall|c: CategoryId|
                #![trigger c.name()]
                if cats.contains(c) && store.rank(c.name(), id) is None {
                    &&& after.rank(c.name(), id) == Some((store.counts[c.name()] + 1) as i64)
                    &&& after.counts[c.name()] == store.counts[c.name()] + 1
                } else {
                    &&& after.rank(c.name(), id) == store.rank(c.name(), id)
                    &&& after.counts[c.name()] == store.counts[c.name()]
                }
            &&& forall|c: Seq<char>, i: Seq<char>| i != id ==> #[trigger] after.rank(c, i) == store.rank(c, i)
        }),
    decreases cats.len(),
{
    if cats.len() > 0 {
        let shorter = cats.drop_last();
        let last = cats.last();
        lemma_recorded_in_all(store, shorter, id);
        let before = recorded_in_all(store, shorter, id);
        assert(!shorter.contains(last));
        assert forall|c: CategoryId| cats.contains(c) <==> shorter.contains(c) || c == last by {
            if shorter.contains(c) {
                let k = choose|k: int| 0 <= k < shorter.len() && shorter[k] == c;
                assert(cats[k] == c);
            }
            if cats.contains(c) && c != last {
                let k = choose|k: int| 0 <= k < cats.len() && cats[k] == c;
                assert(shorter[k] == c);
            }
            if c == last {
                assert(cats[cats.len() - 1] == c);
            }
        }
        assert(before.counts[last.name()] == store.counts[last.name()]);
        assert(recorded(before, last.name(), id) is Some);
        let after = recorded_in_all(store, cats, id);
        if store.sound() {
            law_recording_keeps_ranks_sound(before, last.name(), id);
        }
        assert forall|c: CategoryId|
            #![trigger c.name()]
            if cats.contains(c) && store.rank(c.name(), id) is None {
                &&& after.rank(c.name(), id) == Some((store.counts[c.name()] + 1) as i64)
                &&& after.counts[c.name()] == store.counts[c.name()] + 1
            } else {
                &&& after.rank(c.name(), id) == store.rank(c.name(), id)
                &&& after.counts[c.name()] == store.counts[c.name()]
            } by {
            law_category_names_distinct(c, last);
        }
        assert forall|c: Seq<char>, i: Seq<char>| i != id implies #[trigger] after.rank(c, i) == store.rank(
            c,
            i,
        ) by {
            assert(after.rank(c, i) == before.rank(c, i));
        }
    }
}

proof fn lemma_recorded_in_all_settled(store: Store, cats: Seq<CategoryId>, id: Seq<char>)
    requires
        forall|c: CategoryId| cats.contains(c) ==> store.rank(#[trigger] c.name(), id) is Some,
    ensures
        recorded_in_all(store, cats, id) == store,
    decreases cats.len(),
{
    if cats.len() > 0 {
        let shorter = cats.drop_last();
        assert forall|c: CategoryId| shorter.contains(c) implies store.rank(#[trigger] c.name(), id) is Some by {
            let k = choose|k: int| 0 <= k < shorter.len() && shorter[k] == c;
            assert(cats[k] == c);
        }
        lemma_recorded_in_all_settled(store, shorter, id);
        assert(cats[cats.len() - 1] == cats.last());
        assert(cats.contains(cats.last()));
        assert(store.rank(cats.last().name(), id) is Some);
    }
}

/// Working through an inscription keeps the tables sound, ranks it in exactly
/// the categories of its sat, leaves the ranks of all others as they are, and
/// puts the cursor on the next number.
pub proof fn law_ingesting_one(store: Store, n: u64, id: Seq<char>, sat: u64)
    requires
        store.cursor is Some,
        forall|c: CategoryId| store.counts.contains_key(#[trigger] c.name()),
        forall|c: CategoryId| store.counts[#[trigger] c.name()] < i64::MAX,
        store.sound(),
        n < u64::MAX,
    ensures
        ({
            let after = ingested(store, n, id, sat);
            &&& after.sound()
            &&& initialised(after)
            &&& after.cursor_number() == Some((n + 1) as nat)
            &&& after.processed.contains_key(as_signed(n))
            &&& forall|c: CategoryId|
                c.holds(sat as nat) ==> after.rank(#[trigger] c.name(), id) is Some
            &&& forall|c: CategoryId|
                !c.holds(sat as nat) ==> after.rank(#[trigger] c.name(), id) == store.rank(c.name(), id)
            &&& forall|c: Seq<char>, i: Seq<char>| i != id ==> #[trigger] after.rank(c, i) == store.rank(c, i)
        }),
{
    let marked = store.execute(
        StatementModel::MarkProcessed { number: as_signed(n), inscription_id: id },
    )->0;
    let cats = categories_of(sat as nat);
    law_categories_listed_once(sat as nat);
    lemma_sound_of_tables(store, marked);
    assert(has_room(marked));
    lemma_recorded_in_all(marked, cats, id);
    let ranked = recorded_in_all(marked, cats, id);
    law_cursor_reads_back(ranked, (n + 1) as u64);
    let after = ingested(store, n, id, sat);
    lemma_sound_of_tables(ranked, after);
    assert forall|c: CategoryId| c.holds(sat as nat) implies after.rank(#[trigger] c.name(), id) is Some by {
        assert(cats.contains(c));
    }
    assert forall|c: CategoryId| !c.holds(sat as nat) implies after.rank(#[trigger] c.name(), id) == store.rank(c.name(), id) by {
        assert(!cats.contains(c));
    }
    assert forall|c: Seq<char>, i: Seq<char>| i != id implies #[trigger] after.rank(c, i) == store.rank(c, i) by {
        assert(ranked.rank(c, i) == marked.rank(c, i));
    }
}

proof fn lemma_sound_of_tables(a: Store, b: Store)
    requires
        a.counts == b.counts,
        a.ranks == b.ranks,
    ensures
        a.sound() == b.sound(),
{
    assert forall|c: Seq<char>, r: i64| a.holds_rank(c, r) == b.holds_rank(c, r) by {}
    assert(a.sound() ==> b.sound()) by {
        if a.sound() {
            assert forall|c: Seq<char>, r: i64| b.counts.contains_key(c) && 1 <= r <= b.counts[c] implies #[trigger] b.holds_rank(c, r) by {
                assert(a.counts.contains_key(c));
                assert(a.holds_rank(c, r));
            }
        }
    }
    assert(b.sound() ==> a.sound()) by {
        if b.sound() {
            assert forall|c: Seq<char>, r: i64| a.counts.contains_key(c) && 1 <= r <= a.counts[c] implies #[trigger] a.holds_rank(c, r) by {
                assert(b.counts.contains_key(c));
                assert(b.holds_rank(c, r));
            }
        }
    }
}

/// An inscription that is worked through a second time, as after a failure
/// before the cursor was stored, changes nothing.
pub proof fn law_ingesting_again(store: Store, n: u64, id: Seq<char>, sat: u64)
    requires
        store.cursor is Some,
        forall|c: CategoryId| store.counts.contains_key(#[trigger] c.name()),
        forall|c: CategoryId| store.counts[#[trigger] c.name()] < i64::MAX,
        n < u64::MAX,
    ensures
        ({
            let once = ingested(store, n, id, sat);
            ingested(once, n, id, sat) == once
        }),
{
    let cats = categories_of(sat as nat);
    law_categories_listed_once(sat as nat);
    let marked = store.execute(
        StatementModel::MarkProcessed { number: as_signed(n), inscription_id: id },
    )->0;
    lemma_recorded_in_all(marked, cats, id);
    let ranked = recorded_in_all(marked, cats, id);
    let once = ingested(store, n, id, sat);
    assert forall|c: CategoryId| cats.contains(c) implies once.rank(#[trigger] c.name(), id) is Some by {
        assert(once.rank(c.name(), id) == ranked.rank(c.name(), id));
    }
    lemma_recorded_in_all_settled(once, cats, id);
    assert(once.execute(
        StatementModel::MarkProcessed { number: as_signed(n), inscription_id: id },
    )->0 =~= once);
}

/// The rank of an inscription in a category is its place among the
/// inscriptions of that category, in the order of their numbers; outside the
/// categories of its sat it has none. The count of a category is the number of
/// inscriptions in it, and the cursor is on the first number not worked
/// through.
pub proof fn law_ranks_are_places(items: Seq<(Seq<char>, u64)>)
    requires
        forall|i: int, j: int|
            0 <= i < j < items.len() ==> (#[trigger] items[i]).0 != (#[trigger] items[j]).0,
        items.len() < i64::MAX,
    ensures
        ({
            let store = ingested_all(items);
            &&& store.sound()
            &&& initialised(store)
            &&& store.cursor_number() == Some(items.len())
            &&& forall|c: CategoryId| store.counts[#[trigger] c.name()] == members(items, c)
            &&& forall|k: int, c: CategoryId|
                #![trigger items[k], c.name()]
                0 <= k < items.len() ==> store.rank(c.name(), items[k].0) == (if c.holds(
                    items[k].1 as nat,
                ) {
                    Some(members(items.take(k + 1), c) as i64)
                } else {
                    None
                })
            &&& forall|j: i64|
                #[trigger] store.processed.contains_key(j) <==> 0 <= j < items.len()
            &&& forall|j: i64|
                0 <= j < items.len() ==> #[trigger] store.processed[j] == items[j as int].0
            &&& forall|i: Seq<char>, c: CategoryId|
                (forall|k: int| 0 <= k < items.len() ==> (#[trigger] items[k]).0 != i)
                    ==> #[trigger] store.rank(c.name(), i) is None
        }),
    decreases items.len(),
{
    law_init_fills_empty_tables();
    if items.len() > 0 {
        let earlier = items.drop_last();
        let n = (items.len() - 1) as u64;
        let (id, sat) = items.last();
        law_ranks_are_places(earlier);
        let before = ingested_all(earlier);
        let after = ingested_all(items);
        lemma_members_bounded(earlier);
        assert(has_room(before));
        law_ingesting_one(before, n, id, sat);
        let marked = before.execute(
            StatementModel::MarkProcessed { number: as_signed(n), inscription_id: id },
        )->0;
        let cats = categories_of(sat as nat);
        law_categories_listed_once(sat as nat);
        lemma_recorded_in_all(marked, cats, id);
        assert(forall|k: int| 0 <= k < earlier.len() ==> earlier[k] == #[trigger] items[k]);
        assert forall|c: CategoryId| before.rank(#[trigger] c.name(), id) is None by {
            assert(forall|k: int| 0 <= k < earlier.len() ==> (#[trigger] earlier[k]).0 != id);
        }
        assert forall|c: CategoryId| after.counts[#[trigger] c.name()] == members(items, c) by {
            assert(cats.contains(c) <==> c.holds(sat as nat));
            assert(marked.rank(c.name(), id) == before.rank(c.name(), id));
        }
        assert forall|k: int, c: CategoryId|
            #![trigger items[k], c.name()]
            0 <= k < items.len() implies after.rank(c.name(), items[k].0) == (if c.holds(
            items[k].1 as nat,
        ) {
            Some(members(items.take(k + 1), c) as i64)
        } else {
            None
        }) by {
            assert(cats.contains(c) <==> c.holds(sat as nat));
            assert(marked.rank(c.name(), id) == before.rank(c.name(), id));
            if k < earlier.len() {
                assert(items.take(k + 1) =~= earlier.take(k + 1));
                assert(earlier[k] == items[k]);
                assert(items[k].0 != items[items.len() - 1].0);
                assert(after.rank(c.name(), items[k].0) == before.rank(c.name(), items[k].0));
            } else {
                assert(items.take(k + 1) =~= items);
            }
        }
        assert forall|i: Seq<char>, c: CategoryId|
            (forall|k: int| 0 <= k < items.len() ==> (#[trigger] items[k]).0 != i) implies #[trigger] after.rank(
            c.name(),
            i,
        ) is None by {
            assert(items[items.len() - 1].0 != i);
            assert(after.rank(c.name(), i) == before.rank(c.name(), i));
            assert forall|k: int| 0 <= k < earlier.len() implies (#[trigger] earlier[k]).0 != i by {
                assert(items[k].0 != i);
            }
        }
        assert(after.processed == before.processed.insert(n as i64, id));
    }
}

pub(crate) proof fn lemma_members_bounded(items: Seq<(Seq<char>, u64)>)
    ensures
        forall|c: CategoryId| #[trigger] members(items, c) <= items.len(),
    decreases items.len(),
{
    if items.len() > 0 {
        lemma_members_bounded(items.drop_last());
        assert forall|c: CategoryId| #[trigger] members(items, c) <= items.len() by {
            assert(members(items.drop_last(), c) <= items.drop_last().len());
        }
    }
}

/// What working through one inscription does to the tables, told by the sat: in
/// each category that the sat is in, an inscription without a rank gets the one
/// behind the count, and the count follows; in all others, and for every other
/// inscription, ranks and counts stay.
pub proof fn law_ingesting_ranks_by_the_sat(store: Store, n: u64, id: Seq<char>, sat: u64)
    requires
        store.cursor is Some,
        forall|c: CategoryId| store.counts.contains_key(#[trigger] c.name()),
        forall|c: CategoryId| store.counts[#[trigger] c.name()] < i64::MAX,
        n < u64::MAX,
    ensures
        ({
            let after = ingested(store, n, id, sat);
            &&& after.cursor == Some(decimal((n + 1) as nat))
            &&& after.processed == if store.processed.contains_key(as_signed(n)) {
                store.processed
            } else {
                store.processed.insert(as_signed(n), id)
            }
            &&& forall|c: CategoryId|
                #![trigger c.name()]
                if c.holds(sat as nat) && !store.ranks.contains_key((id, c.name())) {
                    &&& after.rank(c.name(), id) == Some((store.counts[c.name()] + 1) as i64)
                    &&& after.counts[c.name()] == store.counts[c.name()] + 1
                } else {
                    &&& after.rank(c.name(), id) == store.rank(c.name(), id)
                    &&& after.counts[c.name()] == store.counts[c.name()]
                }
            &&& forall|c: Seq<char>, i: Seq<char>|
                i != id ==> #[trigger] after.rank(c, i) == store.rank(c, i)
        }),
{
    let marked = store.execute(
        StatementModel::MarkProcessed { number: as_signed(n), inscription_id: id },
    )->0;
    let cats = categories_of(sat as nat);
    law_categories_listed_once(sat as nat);
    assert(has_room(marked));
    lemma_recorded_in_all(marked, cats, id);
    let ranked = recorded_in_all(marked, cats, id);
    let after = ingested(store, n, id, sat);
    assert forall|c: CategoryId|
        #![trigger c.name()]
        if c.holds(sat as nat) && !store.ranks.contains_key((id, c.name())) {
            &&& after.rank(c.name(), id) == Some((store.counts[c.name()] + 1) as i64)
            &&& after.counts[c.name()] == store.counts[c.name()] + 1
        } else {
            &&& after.rank(c.name(), id) == store.rank(c.name(), id)
            &&& after.counts[c.name()] == store.counts[c.name()]
        } by {
        assert(cats.contains(c) <==> c.holds(sat as nat));
        assert(marked.rank(c.name(), id) == store.rank(c.name(), id));
        assert(after.rank(c.name(), id) == ranked.rank(c.name(), id));
    }
    assert forall|c: Seq<char>, i: Seq<char>| i != id implies #[trigger] after.rank(c, i)
        == store.rank(c, i) by {
        assert(ranked.rank(c, i) == marked.rank(c, i));
    }
}

/// How many inscriptions of a row sit in a category: one more with each that
/// does, told by its sat.
pub proof fn law_members_are_counted(items: Seq<(Seq<char>, u64)>, id: Seq<char>, sat: u64)
    ensures
        members(Seq::empty(), CategoryId::Block9) == 0,
        members(Seq::empty(), CategoryId::Palindrome) == 0,
        members(Seq::empty(), CategoryId::TrumpCasascius) == 0,
        forall|c: CategoryId| #[trigger]
            members(items.push((id, sat)), c) == members(items, c) + (if c.holds(sat as nat) {
                1int
            } else {
                0int
            }),
{
    assert(items.push((id, sat)).drop_last() =~= items);
}

} // verus!
