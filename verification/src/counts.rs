//! The counts of the categories, as they are reported.

use vstd::prelude::*;

use crate::ledger::as_unsigned;
use crate::ledger::law_same_bits;
use crate::ledger::to_unsigned;
use crate::text::law_text_order;
use crate::text::same_text;
use crate::text::text_before;
use crate::text::text_lt;

verus! {

/// Whether the names ascend, no two of them the same.
pub open spec fn names_ascend(e: Seq<(String, u64)>) -> bool {
    forall|i: int, j: int|
        0 <= i < j < e.len() ==> text_lt((#[trigger] e[i]).0@, (#[trigger] e[j]).0@)
}

/// Whether `name` stands at `i`.
pub open spec fn named_at(e: Seq<(String, u64)>, name: Seq<char>, i: int) -> bool {
    0 <= i < e.len() && e[i].0@ == name
}

/// The counts by name.
pub open spec fn by_name(e: Seq<(String, u64)>) -> Map<Seq<char>, u64> {
    Map::new(
        |name: Seq<char>| exists|i: int| named_at(e, name, i),
        |name: Seq<char>| e[choose|i: int| named_at(e, name, i)].1,
    )
}

/// What the rows of the counts table give, by name: a row replaces an earlier
/// one of the same name.
pub open spec fn rows_by_name(rows: Seq<(String, i64)>) -> Map<Seq<char>, u64>
    decreases rows.len(),
{
    if rows.len() == 0 {
        Map::empty()
    } else {
        rows_by_name(rows.drop_last()).insert(rows.last().0@, as_unsigned(rows.last().1))
    }
}

/// How many inscriptions have a rank, by category, in the order of the names.
#[derive(Debug)]
pub struct CategoryCounts {
    entries: Vec<(String, u64)>,
}

impl View for CategoryCounts {
    type V = Map<Seq<char>, u64>;

    closed spec fn view(&self) -> Map<Seq<char>, u64> {
        by_name(self.entries@)
    }
}

impl CategoryCounts {
    #[verifier::type_invariant]
    spec fn in_order(self) -> bool {
        names_ascend(self.entries@)
    }

    /// No category at all.
    pub fn none() -> (r: CategoryCounts)
        ensures
            r@ == Map::<Seq<char>, u64>::empty(),
    {
        let r = CategoryCounts { entries: Vec::new() };
        proof {
            lemma_by_name_empty(r.entries@);
        }
        r
    }

    /// The count of a category, where there is one.
    pub fn get(&self, category_id: &str) -> (r: Option<u64>)
        ensures
            r == if self@.contains_key(category_id@) {
                Some(self@[category_id@])
            } else {
                None
            },
    {
        proof {
            use_type_invariant(self);
        }
        let e = &self.entries;
        let n: usize = e.len();
        for i in 0..n
            invariant
                n == e@.len(),
                e@ == self.entries@,
                names_ascend(e@),
                forall|j: int| 0 <= j < i ==> !named_at(e@, category_id@, j),
        {
            if same_text(e[i].0.as_str(), category_id) {
                proof {
                    assert(named_at(e@, category_id@, i as int));
                    lemma_by_name(e@, i as int);
                }
                return Some(e[i].1);
            }
        }
        None
    }

    /// The names with their counts, in the order of the names.
    pub fn entries(&self) -> (r: &Vec<(String, u64)>)
        ensures
            names_ascend(r@),
            by_name(r@) == self@,
    {
        proof {
            use_type_invariant(self);
        }
        &self.entries
    }
}

proof fn lemma_by_name_empty(e: Seq<(String, u64)>)
    requires
        e.len() == 0,
    ensures
        by_name(e) == Map::<Seq<char>, u64>::empty(),
{
    assert forall|name: Seq<char>| !by_name(e).dom().contains(name) by {
        if exists|i: int| named_at(e, name, i) {
            let i = choose|i: int| named_at(e, name, i);
            assert(named_at(e, name, i));
        }
    }
    assert(by_name(e) =~= Map::<Seq<char>, u64>::empty());
}

/// A name stands at one place only, and its count is the one there.
proof fn lemma_by_name(e: Seq<(String, u64)>, i: int)
    requires
        names_ascend(e),
        0 <= i < e.len(),
    ensures
        by_name(e).contains_key(e[i].0@),
        by_name(e)[e[i].0@] == e[i].1,
{
    let name = e[i].0@;
    assert(named_at(e, name, i));
    let k = choose|k: int| named_at(e, name, k);
    law_text_order(name, name, name);
    if k < i {
        assert(text_lt(e[k].0@, e[i].0@));
    } else if i < k {
        assert(text_lt(e[i].0@, e[k].0@));
    }
}

/// Sets the count of a name.
fn put(e: &mut Vec<(String, u64)>, name: String, count: u64)
    requires
        names_ascend(old(e)@),
    ensures
        names_ascend(final(e)@),
        by_name(final(e)@) == by_name(old(e)@).insert(name@, count),
{
    let ghost before = e@;
    let n: usize = e.len();
    let mut at: usize = 0;
    while at < n && text_before(e[at].0.as_str(), name.as_str())
        invariant
            n == e@.len(),
            e@ == before,
            at <= n,
            forall|j: int| 0 <= j < at ==> text_lt((#[trigger] e@[j]).0@, name@),
        decreases n - at,
    {
        at += 1;
    }
    if at < n && same_text(e[at].0.as_str(), name.as_str()) {
        let ghost new = (name, count);
        e.set(at, (name, count));
        proof {
            assert(e@ == before.update(at as int, new));
            assert forall|i: int, j: int| 0 <= i < j < e@.len() implies text_lt(
                (#[trigger] e@[i]).0@,
                (#[trigger] e@[j]).0@,
            ) by {
                assert(text_lt(before[i].0@, before[j].0@));
            }
            lemma_updated(before, e@, at as int);
        }
    } else {
        let ghost new = (name, count);
        e.insert(at, (name, count));
        proof {
            assert(e@ == before.insert(at as int, new));
            if at < n {
                law_text_order(new.0@, before[at as int].0@, new.0@);
            }
            assert forall|i: int, j: int| 0 <= i < j < e@.len() implies text_lt(
                (#[trigger] e@[i]).0@,
                (#[trigger] e@[j]).0@,
            ) by {
                if i < at && j > at {
                    assert(text_lt(before[i].0@, before[j - 1].0@));
                } else if j < at {
                    assert(text_lt(before[i].0@, before[j].0@));
                } else if i > at {
                    assert(text_lt(before[i - 1].0@, before[j - 1].0@));
                } else if i == at {
                    assert(text_lt(new.0@, before[at as int].0@));
                    if j - 1 > at {
                        assert(text_lt(before[at as int].0@, before[j - 1].0@));
                        law_text_order(new.0@, before[at as int].0@, before[j - 1].0@);
                    }
                } else {
                    assert(text_lt(before[i].0@, name@));
                }
            }
            lemma_inserted(before, e@, at as int);
        }
    }
}

proof fn lemma_updated(before: Seq<(String, u64)>, after: Seq<(String, u64)>, at: int)
    requires
        names_ascend(before),
        names_ascend(after),
        0 <= at < before.len(),
        after == before.update(at, after[at]),
        after[at].0@ == before[at].0@,
    ensures
        by_name(after) == by_name(before).insert(after[at].0@, after[at].1),
{
    let expected = by_name(before).insert(after[at].0@, after[at].1);
    lemma_by_name(after, at);
    assert forall|name: Seq<char>| #[trigger]
        by_name(after).dom().contains(name) implies expected.dom().contains(name) && expected[name]
        == by_name(after)[name] by {
        let k = choose|k: int| named_at(after, name, k);
        assert(named_at(after, name, k));
        lemma_by_name(after, k);
        lemma_by_name(before, k);
    }
    assert forall|name: Seq<char>| #[trigger]
        expected.dom().contains(name) implies by_name(after).dom().contains(name) by {
        if name != after[at].0@ {
            let k = choose|k: int| named_at(before, name, k);
            assert(named_at(before, name, k));
            assert(named_at(after, name, k));
        }
    }
    assert(by_name(after).dom() =~= expected.dom());
    assert(by_name(after) =~= expected);
}

proof fn lemma_inserted(before: Seq<(String, u64)>, after: Seq<(String, u64)>, at: int)
    requires
        names_ascend(before),
        names_ascend(after),
        0 <= at <= before.len(),
        after == before.insert(at, after[at]),
    ensures
        by_name(after) == by_name(before).insert(after[at].0@, after[at].1),
{
    let expected = by_name(before).insert(after[at].0@, after[at].1);
    lemma_by_name(after, at);
    assert forall|name: Seq<char>| #[trigger]
        by_name(after).dom().contains(name) implies expected.dom().contains(name) && expected[name]
        == by_name(after)[name] by {
        let k = choose|k: int| named_at(after, name, k);
        assert(named_at(after, name, k));
        lemma_by_name(after, k);
        if k < at {
            lemma_by_name(before, k);
            assert(text_lt(after[k].0@, after[at].0@));
            law_text_order(name, name, name);
        } else if k > at {
            assert(after[k] == before[k - 1]);
            lemma_by_name(before, k - 1);
            assert(text_lt(after[at].0@, after[k].0@));
            law_text_order(name, name, name);
        }
    }
    assert forall|name: Seq<char>| #[trigger]
        expected.dom().contains(name) implies by_name(after).dom().contains(name) by {
        if name != after[at].0@ {
            let k = choose|k: int| named_at(before, name, k);
            assert(named_at(before, name, k));
            if k < at {
                assert(named_at(after, name, k));
            } else {
                assert(named_at(after, name, k + 1));
            }
        }
    }
    assert(by_name(after).dom() =~= expected.dom());
    assert(by_name(after) =~= expected);
}

/// The counts that the rows of the counts table give. A stored count is read by
/// its bits, so one below zero comes out as a very large one.
pub fn db_get_category_counts(rows: Vec<(String, i64)>) -> (r: CategoryCounts)
    ensures
        r@ == rows_by_name(rows@),
{
    let mut e: Vec<(String, u64)> = Vec::new();
    let n: usize = rows.len();
    assert(rows@.take(0) =~= Seq::<(String, i64)>::empty());
    proof {
        lemma_by_name_empty(e@);
    }
    for i in 0..n
        invariant
            n == rows@.len(),
            names_ascend(e@),
            by_name(e@) == rows_by_name(rows@.take(i as int)),
    {
        assert(rows@.take(i + 1).drop_last() =~= rows@.take(i as int));
        put(&mut e, rows[i].0.clone(), to_unsigned(rows[i].1));
    }
    assert(rows@.take(n as int) =~= rows@);
    CategoryCounts { entries: e }
}

/// Where no two rows have the same name, the count of each row is told under
/// its name, and no other.
pub proof fn law_every_row_is_counted(rows: Seq<(String, i64)>)
    requires
        forall|i: int, j: int|
            0 <= i < j < rows.len() ==> (#[trigger] rows[i]).0@ != (#[trigger] rows[j]).0@,
    ensures
        forall|i: int|
            0 <= i < rows.len() ==> rows_by_name(rows).contains_key((#[trigger] rows[i]).0@)
                && rows_by_name(rows)[rows[i].0@] == as_unsigned(rows[i].1),
        forall|name: Seq<char>| #[trigger]
            rows_by_name(rows).contains_key(name) ==> exists|i: int|
                0 <= i < rows.len() && (#[trigger] rows[i]).0@ == name,
    decreases rows.len(),
{
    if rows.len() > 0 {
        let earlier = rows.drop_last();
        assert forall|i: int, j: int| 0 <= i < j < earlier.len() implies (
        #[trigger] earlier[i]).0@ != (#[trigger] earlier[j]).0@ by {
            assert(rows[i].0@ != rows[j].0@);
        }
        law_every_row_is_counted(earlier);
        assert forall|i: int| 0 <= i < rows.len() implies rows_by_name(rows).contains_key(
            (#[trigger] rows[i]).0@,
        ) && rows_by_name(rows)[rows[i].0@] == as_unsigned(rows[i].1) by {
            if i < earlier.len() {
                assert(earlier[i] == rows[i]);
                assert(rows[i].0@ != rows[rows.len() - 1].0@);
            }
        }
        assert forall|name: Seq<char>| #[trigger]
            rows_by_name(rows).contains_key(name) implies exists|i: int|
            0 <= i < rows.len() && (#[trigger] rows[i]).0@ == name by {
            if name == rows.last().0@ {
                assert(rows[rows.len() - 1].0@ == name);
            } else {
                assert(rows_by_name(earlier).contains_key(name));
                let i = choose|i: int| 0 <= i < earlier.len() && (#[trigger] earlier[i]).0@ == name;
                assert(rows[i].0@ == name);
            }
        }
    }
}

/// The names with their counts, in the order of the names, tell the counts: each
/// name is told with its count, no name twice, and no other name.
pub proof fn law_entries_tell_the_counts(e: Seq<(String, u64)>)
    requires
        names_ascend(e),
    ensures
        forall|i: int, j: int|
            0 <= i < j < e.len() ==> text_lt((#[trigger] e[i]).0@, (#[trigger] e[j]).0@),
        forall|i: int|
            0 <= i < e.len() ==> by_name(e).contains_key((#[trigger] e[i]).0@) && by_name(
                e,
            )[e[i].0@] == e[i].1,
        forall|name: Seq<char>| #[trigger]
            by_name(e).contains_key(name) ==> exists|i: int|
                0 <= i < e.len() && (#[trigger] e[i]).0@ == name,
{
    assert forall|i: int| 0 <= i < e.len() implies by_name(e).contains_key((#[trigger] e[i]).0@)
        && by_name(e)[e[i].0@] == e[i].1 by {
        assert(named_at(e, e[i].0@, i));
        lemma_by_name(e, i);
    }
    assert forall|name: Seq<char>| #[trigger] by_name(e).contains_key(name) implies exists|i: int|
        0 <= i < e.len() && (#[trigger] e[i]).0@ == name by {
        let i = choose|i: int| named_at(e, name, i);
        assert(e[i].0@ == name);
    }
}

/// A row more changes the count of its name, and of no other, to what it says by
/// its bits, whether the name was told before or not.
pub proof fn law_one_more_row(rows: Seq<(String, i64)>, row: (String, i64), name: Seq<char>)
    ensures
        !rows_by_name(Seq::<(String, i64)>::empty()).contains_key(name),
        rows_by_name(rows.push(row)).contains_key(row.0@),
        (rows_by_name(rows.push(row))[row.0@] - row.1) % 0x1_0000_0000_0000_0000 == 0,
        name != row.0@ ==> {
            &&& rows_by_name(rows.push(row)).contains_key(name) == rows_by_name(rows).contains_key(
                name,
            )
            &&& rows_by_name(rows.push(row))[name] == rows_by_name(rows)[name]
        },
{
    assert(rows.push(row).drop_last() =~= rows);
    law_same_bits(row.1, 0);
}

} // verus!
