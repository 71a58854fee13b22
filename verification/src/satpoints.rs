//! Finding the satpoint of an inscription in an index whose tables vary from
//! version to version.

use vstd::prelude::*;
use vstd::seq_lib::to_multiset_insert;

use crate::inscription::satpoint_string;
use crate::inscription::satpoint_text;
use crate::inscription::SatPointValue;
use crate::text::ascending;
use crate::text::contains_upper;
use crate::text::law_text_order;
use crate::text::text_before;
use crate::text::text_lt;
use crate::text::texts;
use crate::text::upper_contains;

verus! {

/// Whether a table of that name may hold satpoints.
pub open spec fn names_satpoints(name: Seq<char>) -> bool {
    upper_contains(name, "SATPOINT"@)
}

/// Where `name` belongs among `v`: behind all that do not come after it.
fn place_for(v: &Vec<String>, name: &str) -> (r: usize)
    requires
        ascending(texts(v@)),
    ensures
        r <= v@.len(),
        forall|i: int| 0 <= i < r ==> !text_lt(name@, #[trigger] texts(v@)[i]),
        forall|i: int| r <= i < v@.len() ==> text_lt(name@, #[trigger] texts(v@)[i]),
{
    let mut at: usize = v.len();
    while at > 0 && text_before(name, v[at - 1].as_str())
        invariant
            at <= v@.len(),
            forall|i: int| at <= i < v@.len() ==> text_lt(name@, #[trigger] texts(v@)[i]),
        decreases at,
    {
        assert(texts(v@)[at - 1] == v@[at - 1]@);
        at -= 1;
    }
    assert forall|i: int| 0 <= i < at implies !text_lt(name@, #[trigger] texts(v@)[i]) by {
        let before = texts(v@)[at - 1];
        assert(before == v@[at - 1]@);
        assert(i < at - 1 ==> !text_lt(before, texts(v@)[i]));
        law_text_order(name@, texts(v@)[i], before);
        law_text_order(texts(v@)[i], before, name@);
    }
    at
}

/// The tables that may hold satpoints, out of all tables of an index, in the
/// order of their names.
pub fn list_satpoint_table_names(names: &[String]) -> (r: Vec<String>)
    ensures
        ascending(texts(r@)),
        texts(r@).to_multiset() == texts(names@).filter(
            |name: Seq<char>| names_satpoints(name),
        ).to_multiset(),
{
    let ghost p = |name: Seq<char>| names_satpoints(name);
    let mut candidates: Vec<String> = Vec::new();
    let n: usize = names.len();
    proof {
        reveal(Seq::filter);
        assert(texts(candidates@) =~= Seq::<Seq<char>>::empty());
        assert(texts(names@).take(0).filter(p) =~= Seq::<Seq<char>>::empty());
    }
    for i in 0..n
        invariant
            n == names@.len(),
            p == (|name: Seq<char>| names_satpoints(name)),
            ascending(texts(candidates@)),
            texts(candidates@).to_multiset() == texts(names@).take(i as int).filter(
                p,
            ).to_multiset(),
    {
        let name = &names[i];
        let ghost before = texts(candidates@);
        let ghost shorter = texts(names@).take(i as int);
        proof {
            reveal(Seq::filter);
            assert(texts(names@).take(i + 1).drop_last() =~= shorter);
            assert(texts(names@).take(i + 1).last() == name@);
        }
        if contains_upper(name.as_str(), "SATPOINT") {
            let at = place_for(&candidates, name.as_str());
            candidates.insert(at, name.as_str().to_owned());
            proof {
                assert(texts(candidates@) =~= before.insert(at as int, name@));
                to_multiset_insert(before, at as int, name@);
                shorter.filter(p).to_multiset_ensures();
                lemma_insert_keeps_order(before, at as int, name@);
            }
        }
    }
    assert(texts(names@).take(n as int) =~= texts(names@));
    candidates
}

proof fn lemma_insert_keeps_order(s: Seq<Seq<char>>, at: int, name: Seq<char>)
    requires
        ascending(s),
        0 <= at <= s.len(),
        forall|i: int| 0 <= i < at ==> !text_lt(name, #[trigger] s[i]),
        forall|i: int| at <= i < s.len() ==> text_lt(name, #[trigger] s[i]),
    ensures
        ascending(s.insert(at, name)),
{
    let t = s.insert(at, name);
    assert forall|i: int, j: int| 0 <= i < j < t.len() implies !text_lt(
        #[trigger] t[j],
        #[trigger] t[i],
    ) by {
        if i == at {
            law_text_order(name, s[j - 1], name);
        } else if j != at {
            let k = if i < at {
                i
            } else {
                i - 1
            };
            let l = if j < at {
                j
            } else {
                j - 1
            };
            assert(t[i] == s[k] && t[j] == s[l]);
        }
    }
}

/// What a table says of the satpoint of an inscription.
#[derive(Debug, Clone, Copy)]
pub enum TableAnswer {
    /// The satpoint.
    Holds { satpoint: SatPointValue },
    /// Nothing.
    Absent,
    /// The table cannot be read, or does not hold satpoints.
    Failed,
}

/// Where the search for a satpoint stands.
#[derive(Debug)]
pub enum Probe {
    /// The table at `index` is to be asked.
    Ask { index: usize },
    /// The satpoint was found.
    Found { satpoint: String },
    /// There is no table to ask.
    NoTables,
    /// No table has the satpoint.
    Exhausted,
}

/// A [`Probe`] as the proofs see it.
pub enum ProbeModel {
    Ask { index: int },
    Found { satpoint: Seq<char> },
    NoTables,
    Exhausted,
}

impl View for Probe {
    type V = ProbeModel;

    open spec fn view(&self) -> ProbeModel {
        match self {
            Probe::Ask { index } => ProbeModel::Ask { index: *index as int },
            Probe::Found { satpoint } => ProbeModel::Found { satpoint: satpoint@ },
            Probe::NoTables => ProbeModel::NoTables,
            Probe::Exhausted => ProbeModel::Exhausted,
        }
    }
}

/// Where the search starts among that many tables.
pub open spec fn probe_first(tables: int) -> ProbeModel {
    if tables == 0 {
        ProbeModel::NoTables
    } else {
        ProbeModel::Ask { index: 0 }
    }
}

/// Where the search goes from the table at `index` with its answer. A table that
/// fails is passed over, as one that has nothing.
pub open spec fn probe_next(tables: int, index: int, answer: TableAnswer) -> ProbeModel {
    match answer {
        TableAnswer::Holds { satpoint } => ProbeModel::Found { satpoint: satpoint_text(satpoint) },
        _ => if index + 1 < tables {
            ProbeModel::Ask { index: index + 1 }
        } else {
            ProbeModel::Exhausted
        },
    }
}

impl Probe {
    /// A search among that many tables.
    pub fn start(tables: usize) -> (r: Probe)
        ensures
            r@ == probe_first(tables as int),
    {
        if tables == 0 {
            Probe::NoTables
        } else {
            Probe::Ask { index: 0 }
        }
    }

    /// The search after the table at `index` gave its answer.
    pub fn answered(tables: usize, index: usize, answer: TableAnswer) -> (r: Probe)
        requires
            index < tables,
        ensures
            r@ == probe_next(tables as int, index as int, answer),
    {
        match answer {
            TableAnswer::Holds { satpoint } => Probe::Found { satpoint: satpoint_string(satpoint) },
            _ => if index + 1 < tables {
                Probe::Ask { index: index + 1 }
            } else {
                Probe::Exhausted
            },
        }
    }
}

/// Where the search ends from `step`, when the tables give these answers.
pub open spec fn probe_end(answers: Seq<TableAnswer>, step: ProbeModel) -> ProbeModel
    decreases
            (match step {
                ProbeModel::Ask { index } => answers.len() - index,
                _ => 0,
            }),
{
    match step {
        ProbeModel::Ask { index } => if 0 <= index < answers.len() {
            probe_end(answers, probe_next(answers.len() as int, index, answers[index]))
        } else {
            step
        },
        _ => step,
    }
}

/// The search ends with the satpoint of the first table that holds one, whether
/// those before it have nothing or fail; and it only ends without one where no
/// table holds one.
pub proof fn law_first_table_answers(answers: Seq<TableAnswer>)
    ensures
        forall|i: int|
            #![trigger answers[i]]
            0 <= i < answers.len() && answers[i] is Holds && (forall|j: int|
                0 <= j < i ==> !(#[trigger] answers[j] is Holds)) ==> probe_end(
                answers,
                probe_first(answers.len() as int),
            ) == (ProbeModel::Found { satpoint: satpoint_text(answers[i]->satpoint) }),
        (forall|j: int| 0 <= j < answers.len() ==> !(#[trigger] answers[j] is Holds)) ==> probe_end(
            answers,
            probe_first(answers.len() as int),
        ) == if answers.len() == 0 {
            ProbeModel::NoTables
        } else {
            ProbeModel::Exhausted
        },
{
    if answers.len() > 0 {
        lemma_probe_end(answers, 0);
    }
}

proof fn lemma_probe_end(answers: Seq<TableAnswer>, from: int)
    requires
        0 <= from < answers.len(),
    ensures
        forall|i: int|
            #![trigger answers[i]]
            from <= i < answers.len() && answers[i] is Holds && (forall|j: int|
                from <= j < i ==> !(#[trigger] answers[j] is Holds)) ==> probe_end(
                answers,
                ProbeModel::Ask { index: from },
            ) == (ProbeModel::Found { satpoint: satpoint_text(answers[i]->satpoint) }),
        (forall|j: int| from <= j < answers.len() ==> !(#[trigger] answers[j] is Holds))
            ==> probe_end(answers, ProbeModel::Ask { index: from }) == ProbeModel::Exhausted,
    decreases answers.len() - from,
{
    reveal_with_fuel(probe_end, 2);
    if from + 1 < answers.len() {
        lemma_probe_end(answers, from + 1);
    }
    assert(answers[from] == answers[from]);
}

/// Which tables may hold satpoints, and in which order they are asked: those in
/// whose names the word stands, in capital letters or small ones, by name.
pub proof fn law_tables_by_name(name: Seq<char>, s: Seq<Seq<char>>)
    ensures
        names_satpoints(name) <==> upper_contains(name, "SATPOINT"@),
        ascending(s) <==> (forall|i: int, j: int|
            0 <= i < j < s.len() ==> !text_lt(#[trigger] s[j], #[trigger] s[i])),
{
}

/// The tables are asked from the first on, one after the other; the first answer
/// with a satpoint ends the search with its text, and any other goes on to the
/// next table, where there is one.
pub proof fn law_tables_are_asked_in_turn(
    tables: int,
    index: int,
    satpoint: SatPointValue,
    i: usize,
    text: String,
)
    ensures
        tables > 0 ==> probe_first(tables) == (ProbeModel::Ask { index: 0 }),
        tables == 0 ==> probe_first(tables) is NoTables,
        probe_next(tables, index, TableAnswer::Holds { satpoint }) == (ProbeModel::Found {
            satpoint: satpoint_text(satpoint),
        }),
        index + 1 < tables ==> probe_next(tables, index, TableAnswer::Absent) == (ProbeModel::Ask {
            index: index + 1,
        }),
        index + 1 < tables ==> probe_next(tables, index, TableAnswer::Failed) == (ProbeModel::Ask {
            index: index + 1,
        }),
        index + 1 >= tables ==> probe_next(tables, index, TableAnswer::Absent) is Exhausted,
        index + 1 >= tables ==> probe_next(tables, index, TableAnswer::Failed) is Exhausted,
        (Probe::Ask { index: i })@ == (ProbeModel::Ask { index: i as int }),
        (Probe::Found { satpoint: text })@ == (ProbeModel::Found { satpoint: text@ }),
{
}

} // verus!
