//! The search for sats of a window in the index of `ord`: which entries are
//! hits, what is written of each, and when the scan is over.

use vstd::prelude::*;

use crate::category::CategoryId;
use crate::inscription::inscription_id_string;
use crate::inscription::inscription_id_text;
use crate::inscription::InscriptionIdValue;
use crate::json::json_i32;
use crate::json::json_model;
use crate::json::json_object;
use crate::json::json_str;
use crate::json::json_u64;
use crate::json::set_member;
use crate::json::str_member;
use crate::json::u64_member;
use crate::json::JsonModel;
use crate::ledger::as_unsigned;
use crate::ledger::to_unsigned;
use crate::options::ScanOptions;

verus! {

/// After how many entries the progress is told.
pub const PROGRESS_EVERY: u64 = 200_000;

/// What the index says of an inscription, as far as the scan reads it.
#[derive(Debug, Clone, Copy)]
pub struct Entry {
    pub height: u32,
    pub id: InscriptionIdValue,
    pub sat: Option<u64>,
    pub timestamp: u32,
}

/// An inscription of the index: its number, its sequence number, and its entry
/// where there is one.
#[derive(Debug, Clone, Copy)]
pub struct Item {
    pub number: i32,
    pub sequence: u32,
    pub entry: Option<Entry>,
}

impl Item {
    /// Whether the inscription is on a sat from `start` up to, but not including,
    /// `end_exclusive`.
    pub open spec fn hits(self, start: u64, end_exclusive: u64) -> bool {
        match self.entry {
            Some(entry) => match entry.sat {
                Some(sat) => start <= sat < end_exclusive,
                None => false,
            },
            None => false,
        }
    }

    /// The sat of the inscription, where it has one.
    pub open spec fn sat(self) -> u64 {
        self.entry->0.sat->0
    }

    /// The record of the inscription as the `index`-th hit.
    pub open spec fn record(self, index: u64) -> JsonModel {
        JsonModel::Object(
            Map::<Seq<char>, JsonModel>::empty().insert(
                "category"@,
                JsonModel::Str("trump_casascius"@),
            ).insert("hit_index"@, JsonModel::Integer(index as int)).insert(
                "inscription_number"@,
                JsonModel::Integer(self.number as int),
            ).insert("sequence_number"@, JsonModel::Integer(self.sequence as int)).insert(
                "inscription_id"@,
                JsonModel::Str(inscription_id_text(self.entry->0.id)),
            ).insert("sat"@, JsonModel::Integer(self.sat() as int)).insert(
                "height"@,
                JsonModel::Integer(self.entry->0.height as int),
            ).insert("timestamp"@, JsonModel::Integer(self.entry->0.timestamp as int)),
        )
    }
}

/// The record of the inscription as the `index`-th hit.
fn record_of(item: Item, entry: Entry, sat: u64, id: &str, index: u64) -> (r: serde_json::Value)
    requires
        item.entry == Some(entry),
        entry.sat == Some(sat),
        id@ == inscription_id_text(entry.id),
    ensures
        json_model(r) == item.record(index),
{
    let mut r = json_object();
    set_member(&mut r, "category", json_str("trump_casascius"));
    set_member(&mut r, "hit_index", json_u64(index));
    set_member(&mut r, "inscription_number", json_i32(item.number));
    set_member(&mut r, "sequence_number", json_u64(item.sequence as u64));
    set_member(&mut r, "inscription_id", json_str(id));
    set_member(&mut r, "sat", json_u64(sat));
    set_member(&mut r, "height", json_u64(entry.height as u64));
    set_member(&mut r, "timestamp", json_u64(entry.timestamp as u64));
    r
}

/// What is done about a hit, in this order.
pub struct Hit {
    /// The place among the hits, from one on.
    pub index: u64,
    pub inscription_id: String,
    pub sat: u64,
    pub record: serde_json::Value,
    /// The record is added to the list of hits.
    pub append: bool,
    /// The record is written as that of the first hit.
    pub write_first: bool,
    /// The record with the satpoint is written.
    pub write_first_hit: bool,
    /// The scan is over.
    pub stop: bool,
}

/// What is done about an inscription.
pub struct Visit {
    /// The progress is told.
    pub progress: bool,
    pub hit: Option<Hit>,
}

/// A [`Hit`] as the proofs see it.
pub struct HitModel {
    pub index: u64,
    pub inscription_id: Seq<char>,
    pub sat: u64,
    pub record: JsonModel,
    pub append: bool,
    pub write_first: bool,
    pub write_first_hit: bool,
    pub stop: bool,
}

/// A [`Visit`] as the proofs see it.
pub struct VisitModel {
    pub progress: bool,
    pub hit: Option<HitModel>,
}

impl View for Hit {
    type V = HitModel;

    open spec fn view(&self) -> HitModel {
        HitModel {
            index: self.index,
            inscription_id: self.inscription_id@,
            sat: self.sat,
            record: json_model(self.record),
            append: self.append,
            write_first: self.write_first,
            write_first_hit: self.write_first_hit,
            stop: self.stop,
        }
    }
}

impl View for Visit {
    type V = VisitModel;

    open spec fn view(&self) -> VisitModel {
        VisitModel {
            progress: self.progress,
            hit: match self.hit {
                Some(hit) => Some(hit@),
                None => None,
            },
        }
    }
}

/// The scan.
#[derive(Debug, Clone, Copy, PartialEq, Eq, Structural)]
pub struct Scanner {
    pub sat_start: u64,
    pub sat_end_exclusive: u64,
    pub first_only: bool,
    pub max_hits: Option<u64>,
    pub scanned: u64,
    pub hits: u64,
    pub first_written: bool,
}

impl Scanner {
    /// Whether the numbers can be those of a scan: no more hits than entries.
    pub open spec fn valid(self) -> bool {
        self.hits <= self.scanned
    }

    /// Whether the inscription is in the window.
    pub open spec fn matches(self, item: Item) -> bool {
        item.hits(self.sat_start, self.sat_end_exclusive)
    }

    /// The scan once the inscription was looked at. One without an entry does
    /// not count.
    pub open spec fn after(self, item: Item) -> Scanner {
        if item.entry is None {
            self
        } else {
            Scanner {
                scanned: (self.scanned + 1) as u64,
                hits: if self.matches(item) {
                    (self.hits + 1) as u64
                } else {
                    self.hits
                },
                first_written: self.first_written || self.matches(item),
                ..self
            }
        }
    }

    /// Whether the largest number of hits, where there is one, is reached.
    /// A largest number of zero is none.
    pub open spec fn full(self) -> bool {
        self.max_hits matches Some(m) && 0 < m <= self.hits
    }

    /// Whether the hit that was just counted is written with its satpoint: the
    /// first is, where there is a largest number of hits.
    pub open spec fn first_hit_due(self) -> bool {
        self.hits == 1 && (self.max_hits matches Some(m) && m >= 1)
    }

    /// Whether the scan is over with the hit that was just counted.
    pub open spec fn over(self) -> bool {
        self.full() || (self.first_hit_due() && self.first_only)
    }

    /// What is done about the inscription. A hit is added to the list, unless
    /// only the first is looked for, and is written as the first, unless one was
    /// before.
    pub open spec fn told(self, item: Item) -> VisitModel {
        let after = self.after(item);
        VisitModel {
            progress: item.entry is Some && after.scanned % PROGRESS_EVERY == 0,
            hit: if self.matches(item) {
                Some(
                    HitModel {
                        index: after.hits,
                        inscription_id: inscription_id_text(item.entry->0.id),
                        sat: item.sat(),
                        record: item.record(after.hits),
                        append: !self.first_only,
                        write_first: !self.first_written,
                        write_first_hit: after.first_hit_due(),
                        stop: after.over(),
                    },
                )
            } else {
                None
            },
        }
    }

    /// A scan that is to start. `first_exists` says whether the record of a first
    /// hit is already there.
    pub fn new(options: &ScanOptions, first_exists: bool) -> (r: Scanner)
        ensures
            r == (Scanner {
                sat_start: options.sat_start,
                sat_end_exclusive: options.sat_end_exclusive,
                first_only: options.first_only,
                max_hits: options.max_hits,
                scanned: 0,
                hits: 0,
                first_written: first_exists,
            }),
            r.valid(),
    {
        Scanner {
            sat_start: options.sat_start,
            sat_end_exclusive: options.sat_end_exclusive,
            first_only: options.first_only,
            max_hits: options.max_hits,
            scanned: 0,
            hits: 0,
            first_written: first_exists,
        }
    }

    /// Looks at an inscription, and says what is to be done about it.
    pub fn visit(&mut self, item: Item) -> (r: Visit)
        requires
            old(self).valid(),
            old(self).scanned < u64::MAX,
        ensures
            final(self).valid(),
            *final(self) == old(self).after(item),
            r@ == old(self).told(item),
            r.hit is Some <==> {
                &&& item.entry matches Some(entry)
                &&& entry.sat matches Some(sat)
                &&& old(self).sat_start <= sat
                &&& sat < old(self).sat_end_exclusive
            },
            r.progress == (item.entry is Some && (old(self).scanned + 1) % 200_000 == 0),
            match r.hit {
                Some(hit) => {
                    &&& hit.index == old(self).hits + 1
                    &&& hit.inscription_id@ == inscription_id_text(item.entry->0.id)
                    &&& item.entry->0.sat == Some(hit.sat)
                    &&& json_model(hit.record) == item.record(hit.index)
                    &&& hit.append == !old(self).first_only
                    &&& hit.write_first == !old(self).first_written
                    &&& hit.write_first_hit == (old(self).hits == 0 && (
                    old(self).max_hits matches Some(m) && m >= 1))
                    &&& hit.stop == ((old(self).max_hits matches Some(m) && 0 < m && m <= old(
                        self,
                    ).hits + 1) || (hit.write_first_hit && old(self).first_only))
                },
                None => true,
            },
    {
        let entry = match item.entry {
            Some(entry) => entry,
            None => {
                return Visit { progress: false, hit: None };
            },
        };
        self.scanned = self.scanned + 1;
        let progress = self.scanned % PROGRESS_EVERY == 0;
        let sat: u64 = match entry.sat {
            Some(sat) => sat,
            None => {
                return Visit { progress, hit: None };
            },
        };
        if sat < self.sat_start || sat >= self.sat_end_exclusive {
            return Visit { progress, hit: None };
        }
        self.hits = self.hits + 1;
        let inscription_id = inscription_id_string(entry.id);
        let record = record_of(item, entry, sat, inscription_id.as_str(), self.hits);
        let write_first = !self.first_written;
        self.first_written = true;
        let limit: u64 = match self.max_hits {
            Some(m) => m,
            None => 0,
        };
        let write_first_hit = self.hits == 1 && limit >= 1;
        let stop = (limit > 0 && self.hits >= limit) || (write_first_hit && self.first_only);
        Visit {
            progress,
            hit: Some(
                Hit {
                    index: self.hits,
                    inscription_id,
                    sat,
                    record,
                    append: !self.first_only,
                    write_first,
                    write_first_hit,
                    stop,
                },
            ),
        }
    }
}

/// The record of the first hit, with its satpoint.
#[derive(Debug)]
pub struct FirstHitRecord {
    pub hit_index: u64,
    pub inscription_number: u64,
    pub inscription_id: String,
    pub sat: u64,
    pub satpoint: String,
    pub height: u32,
    pub timestamp: u32,
    pub category: String,
    pub sequence_number: u32,
}

/// The record of the first hit, with its satpoint. A negative number is written
/// as the unsigned number of the same 64 bits. There is none for an inscription
/// without a sat.
pub fn first_hit_record(item: Item, satpoint: String) -> (r: Option<FirstHitRecord>)
    ensures
        r is Some <==> item.entry is Some && item.entry->0.sat is Some,
        match r {
            Some(r) => {
                &&& r.hit_index == 1
                &&& r.inscription_number == as_unsigned(item.number as i64)
                &&& r.inscription_id@ == inscription_id_text(item.entry->0.id)
                &&& r.sat == item.sat()
                &&& r.satpoint@ == satpoint@
                &&& r.height == item.entry->0.height
                &&& r.timestamp == item.entry->0.timestamp
                &&& r.category@ == "trump_casascius"@
                &&& r.sequence_number == item.sequence
            },
            None => true,
        },
{
    let entry = match item.entry {
        Some(entry) => entry,
        None => {
            return None;
        },
    };
    let sat: u64 = match entry.sat {
        Some(sat) => sat,
        None => {
            return None;
        },
    };
    Some(
        FirstHitRecord {
            hit_index: 1,
            inscription_number: to_unsigned(item.number as i64),
            inscription_id: inscription_id_string(entry.id),
            sat,
            satpoint,
            height: entry.height,
            timestamp: entry.timestamp,
            category: "trump_casascius".to_owned(),
            sequence_number: item.sequence,
        },
    )
}

/// What a scan has done.
#[verifier::ext_equal]
pub struct Outcome {
    pub scanner: Scanner,
    /// The records that were added to the list of hits.
    pub appended: Seq<JsonModel>,
    /// The records that were written as that of the first hit.
    pub firsts: Seq<JsonModel>,
    /// The hits that were written with their satpoints.
    pub first_hits: Seq<Item>,
    pub stopped: bool,
}

impl Outcome {
    /// What the scan has done after one more inscription, when it does what
    /// the visit of the inscription tells.
    pub open spec fn with_item(self, item: Item) -> Outcome {
        if self.stopped {
            self
        } else {
            match self.scanner.told(item).hit {
                Some(hit) => Outcome {
                    scanner: self.scanner.after(item),
                    appended: if hit.append {
                        self.appended.push(hit.record)
                    } else {
                        self.appended
                    },
                    firsts: if hit.write_first {
                        self.firsts.push(hit.record)
                    } else {
                        self.firsts
                    },
                    first_hits: if hit.write_first_hit {
                        self.first_hits.push(item)
                    } else {
                        self.first_hits
                    },
                    stopped: hit.stop,
                },
                None => Outcome { scanner: self.scanner.after(item), ..self },
            }
        }
    }
}

/// What the scan has done, from `start`, once it went through `items` or was
/// over before.
pub open spec fn scan(start: Scanner, items: Seq<Item>) -> Outcome
    decreases items.len(),
{
    if items.len() == 0 {
        Outcome {
            scanner: start,
            appended: Seq::empty(),
            firsts: Seq::empty(),
            first_hits: Seq::empty(),
            stopped: false,
        }
    } else {
        scan(start, items.drop_last()).with_item(items.last())
    }
}

/// The inscriptions of `items` in the window.
pub open spec fn matching(start: Scanner, items: Seq<Item>) -> Seq<Item> {
    items.filter(|item: Item| start.matches(item))
}

/// The inscriptions of `items` with an entry.
pub open spec fn with_entry(items: Seq<Item>) -> Seq<Item> {
    items.filter(|item: Item| item.entry is Some)
}

/// How many of `n` hits are taken: all, or as many as there may be at most.
pub open spec fn taken(max_hits: Option<u64>, n: nat) -> nat {
    match max_hits {
        Some(m) => if 0 < m < n {
            m as nat
        } else {
            n
        },
        None => n,
    }
}

/// Whether a scan is at its start.
pub open spec fn at_start(s: Scanner) -> bool {
    &&& s.scanned == 0
    &&& s.hits == 0
    &&& s.first_only ==> s.max_hits == Some(1u64)
}

/// The hits are the inscriptions in the window, up to the largest number, and
/// the scan is over as soon as that number is reached. They are numbered from
/// one on. Each is added to the list, unless only the first is looked for. The
/// first, and no other, is written as such, unless one was there before; and the
/// first, and no other, is written with its satpoint, where there is a largest
/// number. What the scan runs with stays.
pub proof fn law_scan_takes_the_window(start: Scanner, items: Seq<Item>)
    requires
        start.scanned == 0,
        start.hits == 0,
        start.first_only ==> start.max_hits == Some(1u64),
        items.len() <= u64::MAX,
    ensures
        ({
            let o = scan(start, items);
            let found = matching(start, items);
            let k = taken(start.max_hits, found.len());
            &&& found.len() <= with_entry(items).len() <= items.len()
            &&& o.scanner.hits == k
            &&& o.stopped == (start.max_hits matches Some(m) && 0 < m <= found.len())
            &&& !o.stopped ==> o.scanner.scanned == with_entry(items).len()
            &&& o.appended == if start.first_only {
                Seq::empty()
            } else {
                Seq::new(k, |i: int| found[i].record((i + 1) as u64))
            }
            &&& o.firsts == if start.first_written || k == 0 {
                Seq::empty()
            } else {
                seq![found[0].record(1)]
            }
            &&& o.first_hits == if k > 0 && (start.max_hits matches Some(m) && m >= 1) {
                seq![found[0]]
            } else {
                Seq::empty()
            }
            &&& o.scanner == (Scanner {
                scanned: o.scanner.scanned,
                hits: o.scanner.hits,
                first_written: start.first_written || k > 0,
                ..start
            })
        }),
    decreases items.len(),
{
    reveal(Seq::filter);
    let o = scan(start, items);
    let found = matching(start, items);
    let k = taken(start.max_hits, found.len());
    if items.len() == 0 {
        assert(o.appended =~= Seq::new(k, |i: int| found[i].record((i + 1) as u64)));
    } else {
        let before = items.drop_last();
        let item = items.last();
        law_scan_takes_the_window(start, before);
        assert(scan(start, before).scanner.matches(item) == start.matches(item));
    }
}

/// A scan for the first hit only adds nothing to the list. It writes one record
/// with its satpoint and is over, where there is a hit, and writes none and goes
/// through all inscriptions, where there is none.
pub proof fn law_first_only_writes_one(start: Scanner, items: Seq<Item>)
    requires
        start.scanned == 0,
        start.hits == 0,
        start.first_only ==> start.max_hits == Some(1u64),
        start.first_only,
        items.len() <= u64::MAX,
    ensures
        ({
            let o = scan(start, items);
            let found = matching(start, items);
            &&& o.appended.len() == 0
            &&& o.stopped == (found.len() > 0)
            &&& o.first_hits == found.take(
                if found.len() > 0 {
                    1
                } else {
                    0
                },
            )
        }),
{
    law_scan_takes_the_window(start, items);
}

/// Once a scan is over, no further inscription changes what it has done.
pub proof fn law_stopped_scan_stays(start: Scanner, items: Seq<Item>, more: Seq<Item>)
    requires
        scan(start, items).stopped,
    ensures
        scan(start, items + more) == scan(start, items),
    decreases more.len(),
{
    if more.len() == 0 {
        assert(items + more =~= items);
    } else {
        law_stopped_scan_stays(start, items, more.drop_last());
        assert((items + more).drop_last() =~= items + more.drop_last());
    }
}

/// The record of a hit is a flat object, and gives back what it was made from,
/// under the name of the Trump Casascius category.
pub proof fn law_record_reads_back(item: Item, index: u64)
    ensures
        ({
            let r = item.record(index);
            &&& r.flat()
            &&& str_member(r, "category"@) == Some(CategoryId::TrumpCasascius.name())
            &&& u64_member(r, "hit_index"@) == Some(index)
            &&& r.member("inscription_number"@) == Some(JsonModel::Integer(item.number as int))
            &&& u64_member(r, "sequence_number"@) == Some(item.sequence as u64)
            &&& str_member(r, "inscription_id"@) == Some(inscription_id_text(item.entry->0.id))
            &&& u64_member(r, "sat"@) == Some(item.sat())
            &&& u64_member(r, "height"@) == Some(item.entry->0.height as u64)
            &&& u64_member(r, "timestamp"@) == Some(item.entry->0.timestamp as u64)
        }),
{
    reveal_strlit("category");
    reveal_strlit("hit_index");
    reveal_strlit("inscription_number");
    reveal_strlit("sequence_number");
    reveal_strlit("inscription_id");
    reveal_strlit("sat");
    reveal_strlit("height");
    reveal_strlit("timestamp");
    assert("category"@.len() == 8);
    assert("hit_index"@.len() == 9 && "hit_index"@[0] == 'h');
    assert("inscription_number"@.len() == 18);
    assert("sequence_number"@.len() == 15);
    assert("inscription_id"@.len() == 14);
    assert("sat"@.len() == 3);
    assert("height"@.len() == 6);
    assert("timestamp"@.len() == 9 && "timestamp"@[0] == 't');
}

/// An inscription is a hit if and only if it has an entry with a sat from the
/// first of the window on and below its end, for every window and every sat.
pub proof fn law_hit_is_a_sat_of_the_window(s: Scanner, item: Item, start: u64, end: u64)
    ensures
        item.hits(start, end) <==> (item.entry matches Some(entry) && (entry.sat matches Some(sat)
            && start <= sat && sat < end)),
        s.matches(item) <==> (item.entry matches Some(entry) && (entry.sat matches Some(sat)
            && s.sat_start <= sat && sat < s.sat_end_exclusive)),
        s.told(item).hit is Some <==> s.matches(item),
        s.sat_start == 215_041_381_749_581 && s.sat_end_exclusive == 215_041_481_749_581 ==> (s.told(
            item,
        ).hit is Some <==> (item.entry matches Some(entry) && (entry.sat matches Some(sat)
            && 215_041_381_749_581 <= sat && sat <= 215_041_481_749_580))),
{
}

/// What a visit counts and tells. An inscription without an entry does not
/// count, any other counts as one, and a hit as one hit more. A hit is told with
/// its place, its id, its sat and its record; it is added to the list unless only
/// the first is looked for; it is written as the first where none was; with its
/// satpoint where it is the first and there is a largest number; and the scan is
/// over with it where that number is reached, or only the first was looked for.
pub proof fn law_visit_tells(s: Scanner, item: Item)
    requires
        s.hits <= s.scanned,
        s.scanned < u64::MAX,
    ensures
        ({
            let after = s.after(item);
            let told = s.told(item);
            &&& item.entry is None ==> after == s && !told.progress
            &&& item.entry is Some ==> after.scanned == s.scanned + 1 && told.progress == ((s.scanned
                + 1) % 200_000 == 0)
            &&& after.sat_start == s.sat_start
            &&& after.sat_end_exclusive == s.sat_end_exclusive
            &&& after.first_only == s.first_only
            &&& after.max_hits == s.max_hits
            &&& match told.hit {
                Some(hit) => {
                    let entry = item.entry->0;
                    &&& after.hits == s.hits + 1
                    &&& after.first_written
                    &&& hit.index == s.hits + 1
                    &&& hit.inscription_id == inscription_id_text(entry.id)
                    &&& Some(hit.sat) == entry.sat
                    &&& hit.append == !s.first_only
                    &&& hit.write_first == !s.first_written
                    &&& hit.write_first_hit == (s.hits == 0 && (s.max_hits matches Some(m) && m
                        >= 1))
                    &&& hit.stop == ((s.max_hits matches Some(m) && 0 < m && m <= s.hits + 1) || (
                    s.hits == 0 && (s.max_hits matches Some(m) && m >= 1) && s.first_only))
                    &&& hit.record == JsonModel::Object(
                        Map::<Seq<char>, JsonModel>::empty().insert(
                            "category"@,
                            JsonModel::Str("trump_casascius"@),
                        ).insert("hit_index"@, JsonModel::Integer(s.hits + 1)).insert(
                            "inscription_number"@,
                            JsonModel::Integer(item.number as int),
                        ).insert("sequence_number"@, JsonModel::Integer(item.sequence as int)).insert(
                            "inscription_id"@,
                            JsonModel::Str(inscription_id_text(entry.id)),
                        ).insert("sat"@, JsonModel::Integer(entry.sat->0 as int)).insert(
                            "height"@,
                            JsonModel::Integer(entry.height as int),
                        ).insert("timestamp"@, JsonModel::Integer(entry.timestamp as int)),
                    )
                },
                None => after.hits == s.hits && after.first_written == s.first_written,
            }
        }),
{
}

/// Which inscriptions a scan counts and takes: those with an entry count, of
/// these the ones on a sat of the window are hits, and of the hits as many are
/// taken as there may be, where a largest number above zero is set.
pub proof fn law_what_a_scan_counts(start: Scanner, items: Seq<Item>, n: nat, m: u64)
    ensures
        with_entry(items) == items.filter(|item: Item| item.entry is Some),
        matching(start, items) == items.filter(
            |item: Item|
                match item.entry {
                    Some(entry) => match entry.sat {
                        Some(sat) => start.sat_start <= sat && sat < start.sat_end_exclusive,
                        None => false,
                    },
                    None => false,
                },
        ),
        taken(None, n) == n,
        taken(Some(0), n) == n,
        m > 0 && m <= n ==> taken(Some(m), n) == m,
        m > n ==> taken(Some(m), n) == n,
{
    let f = |item: Item| start.matches(item);
    let g = |item: Item|
        match item.entry {
            Some(entry) => match entry.sat {
                Some(sat) => start.sat_start <= sat && sat < start.sat_end_exclusive,
                None => false,
            },
            None => false,
        };
    assert(f =~= g);
}

} // verus!
