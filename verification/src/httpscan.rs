//! The search for sats of the Trump Casascius window over the `ord` server.

use vstd::prelude::*;

use crate::args::string_or;
use crate::args::text_or;
use crate::args::u64_or;
use crate::args::unsigned_or;
use crate::args::usize_or;
use crate::category::in_trump_window;
use crate::category::TRUMP_END_EXCLUSIVE;
use crate::category::TRUMP_START;
use crate::json::copied_member;
use crate::json::json_model;
use crate::json::json_null;
use crate::json::json_object;
use crate::json::json_str;
use crate::json::json_text;
use crate::json::json_u64;
use crate::json::member_or_null;
use crate::json::parse_json;
use crate::json::set_member;
use crate::json::str_member;
use crate::json::string_field;
use crate::json::u64_field;
use crate::json::u64_member;
use crate::json::JsonModel;
use crate::ord::OrdError;
use crate::text::text_of;

verus! {

/// How many seconds to wait where the server has no inscription.
pub const EMPTY_WAIT_SECS: u64 = 5;

/// How many seconds to wait where all inscriptions were looked at.
pub const CAUGHT_UP_WAIT_SECS: u64 = 10;

/// What the environment sets, where it does.
pub struct FinderEnv {
    pub ord_base_url: Option<String>,
    pub concurrency: Option<String>,
    pub batch: Option<String>,
    pub start: Option<String>,
    pub hits_path: Option<String>,
    pub first_path: Option<String>,
}

/// What the search runs with.
#[derive(Debug)]
pub struct FinderSettings {
    pub ord_base_url: String,
    pub concurrency: usize,
    pub batch: u64,
    pub start_n: u64,
    pub hits_path: String,
    pub first_path: String,
}

/// What the search runs with: what the environment sets, and what stands in for
/// what it does not. A number that is none counts as not set.
pub fn finder_settings_from_env(env: FinderEnv) -> (r: FinderSettings)
    ensures
        r.ord_base_url@ == text_or(text_of(env.ord_base_url), "http://127.0.0.1:8083"@),
        r.concurrency == unsigned_or(text_of(env.concurrency), usize::MAX as nat, 20),
        r.batch == unsigned_or(text_of(env.batch), u64::MAX as nat, 2000),
        r.start_n == unsigned_or(text_of(env.start), u64::MAX as nat, 0),
        r.hits_path@ == text_or(text_of(env.hits_path), "/var/lib/trumpfind/trump_hits.jsonl"@),
        r.first_path@ == text_or(text_of(env.first_path), "/var/lib/trumpfind/trump_first.json"@),
{
    FinderSettings {
        ord_base_url: string_or(env.ord_base_url, "http://127.0.0.1:8083"),
        concurrency: usize_or(env.concurrency, 20),
        batch: u64_or(env.batch, 2000),
        start_n: u64_or(env.start, 0),
        hits_path: string_or(env.hits_path, "/var/lib/trumpfind/trump_hits.jsonl"),
        first_path: string_or(env.first_path, "/var/lib/trumpfind/trump_first.json"),
    }
}

/// How many inscriptions the body of a status answer reports; none where it
/// does not say.
pub fn reported_inscriptions(body: &[u8]) -> (r: Result<u64, OrdError>)
    ensures
        r == match json_text(body@) {
            Some(v) => Ok(
                match u64_member(v, "inscriptions"@) {
                    Some(n) => n,
                    None => 0,
                },
            ),
            None => Err(OrdError::NotJson),
        },
{
    match parse_json(body) {
        Some(v) => match u64_field(&v, "inscriptions") {
            Some(n) => Ok(n),
            None => Ok(0),
        },
        None => Err(OrdError::NotJson),
    }
}

/// What came of sending a request for an inscription.
#[derive(Debug, Clone, Copy, PartialEq, Eq, Structural)]
pub enum Sent {
    /// No answer in time.
    TimedOut,
    /// Any other failure.
    Failed,
    /// An answer with this HTTP status code.
    Answered { code: u16 },
}

/// What is to be made of a request.
#[derive(Debug, Clone, Copy, PartialEq, Eq, Structural)]
pub enum Verdict {
    /// The inscription is passed over.
    Absent,
    /// The search ends with the failure.
    Fail,
    /// The answer is read, if its status code is none of an error.
    ReadBody,
}

/// What is to be made of a request: one that timed out and one that found
/// nothing are passed over.
pub fn judge_sent(sent: Sent) -> (r: Verdict)
    ensures
        r == match sent {
            Sent::TimedOut => Verdict::Absent,
            Sent::Failed => Verdict::Fail,
            Sent::Answered { code } => if code == 404 {
                Verdict::Absent
            } else {
                Verdict::ReadBody
            },
        },
{
    match sent {
        Sent::TimedOut => Verdict::Absent,
        Sent::Failed => Verdict::Fail,
        Sent::Answered { code } => if code == 404 {
            Verdict::Absent
        } else {
            Verdict::ReadBody
        },
    }
}

/// The inscription that the body of an answer holds.
pub fn read_inscription(body: &[u8]) -> (r: Result<serde_json::Value, OrdError>)
    ensures
        match r {
            Ok(v) => json_text(body@) == Some(json_model(v)),
            Err(e) => json_text(body@) is None && e is NotJson,
        },
{
    match parse_json(body) {
        Some(v) => Ok(v),
        None => Err(OrdError::NotJson),
    }
}

/// What the search does next.
#[derive(Debug, Clone, Copy, PartialEq, Eq, Structural)]
pub enum Plan {
    /// Wait: the server has no inscription.
    Empty,
    /// Wait: all inscriptions up to `max_n` were looked at.
    CaughtUp { max_n: u64 },
    /// Look at the inscriptions up to `end_n`.
    Scan { end_n: u64, max_n: u64 },
}

/// What the search does next, when the inscription `next_n` is the first that
/// was not looked at, and the server reports `inscriptions` of them: up to
/// `batch` of those that there are.
pub open spec fn plan_of(next_n: u64, batch: u64, inscriptions: u64) -> Plan {
    if inscriptions == 0 {
        Plan::Empty
    } else if next_n >= inscriptions {
        Plan::CaughtUp { max_n: (inscriptions - 1) as u64 }
    } else {
        let max_n = (inscriptions - 1) as u64;
        Plan::Scan {
            end_n: if next_n + batch - 1 <= max_n {
                (next_n + batch - 1) as u64
            } else {
                max_n
            },
            max_n,
        }
    }
}

/// How many hits there are, and which inscription was the first, once
/// inscription number `n` with that sat is looked at.
pub open spec fn counted(total: nat, first: Option<u64>, n: u64, sat: Option<u64>) -> (
    nat,
    Option<u64>,
) {
    if is_hit(sat) {
        (
            total + 1,
            if first is Some {
                first
            } else {
                Some(n)
            },
        )
    } else {
        (total, first)
    }
}

/// Whether an inscription on that sat, if it has one, is a hit.
pub open spec fn is_hit(sat: Option<u64>) -> bool {
    match sat {
        Some(sat) => in_trump_window(sat as int),
        None => false,
    }
}

/// What the server says of an inscription, as the proofs see it.
pub open spec fn answer_model(answer: Option<serde_json::Value>) -> Option<JsonModel> {
    match answer {
        Some(v) => Some(json_model(v)),
        None => None,
    }
}

/// The sat of an inscription, where it was found and has one.
pub open spec fn answered_sat(answer: Option<JsonModel>) -> Option<u64> {
    match answer {
        Some(v) => u64_member(v, "sat"@),
        None => None,
    }
}

/// The record of a hit, the `total`-th: inscription number `n` on `sat`, with
/// what the server says of it.
pub open spec fn hit_record(v: JsonModel, n: u64, sat: u64, total: u64) -> JsonModel {
    JsonModel::Object(
        Map::<Seq<char>, JsonModel>::empty().insert("number"@, JsonModel::Integer(n as int)).insert(
            "id"@,
            match str_member(v, "id"@) {
                Some(id) => JsonModel::Str(id),
                None => JsonModel::Null,
            },
        ).insert("sat"@, JsonModel::Integer(sat as int)).insert(
            "satpoint"@,
            member_or_null(v, "satpoint"@),
        ).insert("height"@, member_or_null(v, "height"@)).insert(
            "timestamp"@,
            member_or_null(v, "timestamp"@),
        ).insert("trump_total_so_far"@, JsonModel::Integer(total as int)),
    )
}

/// The record of the first hit.
pub open spec fn first_record(n: u64, hit: JsonModel) -> JsonModel {
    JsonModel::Object(
        Map::<Seq<char>, JsonModel>::empty().insert(
            "first_number"@,
            JsonModel::Integer(n as int),
        ).insert("hit"@, hit),
    )
}

/// A hit: its place among the hits, and whether it is the first.
#[derive(Debug, Clone, Copy, PartialEq, Eq, Structural)]
pub struct HitCount {
    pub sat: u64,
    pub total: u64,
    pub is_first: bool,
}

/// A hit with its records.
pub struct Found {
    pub number: u64,
    pub id: Option<String>,
    pub count: HitCount,
    pub record: serde_json::Value,
    pub first_record: Option<serde_json::Value>,
}

/// A hit with its records, as the proofs see it.
pub struct FoundModel {
    pub number: u64,
    pub id: Option<Seq<char>>,
    pub count: HitCount,
    pub record: JsonModel,
    pub first_record: Option<JsonModel>,
}

impl View for Found {
    type V = FoundModel;

    open spec fn view(&self) -> FoundModel {
        FoundModel {
            number: self.number,
            id: text_of(self.id),
            count: self.count,
            record: json_model(self.record),
            first_record: answer_model(self.first_record),
        }
    }
}

/// What a visit found, as the proofs see it.
pub open spec fn found_model(r: Option<Found>) -> Option<FoundModel> {
    match r {
        Some(f) => Some(f@),
        None => None,
    }
}

/// The search.
#[derive(Debug, Clone, Copy, PartialEq, Eq, Structural)]
pub struct Finder {
    pub next_n: u64,
    pub batch: u64,
    pub trump_total: u64,
    pub first_trump: Option<u64>,
}

impl Finder {
    /// The search once inscription number `n` with that sat is looked at.
    pub open spec fn after(self, n: u64, sat: Option<u64>) -> Finder {
        let (total, first) = counted(self.trump_total as nat, self.first_trump, n, sat);
        Finder { trump_total: total as u64, first_trump: first, ..self }
    }

    /// The hit that inscription number `n` with that sat is, where it is one.
    pub open spec fn hit(self, n: u64, sat: Option<u64>) -> Option<HitCount> {
        if is_hit(sat) {
            Some(
                HitCount {
                    sat: sat->0,
                    total: self.after(n, sat).trump_total,
                    is_first: self.first_trump is None,
                },
            )
        } else {
            None
        }
    }

    /// What is written of inscription number `n`, given what the server says of
    /// it: a record of each hit, and one more of the first.
    pub open spec fn told(self, n: u64, answer: Option<JsonModel>) -> Option<FoundModel> {
        match self.hit(n, answered_sat(answer)) {
            Some(count) => {
                let record = hit_record(answer->0, n, count.sat, count.total);
                Some(
                    FoundModel {
                        number: n,
                        id: str_member(answer->0, "id"@),
                        count,
                        record,
                        first_record: if count.is_first {
                            Some(first_record(n, record))
                        } else {
                            None
                        },
                    },
                )
            },
            None => None,
        }
    }

    /// A search from inscription number `start_n` on.
    pub fn new(start_n: u64, batch: u64) -> (r: Finder)
        ensures
            r == (Finder { next_n: start_n, batch, trump_total: 0, first_trump: None }),
    {
        Finder { next_n: start_n, batch, trump_total: 0, first_trump: None }
    }

    /// What the search does next, when the server reports that many
    /// inscriptions.
    pub fn plan(&self, inscriptions: u64) -> (r: Plan)
        requires
            self.next_n < inscriptions ==> self.batch >= 1 && self.next_n + self.batch <= u64::MAX,
        ensures
            r == plan_of(self.next_n, self.batch, inscriptions),
    {
        if inscriptions == 0 {
            return Plan::Empty;
        }
        let max_n: u64 = inscriptions - 1;
        if self.next_n > max_n {
            return Plan::CaughtUp { max_n };
        }
        let last: u64 = self.next_n + self.batch - 1;
        let end_n: u64 = if last <= max_n {
            last
        } else {
            max_n
        };
        Plan::Scan { end_n, max_n }
    }

    /// Looks at inscription number `n`, given its sat where it was found and
    /// has one.
    pub fn count(&mut self, n: u64, sat: Option<u64>) -> (r: Option<HitCount>)
        requires
            old(self).trump_total < u64::MAX,
        ensures
            *final(self) == old(self).after(n, sat),
            r == old(self).hit(n, sat),
            r is Some <==> (sat matches Some(s) && 215_041_381_749_581 <= s && s
                <= 215_041_481_749_580),
            match r {
                Some(hit) => {
                    &&& sat == Some(hit.sat)
                    &&& hit.total == old(self).trump_total + 1
                    &&& hit.is_first == (old(self).first_trump is None)
                    &&& final(self).trump_total == old(self).trump_total + 1
                    &&& final(self).first_trump is Some
                },
                None => *final(self) == *old(self),
            },
    {
        let sat: u64 = match sat {
            Some(sat) => sat,
            None => {
                return None;
            },
        };
        if sat < TRUMP_START || sat >= TRUMP_END_EXCLUSIVE {
            return None;
        }
        self.trump_total = self.trump_total + 1;
        let is_first = self.first_trump.is_none();
        if is_first {
            self.first_trump = Some(n);
        }
        Some(HitCount { sat, total: self.trump_total, is_first })
    }

    /// Looks at inscription number `n`, given what the server says of it, and
    /// makes the records where it is a hit.
    pub fn visit(&mut self, n: u64, answer: Option<serde_json::Value>) -> (r: Option<Found>)
        requires
            old(self).trump_total < u64::MAX,
        ensures
            *final(self) == old(self).after(n, answered_sat(answer_model(answer))),
            found_model(r) == old(self).told(n, answer_model(answer)),
            r is Some <==> {
                &&& answer is Some
                &&& u64_member(json_model(answer->0), "sat"@) matches Some(s)
                &&& 215_041_381_749_581 <= s
                &&& s <= 215_041_481_749_580
            },
            match r {
                Some(found) => {
                    let v = json_model(answer->0);
                    let record = json_model(found.record);
                    &&& found.number == n
                    &&& text_of(found.id) == str_member(v, "id"@)
                    &&& u64_member(v, "sat"@) == Some(found.count.sat)
                    &&& found.count.total == old(self).trump_total + 1
                    &&& record == hit_record(v, n, found.count.sat, found.count.total)
                    &&& found.first_record is Some <==> old(self).first_trump is None
                    &&& found.first_record is Some ==> json_model(found.first_record->0)
                        == first_record(n, record)
                },
                None => *final(self) == *old(self),
            },
    {
        let v = match answer {
            Some(v) => v,
            None => {
                return None;
            },
        };
        let count = match self.count(n, u64_field(&v, "sat")) {
            Some(count) => count,
            None => {
                return None;
            },
        };
        let id = string_field(&v, "id");
        let mut record = json_object();
        set_member(&mut record, "number", json_u64(n));
        set_member(
            &mut record,
            "id",
            match &id {
                Some(id) => json_str(id.as_str()),
                None => json_null(),
            },
        );
        set_member(&mut record, "sat", json_u64(count.sat));
        set_member(&mut record, "satpoint", copied_member(&v, "satpoint"));
        set_member(&mut record, "height", copied_member(&v, "height"));
        set_member(&mut record, "timestamp", copied_member(&v, "timestamp"));
        set_member(&mut record, "trump_total_so_far", json_u64(count.total));
        let first_record = if count.is_first {
            let mut first = json_object();
            set_member(&mut first, "first_number", json_u64(n));
            set_member(&mut first, "hit", record.clone());
            Some(first)
        } else {
            None
        };
        Some(Found { number: n, id, count, record, first_record })
    }

    /// Goes on behind `end_n`, once all inscriptions up to it were looked at.
    pub fn finish_batch(&mut self, end_n: u64)
        requires
            end_n < u64::MAX,
        ensures
            *final(self) == (Finder { next_n: (end_n + 1) as u64, ..*old(self) }),
    {
        self.next_n = end_n + 1;
    }
}

/// A batch is never empty, holds at most as many inscriptions as it may, stays
/// within those that the server has, and is only shorter where they end. Behind
/// it the search goes on with the next inscription, so that none is passed over
/// and none is looked at twice.
pub proof fn law_batches_are_contiguous(next_n: u64, batch: u64, inscriptions: u64)
    requires
        batch >= 1,
        next_n + batch <= u64::MAX,
        next_n < inscriptions,
    ensures
        match plan_of(next_n, batch, inscriptions) {
            Plan::Scan { end_n, max_n } => {
                &&& next_n <= end_n <= max_n
                &&& max_n == inscriptions - 1
                &&& end_n - next_n + 1 <= batch
                &&& end_n == max_n || end_n - next_n + 1 == batch
                &&& end_n < u64::MAX
            },
            _ => false,
        },
{
}

/// The numbers from `from` up to, but not including, `to`.
pub open spec fn numbers(from: u64, to: u64) -> Seq<u64> {
    Seq::new(
        if from <= to {
            (to - from) as nat
        } else {
            0
        },
        |i: int| (from + i) as u64,
    )
}

/// The inscriptions that are looked at, batch by batch, until all that the
/// server has were.
pub open spec fn looked_at(next_n: u64, batch: u64, inscriptions: u64) -> Seq<u64>
    decreases inscriptions - next_n,
{
    match plan_of(next_n, batch, inscriptions) {
        Plan::Scan { end_n, .. } => if next_n <= end_n < inscriptions {
            numbers(next_n, (end_n + 1) as u64) + looked_at((end_n + 1) as u64, batch, inscriptions)
        } else {
            Seq::empty()
        },
        _ => Seq::empty(),
    }
}

/// Batch by batch, every inscription from the first one on is looked at once,
/// in the order of the numbers.
pub proof fn law_every_inscription_is_looked_at(next_n: u64, batch: u64, inscriptions: u64)
    requires
        batch >= 1,
        inscriptions + batch <= u64::MAX,
    ensures
        looked_at(next_n, batch, inscriptions) == numbers(next_n, inscriptions),
    decreases inscriptions - next_n,
{
    match plan_of(next_n, batch, inscriptions) {
        Plan::Scan { end_n, .. } => {
            law_batches_are_contiguous(next_n, batch, inscriptions);
            law_every_inscription_is_looked_at((end_n + 1) as u64, batch, inscriptions);
            assert(looked_at(next_n, batch, inscriptions) =~= numbers(next_n, inscriptions));
        },
        _ => {
            assert(numbers(next_n, inscriptions) =~= Seq::<u64>::empty());
        },
    }
}

/// How many hits there are, and which inscription was the first, once the
/// inscriptions `visits`, each a number and a sat, were looked at.
pub open spec fn tally(visits: Seq<(u64, Option<u64>)>) -> (nat, Option<u64>)
    decreases visits.len(),
{
    if visits.len() == 0 {
        (0, None)
    } else {
        let (total, first) = tally(visits.drop_last());
        counted(total, first, visits.last().0, visits.last().1)
    }
}

/// The total is the number of inscriptions on a sat of the window, and the
/// first hit is the first of these.
pub proof fn law_tally_counts_the_window(visits: Seq<(u64, Option<u64>)>)
    ensures
        ({
            let hits = visits.filter(|v: (u64, Option<u64>)| is_hit(v.1));
            &&& tally(visits).0 == hits.len()
            &&& tally(visits).1 == if hits.len() > 0 {
                Some(hits[0].0)
            } else {
                None
            }
        }),
    decreases visits.len(),
{
    reveal(Seq::filter);
    if visits.len() > 0 {
        law_tally_counts_the_window(visits.drop_last());
    }
}

/// What the search has done.
#[verifier::ext_equal]
pub struct Search {
    pub finder: Finder,
    /// The records that were written of the hits.
    pub records: Seq<JsonModel>,
    /// The records that were written of the first hit.
    pub firsts: Seq<JsonModel>,
}

impl Search {
    /// What the search has done after one more inscription, when it writes what
    /// the visit of the inscription tells.
    pub open spec fn with_answer(self, n: u64, answer: Option<JsonModel>) -> Search {
        let finder = self.finder.after(n, answered_sat(answer));
        match self.finder.told(n, answer) {
            Some(found) => Search {
                finder,
                records: self.records.push(found.record),
                firsts: match found.first_record {
                    Some(first) => self.firsts.push(first),
                    None => self.firsts,
                },
            },
            None => Search { finder, ..self },
        }
    }
}

/// What the search has done, from `start`, once it went through `visits`, each a
/// number and what the server says of the inscription.
pub open spec fn search(start: Finder, visits: Seq<(u64, Option<JsonModel>)>) -> Search
    decreases visits.len(),
{
    if visits.len() == 0 {
        Search { finder: start, records: Seq::empty(), firsts: Seq::empty() }
    } else {
        search(start, visits.drop_last()).with_answer(visits.last().0, visits.last().1)
    }
}

/// The inscriptions of `visits` on a sat of the window.
pub open spec fn hits_among(visits: Seq<(u64, Option<JsonModel>)>) -> Seq<
    (u64, Option<JsonModel>),
> {
    visits.filter(|v: (u64, Option<JsonModel>)| is_hit(answered_sat(v.1)))
}

/// The record of an inscription of the window as the `total`-th hit.
pub open spec fn record_as(v: (u64, Option<JsonModel>), total: u64) -> JsonModel {
    hit_record(v.1->0, v.0, answered_sat(v.1)->0, total)
}

/// A record is written of each inscription on a sat of the window, and of no
/// other, in the order in which they are looked at, each with its place among
/// them as the total, from one on. Of the first of them, and of no other, the
/// record of the first hit is written. Where the search stands, and how many
/// inscriptions are a batch, stays.
pub proof fn law_every_hit_is_written(start: Finder, visits: Seq<(u64, Option<JsonModel>)>)
    requires
        start.trump_total == 0,
        start.first_trump is None,
        visits.len() <= u64::MAX,
    ensures
        ({
            let s = search(start, visits);
            let hits = hits_among(visits);
            &&& hits.len() <= visits.len()
            &&& s.records == Seq::new(hits.len(), |i: int| record_as(hits[i], (i + 1) as u64))
            &&& s.firsts == if hits.len() > 0 {
                seq![first_record(hits[0].0, record_as(hits[0], 1))]
            } else {
                Seq::empty()
            }
            &&& s.finder == (Finder {
                trump_total: hits.len() as u64,
                first_trump: if hits.len() > 0 {
                    Some(hits[0].0)
                } else {
                    None
                },
                ..start
            })
        }),
    decreases visits.len(),
{
    reveal(Seq::filter);
    if visits.len() > 0 {
        law_every_hit_is_written(start, visits.drop_last());
    }
}

/// The record of a hit gives back the number, the sat and the total that it was
/// made from, and what the server said of the inscription.
pub proof fn law_hit_record_reads_back(v: JsonModel, n: u64, sat: u64, total: u64)
    ensures
        ({
            let r = hit_record(v, n, sat, total);
            &&& u64_member(r, "number"@) == Some(n)
            &&& u64_member(r, "sat"@) == Some(sat)
            &&& u64_member(r, "trump_total_so_far"@) == Some(total)
            &&& str_member(r, "id"@) == str_member(v, "id"@)
            &&& r.member("satpoint"@) == Some(member_or_null(v, "satpoint"@))
            &&& r.member("height"@) == Some(member_or_null(v, "height"@))
            &&& r.member("timestamp"@) == Some(member_or_null(v, "timestamp"@))
        }),
{
    reveal_strlit("number");
    reveal_strlit("id");
    reveal_strlit("sat");
    reveal_strlit("satpoint");
    reveal_strlit("height");
    reveal_strlit("timestamp");
    reveal_strlit("trump_total_so_far");
    assert("number"@.len() == 6 && "number"@[0] == 'n');
    assert("id"@.len() == 2);
    assert("sat"@.len() == 3);
    assert("satpoint"@.len() == 8);
    assert("height"@.len() == 6 && "height"@[0] == 'h');
    assert("timestamp"@.len() == 9);
    assert("trump_total_so_far"@.len() == 18);
}

/// Which sats are hits: those from the first of the window to the last.
pub proof fn law_hits_are_of_the_window(sat: u64)
    ensures
        is_hit(Some(sat)) <==> 215_041_381_749_581 <= sat && sat <= 215_041_481_749_580,
        !is_hit(None),
{
}

/// An inscription is a hit if and only if the answer of the server is an object
/// that has an unsigned integer in the window as its member `sat`, whatever other
/// members it has. A hit is told with that sat and the next total, and written
/// with what the server says of it; the first one is written as such. Of any
/// other answer nothing is told, and nothing changes.
pub proof fn law_hit_has_the_sat_of_the_answer(f: Finder, n: u64, v: JsonModel, s: u64)
    requires
        f.trump_total < u64::MAX,
    ensures
        f.told(n, None) is None,
        f.after(n, answered_sat(None)) == f,
        u64_member(v, "sat"@) is None ==> f.told(n, Some(v)) is None,
        f.told(n, Some(v)) is None ==> f.after(n, answered_sat(Some(v))) == f,
        u64_member(v, "sat"@) == Some(s) ==> {
            &&& f.told(n, Some(v)) is Some <==> 215_041_381_749_581 <= s && s <= 215_041_481_749_580
            &&& f.told(n, Some(v)) matches Some(found) ==> {
                let after = f.after(n, answered_sat(Some(v)));
                &&& found.number == n
                &&& found.id == str_member(v, "id"@)
                &&& found.count.sat == s
                &&& found.count.total == f.trump_total + 1
                &&& found.count.is_first == (f.first_trump is None)
                &&& found.record == JsonModel::Object(
                    Map::<Seq<char>, JsonModel>::empty().insert(
                        "number"@,
                        JsonModel::Integer(n as int),
                    ).insert(
                        "id"@,
                        match str_member(v, "id"@) {
                            Some(id) => JsonModel::Str(id),
                            None => JsonModel::Null,
                        },
                    ).insert("sat"@, JsonModel::Integer(s as int)).insert(
                        "satpoint"@,
                        member_or_null(v, "satpoint"@),
                    ).insert("height"@, member_or_null(v, "height"@)).insert(
                        "timestamp"@,
                        member_or_null(v, "timestamp"@),
                    ).insert("trump_total_so_far"@, JsonModel::Integer(f.trump_total + 1)),
                )
                &&& found.first_record == if f.first_trump is None {
                    Some(
                        JsonModel::Object(
                            Map::<Seq<char>, JsonModel>::empty().insert(
                                "first_number"@,
                                JsonModel::Integer(n as int),
                            ).insert("hit"@, found.record),
                        ),
                    )
                } else {
                    None
                }
                &&& after.trump_total == f.trump_total + 1
                &&& after.first_trump == if f.first_trump is None {
                    Some(n)
                } else {
                    f.first_trump
                }
                &&& after.next_n == f.next_n
                &&& after.batch == f.batch
            }
        },
{
}

/// The hits among the inscriptions that were looked at are those whose answer
/// has a sat of the window as its member `sat`.
pub proof fn law_hits_among_the_answers(visits: Seq<(u64, Option<JsonModel>)>)
    ensures
        hits_among(visits) == visits.filter(
            |v: (u64, Option<JsonModel>)|
                match v.1 {
                    Some(j) => match u64_member(j, "sat"@) {
                        Some(s) => 215_041_381_749_581 <= s && s <= 215_041_481_749_580,
                        None => false,
                    },
                    None => false,
                },
        ),
{
    let f = |v: (u64, Option<JsonModel>)| is_hit(answered_sat(v.1));
    let g = |v: (u64, Option<JsonModel>)|
        match v.1 {
            Some(j) => match u64_member(j, "sat"@) {
                Some(s) => 215_041_381_749_581 <= s && s <= 215_041_481_749_580,
                None => false,
            },
            None => false,
        };
    assert(f =~= g);
}

/// The search waits where the server has no inscription, and where all that it
/// has were looked at; otherwise it looks at the next ones, as many as a batch
/// has or the server.
pub proof fn law_what_is_looked_at_next(next_n: u64, batch: u64, inscriptions: u64)
    requires
        batch >= 1,
        next_n + batch <= u64::MAX,
    ensures
        plan_of(next_n, batch, inscriptions) is Empty <==> inscriptions == 0,
        inscriptions > 0 && next_n >= inscriptions ==> plan_of(next_n, batch, inscriptions)
            == (Plan::CaughtUp { max_n: (inscriptions - 1) as u64 }),
        next_n < inscriptions && next_n + batch <= inscriptions ==> plan_of(
            next_n,
            batch,
            inscriptions,
        ) == (Plan::Scan { end_n: (next_n + batch - 1) as u64, max_n: (inscriptions - 1) as u64 }),
        next_n < inscriptions && next_n + batch > inscriptions ==> plan_of(
            next_n,
            batch,
            inscriptions,
        ) == (Plan::Scan {
            end_n: (inscriptions - 1) as u64,
            max_n: (inscriptions - 1) as u64,
        }),
{
}

} // verus!
