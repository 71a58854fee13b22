//! The daemon: its settings, and its answers to those who ask it.

use vstd::prelude::*;

use crate::args::string_or;
use crate::args::text_or;
use crate::args::u64_or;
use crate::args::unsigned_or;
use crate::category::CategoryId;
use crate::counts::CategoryCounts;
use crate::ledger::as_unsigned;
use crate::ledger::Store;
use crate::ord::OrdStatus;
use crate::ranking::ingested_all;
use crate::ranking::law_ranks_are_places;
use crate::ranking::lemma_members_bounded;
use crate::ranking::members;
use crate::text::text_of;

verus! {

/// What the environment sets, where it does.
pub struct DaemonEnv {
    pub bind_addr: Option<String>,
    pub ord_base_url: Option<String>,
    pub poll_interval_secs: Option<String>,
    pub db_path: Option<String>,
}

/// What the daemon runs with.
#[derive(Debug)]
pub struct DaemonSettings {
    pub bind_addr: String,
    pub ord_base_url: String,
    pub poll_interval_secs: u64,
    pub db_path: String,
}

/// What the daemon runs with: what the environment sets, and what stands in for
/// what it does not. An interval that is no number counts as not set.
pub fn settings_from_env(env: DaemonEnv) -> (r: DaemonSettings)
    ensures
        r.bind_addr@ == text_or(text_of(env.bind_addr), "127.0.0.1:8090"@),
        r.ord_base_url@ == text_or(text_of(env.ord_base_url), "http://127.0.0.1:8083"@),
        r.poll_interval_secs == unsigned_or(text_of(env.poll_interval_secs), u64::MAX as nat, 5),
        r.db_path@ == text_or(text_of(env.db_path), "/var/lib/rarerankd/rarerankd.sqlite"@),
{
    DaemonSettings {
        bind_addr: string_or(env.bind_addr, "127.0.0.1:8090"),
        ord_base_url: string_or(env.ord_base_url, "http://127.0.0.1:8083"),
        poll_interval_secs: u64_or(env.poll_interval_secs, 5),
        db_path: string_or(env.db_path, "/var/lib/rarerankd/rarerankd.sqlite"),
    }
}

/// What the daemon says of itself.
#[derive(Debug)]
pub struct DaemonStatus {
    pub ord: Option<OrdStatus>,
    pub next_inscription_number: u64,
    pub category_counts: CategoryCounts,
}

/// What was read from the database for the status, each where it could be.
pub struct StatusRead {
    pub next_inscription_number: Option<u64>,
    pub category_counts: Option<CategoryCounts>,
}

/// What the daemon says of itself, given the status of the server and what was
/// read from the database, each where it could be had. What could not be read
/// is told as zero, or as no counts.
pub fn status(ord: Option<OrdStatus>, read: Option<StatusRead>) -> (r: DaemonStatus)
    ensures
        r.ord == ord,
        r.next_inscription_number == match read {
            Some(StatusRead { next_inscription_number: Some(n), .. }) => n,
            _ => 0,
        },
        r.category_counts@ == match read {
            Some(StatusRead { category_counts: Some(counts), .. }) => counts@,
            _ => Map::<Seq<char>, u64>::empty(),
        },
{
    let read = match read {
        Some(read) => read,
        None => StatusRead { next_inscription_number: None, category_counts: None },
    };
    DaemonStatus {
        ord,
        next_inscription_number: match read.next_inscription_number {
            Some(n) => n,
            None => 0,
        },
        category_counts: match read.category_counts {
            Some(counts) => counts,
            None => CategoryCounts::none(),
        },
    }
}

/// The rank of an inscription in a category, and how many have one there.
#[derive(Debug)]
pub struct RareRankResponse {
    pub category_id: String,
    pub inscription_id: String,
    pub rank: u64,
    pub total: u64,
}

/// The answer to a question for a rank.
#[derive(Debug)]
pub enum RareRankReply {
    BadRequest { message: String },
    ServerError { message: String },
    NotFound,
    Found { response: RareRankResponse },
}

/// [`RareRankReply`] as the proofs see it.
pub enum ReplyModel {
    BadRequest { message: Seq<char> },
    ServerError { message: Seq<char> },
    NotFound,
    Found { category_id: Seq<char>, inscription_id: Seq<char>, rank: u64, total: u64 },
}

impl View for RareRankReply {
    type V = ReplyModel;

    open spec fn view(&self) -> ReplyModel {
        match self {
            RareRankReply::BadRequest { message } => ReplyModel::BadRequest { message: message@ },
            RareRankReply::ServerError { message } => ReplyModel::ServerError { message: message@ },
            RareRankReply::NotFound => ReplyModel::NotFound,
            RareRankReply::Found { response } => ReplyModel::Found {
                category_id: response.category_id@,
                inscription_id: response.inscription_id@,
                rank: response.rank,
                total: response.total,
            },
        }
    }
}

impl RareRankReply {
    /// The HTTP status code of the answer.
    pub fn status_code(&self) -> (code: u16)
        ensures
            code == match self {
                RareRankReply::BadRequest { .. } => 400u16,
                RareRankReply::ServerError { .. } => 500u16,
                RareRankReply::NotFound => 404u16,
                RareRankReply::Found { .. } => 200u16,
            },
    {
        match self {
            RareRankReply::BadRequest { .. } => 400,
            RareRankReply::ServerError { .. } => 500,
            RareRankReply::NotFound => 404,
            RareRankReply::Found { .. } => 200,
        }
    }
}

/// What came of asking the database for a rank and for the counts.
pub enum RankLookup {
    /// It failed, for the reason given.
    Failed { message: String },
    /// What was read.
    Read { rank: Option<u64>, counts: CategoryCounts },
}

/// The category that a question names. A question that names none is answered
/// right away, before the database is asked.
pub fn rarerank_category(category_id: &str) -> (r: Result<CategoryId, RareRankReply>)
    ensures
        match r {
            Ok(c) => category_id@ == c.name(),
            Err(reply) => {
                &&& forall|c: CategoryId| category_id@ != #[trigger] c.name()
                &&& reply@ == (ReplyModel::BadRequest {
                    message: "unknown category_id `"@ + category_id@ + "`"@,
                })
            },
        },
{
    match CategoryId::from_str(category_id) {
        Ok(c) => Ok(c),
        Err(e) => Err(RareRankReply::BadRequest { message: e.message() }),
    }
}

/// The answer to a question for a rank, given what the database says.
pub open spec fn reply_of(
    category: CategoryId,
    inscription_id: Seq<char>,
    rank: Option<u64>,
    counts: Map<Seq<char>, u64>,
) -> ReplyModel {
    match rank {
        Some(rank) => ReplyModel::Found {
            category_id: category.name(),
            inscription_id,
            rank,
            total: if counts.contains_key(category.name()) {
                counts[category.name()]
            } else {
                0
            },
        },
        None => ReplyModel::NotFound,
    }
}

/// The answer to a question for a rank, once the database was asked. A failure
/// of the database is told as such, even where there is no rank.
pub fn get_rarerank(category: CategoryId, inscription_id: String, lookup: RankLookup) -> (r:
    RareRankReply)
    ensures
        r@ == match lookup {
            RankLookup::Failed { message } => ReplyModel::ServerError { message: message@ },
            RankLookup::Read { rank, counts } => reply_of(
                category,
                inscription_id@,
                rank,
                counts@,
            ),
        },
        lookup matches RankLookup::Read { rank: Some(rank), counts } ==> {
            &&& r matches RareRankReply::Found { response }
            &&& response.category_id@ == category.name()
            &&& response.inscription_id@ == inscription_id@
            &&& response.rank == rank
            &&& counts@.contains_key(category.name()) ==> response.total == counts@[category.name()]
            &&& !counts@.contains_key(category.name()) ==> response.total == 0
        },
        lookup matches RankLookup::Read { rank: None, .. } ==> r is NotFound,
        lookup matches RankLookup::Failed { message: m } ==> (
        r matches RareRankReply::ServerError { message } && message@ == m@),
{
    match lookup {
        RankLookup::Failed { message } => RareRankReply::ServerError { message },
        RankLookup::Read { rank, counts } => {
            let total: u64 = match counts.get(category.as_str()) {
                Some(n) => n,
                None => 0,
            };
            match rank {
                Some(rank) => RareRankReply::Found {
                    response: RareRankResponse {
                        category_id: category.as_str().to_owned(),
                        inscription_id,
                        rank,
                        total,
                    },
                },
                None => RareRankReply::NotFound,
            }
        },
    }
}

/// Read from sound tables, an answer gives a rank from one up to the total, and
/// it gives one if and only if the inscription was ranked in that category.
pub proof fn law_answered_rank_within_total(
    store: Store,
    category: CategoryId,
    inscription_id: Seq<char>,
)
    requires
        store.sound(),
    ensures
        ({
            let rank = match store.rank(category.name(), inscription_id) {
                Some(r) => Some(as_unsigned(r)),
                None => None,
            };
            let counts = store.counts.map_values(|n: i64| as_unsigned(n));
            match reply_of(category, inscription_id, rank, counts) {
                ReplyModel::Found { rank, total, .. } => {
                    &&& store.rank(category.name(), inscription_id) is Some
                    &&& 1 <= rank <= total
                    &&& total == store.counts[category.name()]
                },
                ReplyModel::NotFound => store.rank(category.name(), inscription_id) is None,
                _ => false,
            }
        }),
{
    if store.ranks.contains_key((inscription_id, category.name())) {
        assert(store.counts.contains_key(category.name()));
    }
}

/// Asked for an inscription that was worked through, the daemon answers its
/// place among the inscriptions of the category, in the order of their numbers,
/// and how many there are; outside the categories of its sat, it is not found.
pub proof fn law_answers_tell_the_place(
    items: Seq<(Seq<char>, u64)>,
    k: int,
    category: CategoryId,
)
    requires
        forall|i: int, j: int|
            0 <= i < j < items.len() ==> (#[trigger] items[i]).0 != (#[trigger] items[j]).0,
        items.len() < i64::MAX,
        0 <= k < items.len(),
    ensures
        ({
            let store = ingested_all(items);
            let rank = match store.rank(category.name(), items[k].0) {
                Some(r) => Some(as_unsigned(r)),
                None => None,
            };
            let counts = store.counts.map_values(|n: i64| as_unsigned(n));
            reply_of(category, items[k].0, rank, counts) == if category.holds(items[k].1 as nat) {
                ReplyModel::Found {
                    category_id: category.name(),
                    inscription_id: items[k].0,
                    rank: members(items.take(k + 1), category) as u64,
                    total: members(items, category) as u64,
                }
            } else {
                ReplyModel::NotFound
            }
        }),
{
    law_ranks_are_places(items);
    lemma_members_bounded(items);
    lemma_members_bounded(items.take(k + 1));
    let store = ingested_all(items);
    assert(store.counts.contains_key(category.name()));
    assert(store.counts[category.name()] == members(items, category));
    assert(members(items, category) <= items.len());
    assert(members(items.take(k + 1), category) <= items.take(k + 1).len());
    assert(items[k] == items[k]);
}

/// A rank that was read is answered as it is, for the inscription and the
/// category that were asked for, with the count of that category, or zero where
/// there is none; without a rank, the inscription is not found.
pub proof fn law_answer_is_what_was_read(
    category: CategoryId,
    inscription_id: Seq<char>,
    rank: u64,
    counts: Map<Seq<char>, u64>,
)
    ensures
        reply_of(category, inscription_id, None, counts) is NotFound,
        reply_of(category, inscription_id, Some(rank), counts) matches ReplyModel::Found {
            category_id: c,
            inscription_id: i,
            rank: r,
            total,
        } && {
            &&& c == category.name()
            &&& i == inscription_id
            &&& r == rank
            &&& counts.contains_key(category.name()) ==> total == counts[category.name()]
            &&& !counts.contains_key(category.name()) ==> total == 0
        },
{
}

/// The model of an answer leaves nothing out and changes nothing.
pub proof fn law_model_of_the_answer(message: String, response: RareRankResponse)
    ensures
        (RareRankReply::BadRequest { message })@ == (ReplyModel::BadRequest { message: message@ }),
        (RareRankReply::ServerError { message })@ == (ReplyModel::ServerError {
            message: message@,
        }),
        RareRankReply::NotFound@ is NotFound,
        (RareRankReply::Found { response })@ == (ReplyModel::Found {
            category_id: response.category_id@,
            inscription_id: response.inscription_id@,
            rank: response.rank,
            total: response.total,
        }),
{
}

} // verus!
