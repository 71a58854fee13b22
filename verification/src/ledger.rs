//! The ledger of ranks: what is stored, and how an inscription gets its rank.
//!
//! The tables are kept by a database. This module decides what is written to
//! them and what is made of what is read; [`Store`] models the tables, so that
//! the effect of the writes can be stated.

use vstd::prelude::*;

use crate::category::all_categories;
use crate::category::law_category_names_distinct;
use crate::category::CategoryId;
use crate::decimal::decimal;
use crate::decimal::decimal_string;
use crate::decimal::law_decimal_reads_back;
use crate::decimal::read_u64;
use crate::decimal::unsigned_number;

verus! {

/// The bits of a signed 64-bit integer, read as an unsigned one.
pub open spec fn as_unsigned(i: i64) -> u64 {
    if i >= 0 {
        i as u64
    } else {
        (i + 0x1_0000_0000_0000_0000) as u64
    }
}

/// The bits of an unsigned 64-bit integer, read as a signed one.
pub open spec fn as_signed(n: u64) -> i64 {
    if n <= i64::MAX {
        n as i64
    } else {
        (n - 0x1_0000_0000_0000_0000) as i64
    }
}

/// The bits of `i`, read as an unsigned integer.
pub fn to_unsigned(i: i64) -> (r: u64)
    ensures
        r == as_unsigned(i),
{
    assert(i >= 0 ==> (i as u64) == i) by (bit_vector);
    assert(i < 0 ==> (i as u64) == i + 0x1_0000_0000_0000_0000) by (bit_vector);
    i as u64
}

/// The bits of `n`, read as a signed integer.
pub fn to_signed(n: u64) -> (r: i64)
    ensures
        r == as_signed(n),
{
    assert(n <= 0x7fff_ffff_ffff_ffff ==> (n as i64) == n) by (bit_vector);
    assert(n > 0x7fff_ffff_ffff_ffff ==> (n as i64) == n - 0x1_0000_0000_0000_0000) by (bit_vector);
    n as i64
}

/// A change to the tables.
pub enum Statement {
    /// Adds the category with a count of zero, unless it is there already.
    SeedCount { category_id: String },
    /// Stores the cursor, unless one is stored already.
    SeedCursor { text: String },
    /// Replaces the stored cursor.
    SetCursor { text: String },
    /// Notes the inscription under its number, unless that number is taken.
    MarkProcessed { number: i64, inscription_id: String },
    /// Replaces the count of a category.
    SetCount { category_id: String, count: i64 },
    /// Adds the rank of an inscription in a category, and fails where it has one.
    InsertRank { inscription_id: String, category_id: String, rank: i64 },
}

/// A [`Statement`] as the proofs see it.
pub enum StatementModel {
    SeedCount { category_id: Seq<char> },
    SeedCursor { text: Seq<char> },
    SetCursor { text: Seq<char> },
    MarkProcessed { number: i64, inscription_id: Seq<char> },
    SetCount { category_id: Seq<char>, count: i64 },
    InsertRank { inscription_id: Seq<char>, category_id: Seq<char>, rank: i64 },
}

impl View for Statement {
    type V = StatementModel;

    open spec fn view(&self) -> StatementModel {
        match self {
            Statement::SeedCount { category_id } => StatementModel::SeedCount {
                category_id: category_id@,
            },
            Statement::SeedCursor { text } => StatementModel::SeedCursor { text: text@ },
            Statement::SetCursor { text } => StatementModel::SetCursor { text: text@ },
            Statement::MarkProcessed { number, inscription_id } => StatementModel::MarkProcessed {
                number: *number,
                inscription_id: inscription_id@,
            },
            Statement::SetCount { category_id, count } => StatementModel::SetCount {
                category_id: category_id@,
                count: *count,
            },
            Statement::InsertRank {
                inscription_id,
                category_id,
                rank,
            } => StatementModel::InsertRank {
                inscription_id: inscription_id@,
                category_id: category_id@,
                rank: *rank,
            },
        }
    }
}

/// A row of statements as the proofs see it.
pub open spec fn statements(v: Seq<Statement>) -> Seq<StatementModel> {
    v.map_values(|s: Statement| s@)
}

/// The contents of the tables.
#[verifier::ext_equal]
pub struct Store {
    /// The text of the cursor, where one is stored.
    pub cursor: Option<Seq<char>>,
    /// How many inscriptions have a rank, by category.
    pub counts: Map<Seq<char>, i64>,
    /// Ranks, by inscription and category.
    pub ranks: Map<(Seq<char>, Seq<char>), i64>,
    /// The inscriptions that were worked through, by number.
    pub processed: Map<i64, Seq<char>>,
}

impl Store {
    /// Tables without a row.
    pub open spec fn empty() -> Store {
        Store { cursor: None, counts: Map::empty(), ranks: Map::empty(), processed: Map::empty() }
    }

    /// The tables after `s`; `None` where `s` fails.
    pub open spec fn execute(self, s: StatementModel) -> Option<Store> {
        match s {
            StatementModel::SeedCount { category_id } => Some(
                if self.counts.contains_key(category_id) {
                    self
                } else {
                    Store { counts: self.counts.insert(category_id, 0), ..self }
                },
            ),
            StatementModel::SeedCursor { text } => Some(
                if self.cursor is Some {
                    self
                } else {
                    Store { cursor: Some(text), ..self }
                },
            ),
            StatementModel::SetCursor { text } => Some(
                if self.cursor is Some {
                    Store { cursor: Some(text), ..self }
                } else {
                    self
                },
            ),
            StatementModel::MarkProcessed { number, inscription_id } => Some(
                if self.processed.contains_key(number) {
                    self
                } else {
                    Store { processed: self.processed.insert(number, inscription_id), ..self }
                },
            ),
            StatementModel::SetCount { category_id, count } => Some(
                if self.counts.contains_key(category_id) {
                    Store { counts: self.counts.insert(category_id, count), ..self }
                } else {
                    self
                },
            ),
            StatementModel::InsertRank { inscription_id, category_id, rank } => {
                if self.ranks.contains_key((inscription_id, category_id)) {
                    None
                } else {
                    Some(
                        Store {
                            ranks: self.ranks.insert((inscription_id, category_id), rank),
                            ..self
                        },
                    )
                }
            },
        }
    }

    /// The tables after each of `s` in turn; `None` where one fails.
    pub open spec fn execute_all(self, s: Seq<StatementModel>) -> Option<Store>
        decreases s.len(),
    {
        if s.len() == 0 {
            Some(self)
        } else {
            match self.execute_all(s.drop_last()) {
                Some(t) => t.execute(s.last()),
                None => None,
            }
        }
    }

    /// The rank of an inscription in a category, where it has one.
    pub open spec fn rank(self, category_id: Seq<char>, inscription_id: Seq<char>) -> Option<i64> {
        if self.ranks.contains_key((inscription_id, category_id)) {
            Some(self.ranks[(inscription_id, category_id)])
        } else {
            None
        }
    }

    /// The number that the stored cursor stands for.
    pub open spec fn cursor_number(self) -> Option<nat> {
        match self.cursor {
            Some(text) => unsigned_number(text, u64::MAX as nat),
            None => None,
        }
    }

    /// The ranks given out in a category are the numbers from one up to its
    /// count, each of them to one inscription.
    pub open spec fn sound(self) -> bool {
        &&& forall|c: Seq<char>| #[trigger] self.counts.contains_key(c) ==> 0 <= self.counts[c]
        &&& forall|i: Seq<char>, c: Seq<char>| #[trigger]
            self.ranks.contains_key((i, c)) ==> self.counts.contains_key(c) && 1 <= self.ranks[(
                i,
                c,
            )] <= self.counts[c]
        &&& forall|i: Seq<char>, j: Seq<char>, c: Seq<char>|
            #![trigger self.ranks.contains_key((i, c)), self.ranks.contains_key((j, c))]
            self.ranks.contains_key((i, c)) && self.ranks.contains_key((j, c)) && self.ranks[(i, c)]
                == self.ranks[(j, c)] ==> i == j
        &&& forall|c: Seq<char>, r: i64|
            #[trigger]
            self.counts.contains_key(c) && 1 <= r <= self.counts[c] ==> #[trigger] self.holds_rank(c, r)
    }

    /// Whether some inscription has the rank `r` in the category.
    pub open spec fn holds_rank(self, c: Seq<char>, r: i64) -> bool {
        exists|i: Seq<char>| #[trigger] self.ranks.contains_key((i, c)) && self.ranks[(i, c)] == r
    }
}

/// What a new database is filled with.
pub open spec fn init_statements() -> Seq<StatementModel> {
    all_categories().map_values(
        |c: CategoryId| StatementModel::SeedCount { category_id: c.name() },
    ).push(StatementModel::SeedCursor { text: "0"@ })
}

/// The rows that the tables start with: a count of zero for every category, and
/// a cursor at zero. On tables that have these rows, nothing is changed.
pub fn db_init() -> (r: Vec<Statement>)
    ensures
        statements(r@) == init_statements(),
{
    let mut r: Vec<Statement> = Vec::new();
    r.push(Statement::SeedCount { category_id: CategoryId::Block9.as_str().to_owned() });
    r.push(Statement::SeedCount { category_id: CategoryId::Palindrome.as_str().to_owned() });
    r.push(Statement::SeedCount { category_id: CategoryId::TrumpCasascius.as_str().to_owned() });
    r.push(Statement::SeedCursor { text: "0".to_owned() });
    assert(statements(r@) =~= init_statements());
    r
}

/// The stored cursor is no unsigned 64-bit integer.
#[derive(Debug)]
pub struct BadCursor {}

impl BadCursor {
    /// What is wrong, in words.
    pub fn message(&self) -> (m: &'static str)
        ensures
            m@ == "meta.next_inscription_number must be u64"@,
    {
        "meta.next_inscription_number must be u64"
    }
}

/// The number of the next inscription, read from the stored cursor.
pub fn db_get_next_inscription_number(text: &str) -> (r: Result<u64, BadCursor>)
    ensures
        match r {
            Ok(n) => unsigned_number(text@, u64::MAX as nat) == Some(n as nat),
            Err(_) => unsigned_number(text@, u64::MAX as nat) is None,
        },
{
    match read_u64(text) {
        Some(n) => Ok(n),
        None => Err(BadCursor {  }),
    }
}

/// The write that makes `n` the number of the next inscription.
pub fn db_set_next_inscription_number(n: u64) -> (s: Statement)
    ensures
        s@ == (StatementModel::SetCursor { text: decimal(n as nat) }),
{
    Statement::SetCursor { text: decimal_string(n) }
}

/// The write that notes an inscription as worked through.
pub fn db_mark_processed(inscription_number: u64, inscription_id: &str) -> (s: Statement)
    ensures
        s@ == (StatementModel::MarkProcessed {
            number: as_signed(inscription_number),
            inscription_id: inscription_id@,
        }),
{
    Statement::MarkProcessed {
        number: to_signed(inscription_number),
        inscription_id: inscription_id.to_owned(),
    }
}

/// The rank that a row of the ranks table gives, where there is a row.
pub fn db_get_rank(row: Option<i64>) -> (r: Option<u64>)
    ensures
        r == match row {
            Some(rank) => Some(as_unsigned(rank)),
            None => None,
        },
{
    match row {
        Some(rank) => Some(to_unsigned(rank)),
        None => None,
    }
}

/// What the recording of a rank waits for.
#[derive(Debug, Clone, Copy, PartialEq, Eq, Structural)]
pub enum RankStage {
    /// The rank that the inscription has in the category.
    AwaitRank,
    /// The count of the category, read inside a transaction.
    AwaitCount,
    /// The end of the transaction that stores `rank`.
    AwaitCommit { rank: i64 },
    /// Nothing more.
    Finished,
}

/// What the database answered.
#[derive(Debug, Clone, Copy, PartialEq, Eq, Structural)]
pub enum RankEvent {
    /// The rank that was looked up, where there is one.
    Rank { rank: Option<i64> },
    /// The transaction is open, and the category has this count.
    Count { count: i64 },
    /// The writes are stored.
    Committed,
    /// The database failed, or the category has no count.
    Failed,
}

/// What is asked of the database, or the end of the recording.
pub enum RankAction {
    /// Look up the rank of the inscription in the category.
    ReadRank,
    /// Open a transaction and read the count of the category.
    BeginAndReadCount,
    /// Make these writes in the open transaction and commit it.
    WriteAndCommit { writes: Vec<Statement> },
    /// The inscription has this rank.
    Return { rank: u64 },
    /// Drop the open transaction, if there is one, and report the failure.
    GiveUp,
}

/// A [`RankAction`] as the proofs see it.
pub enum RankActionModel {
    ReadRank,
    BeginAndReadCount,
    WriteAndCommit { writes: Seq<StatementModel> },
    Return { rank: u64 },
    GiveUp,
}

impl View for RankAction {
    type V = RankActionModel;

    open spec fn view(&self) -> RankActionModel {
        match self {
            RankAction::ReadRank => RankActionModel::ReadRank,
            RankAction::BeginAndReadCount => RankActionModel::BeginAndReadCount,
            RankAction::WriteAndCommit { writes } => RankActionModel::WriteAndCommit {
                writes: statements(writes@),
            },
            RankAction::Return { rank } => RankActionModel::Return { rank: *rank },
            RankAction::GiveUp => RankActionModel::GiveUp,
        }
    }
}

/// Whether `event` can be the answer to what was asked for at `stage`. A count
/// that cannot be raised by one is none.
pub open spec fn rank_event_fits(stage: RankStage, event: RankEvent) -> bool {
    match event {
        RankEvent::Rank { rank } => stage is AwaitRank,
        RankEvent::Count { count } => stage is AwaitCount && count < i64::MAX,
        RankEvent::Committed => stage is AwaitCommit,
        RankEvent::Failed => !(stage is Finished),
    }
}

/// The writes that give an inscription the rank `rank`, and make it the count
/// of the category.
pub open spec fn rank_writes(
    category_id: Seq<char>,
    inscription_id: Seq<char>,
    rank: i64,
) -> Seq<StatementModel> {
    seq![
        StatementModel::SetCount { category_id, count: rank },
        StatementModel::InsertRank { inscription_id, category_id, rank },
    ]
}

/// What follows an answer of the database: an inscription that has a rank keeps
/// it; any other gets the one behind the count of the category.
pub open spec fn rank_next(
    category_id: Seq<char>,
    inscription_id: Seq<char>,
    stage: RankStage,
    event: RankEvent,
) -> (RankStage, RankActionModel) {
    match event {
        RankEvent::Rank { rank: Some(rank) } => (
            RankStage::Finished,
            RankActionModel::Return { rank: as_unsigned(rank) },
        ),
        RankEvent::Rank { rank: None } => (
            RankStage::AwaitCount,
            RankActionModel::BeginAndReadCount,
        ),
        RankEvent::Count { count } => (
            RankStage::AwaitCommit { rank: (count + 1) as i64 },
            RankActionModel::WriteAndCommit {
                writes: rank_writes(category_id, inscription_id, (count + 1) as i64),
            },
        ),
        RankEvent::Committed => (
            RankStage::Finished,
            RankActionModel::Return { rank: as_unsigned(stage->rank) },
        ),
        RankEvent::Failed => (RankStage::Finished, RankActionModel::GiveUp),
    }
}

/// The recording of one inscription's rank in one category: it answers what is
/// to be asked of the database next.
pub struct RankRecorder {
    pub category_id: String,
    pub inscription_id: String,
    pub stage: RankStage,
}

impl RankRecorder {
    /// Starts by looking the rank up.
    pub fn start(category_id: &str, inscription_id: &str) -> (r: (RankRecorder, RankAction))
        ensures
            r.0.category_id@ == category_id@,
            r.0.inscription_id@ == inscription_id@,
            r.0.stage is AwaitRank,
            r.1@ is ReadRank,
    {
        (
            RankRecorder {
                category_id: category_id.to_owned(),
                inscription_id: inscription_id.to_owned(),
                stage: RankStage::AwaitRank,
            },
            RankAction::ReadRank,
        )
    }

    /// Whether `event` can be the answer to what was asked for.
    pub fn fits(&self, event: RankEvent) -> (r: bool)
        ensures
            r == rank_event_fits(self.stage, event),
    {
        match (event, self.stage) {
            (RankEvent::Rank { .. }, RankStage::AwaitRank) => true,
            (RankEvent::Count { count }, RankStage::AwaitCount) => count < i64::MAX,
            (RankEvent::Committed, RankStage::AwaitCommit { .. }) => true,
            (RankEvent::Failed, RankStage::Finished) => false,
            (RankEvent::Failed, _) => true,
            _ => false,
        }
    }

    /// Takes the answer of the database in, and says what comes next.
    pub fn step(&mut self, event: RankEvent) -> (action: RankAction)
        requires
            rank_event_fits(old(self).stage, event),
        ensures
            final(self).category_id == old(self).category_id,
            final(self).inscription_id == old(self).inscription_id,
            (final(self).stage, action@) == rank_next(
                old(self).category_id@,
                old(self).inscription_id@,
                old(self).stage,
                event,
            ),
    {
        match event {
            RankEvent::Rank { rank } => match db_get_rank(rank) {
                Some(existing) => {
                    self.stage = RankStage::Finished;
                    RankAction::Return { rank: existing }
                },
                None => {
                    self.stage = RankStage::AwaitCount;
                    RankAction::BeginAndReadCount
                },
            },
            RankEvent::Count { count } => {
                let next: i64 = count + 1;
                let mut writes: Vec<Statement> = Vec::new();
                writes.push(
                    Statement::SetCount { category_id: self.category_id.clone(), count: next },
                );
                writes.push(
                    Statement::InsertRank {
                        inscription_id: self.inscription_id.clone(),
                        category_id: self.category_id.clone(),
                        rank: next,
                    },
                );
                assert(statements(writes@) =~= rank_writes(
                    self.category_id@,
                    self.inscription_id@,
                    next,
                ));
                self.stage = RankStage::AwaitCommit { rank: next };
                RankAction::WriteAndCommit { writes }
            },
            RankEvent::Committed => {
                let rank: i64 = match self.stage {
                    RankStage::AwaitCommit { rank } => rank,
                    _ => 0,
                };
                self.stage = RankStage::Finished;
                RankAction::Return { rank: to_unsigned(rank) }
            },
            RankEvent::Failed => {
                self.stage = RankStage::Finished;
                RankAction::GiveUp
            },
        }
    }
}

/// The tables, and the rank that is answered, once the rank of an inscription
/// in a category is recorded; `None` where the category has no count, or one
/// that cannot be raised.
pub open spec fn recorded(
    store: Store,
    category_id: Seq<char>,
    inscription_id: Seq<char>,
) -> Option<(Store, u64)> {
    match store.rank(category_id, inscription_id) {
        Some(rank) => Some((store, as_unsigned(rank))),
        None => if store.counts.contains_key(category_id) && store.counts[category_id] < i64::MAX {
            let rank = (store.counts[category_id] + 1) as i64;
            Some(
                (
                    Store {
                        counts: store.counts.insert(category_id, rank),
                        ranks: store.ranks.insert((inscription_id, category_id), rank),
                        ..store
                    },
                    as_unsigned(rank),
                ),
            )
        } else {
            None
        },
    }
}

/// What a database that nothing disturbs makes of what it is asked.
pub open spec fn rank_answer(
    store: Store,
    category_id: Seq<char>,
    inscription_id: Seq<char>,
    action: RankActionModel,
) -> (Store, RankEvent) {
    match action {
        RankActionModel::ReadRank => (
            store,
            RankEvent::Rank { rank: store.rank(category_id, inscription_id) },
        ),
        RankActionModel::BeginAndReadCount => (
            store,
            if store.counts.contains_key(category_id) {
                RankEvent::Count { count: store.counts[category_id] }
            } else {
                RankEvent::Failed
            },
        ),
        RankActionModel::WriteAndCommit { writes } => match store.execute_all(writes) {
            Some(after) => (after, RankEvent::Committed),
            None => (store, RankEvent::Failed),
        },
        _ => (store, RankEvent::Failed),
    }
}

/// Recorder and database in turn, from an action on, for at most `rounds`
/// questions: the tables at the end, and the recorder's last action.
pub open spec fn rank_dialogue(
    store: Store,
    category_id: Seq<char>,
    inscription_id: Seq<char>,
    stage: RankStage,
    action: RankActionModel,
    rounds: nat,
) -> (Store, RankActionModel)
    decreases rounds,
{
    if rounds == 0 || action is Return || action is GiveUp {
        (store, action)
    } else {
        let (after, event) = rank_answer(store, category_id, inscription_id, action);
        let (next_stage, next_action) = rank_next(category_id, inscription_id, stage, event);
        rank_dialogue(
            after,
            category_id,
            inscription_id,
            next_stage,
            next_action,
            (rounds - 1) as nat,
        )
    }
}

/// On a database that nothing disturbs, the recorder comes to an end within
/// three questions. It leaves the tables and answers the rank that
/// [`recorded`] says; where the category has no count, and the inscription no
/// rank in it, it gives up and changes nothing.
pub proof fn law_recorder_records(store: Store, category_id: Seq<char>, inscription_id: Seq<char>)
    requires
        store.counts.contains_key(category_id) ==> store.counts[category_id] < i64::MAX,
    ensures
        rank_dialogue(
            store,
            category_id,
            inscription_id,
            RankStage::AwaitRank,
            RankActionModel::ReadRank,
            3,
        ) == match recorded(store, category_id, inscription_id) {
            Some((after, rank)) => (after, RankActionModel::Return { rank }),
            None => (store, RankActionModel::GiveUp),
        },
{
    reveal_with_fuel(rank_dialogue, 4);
    if store.rank(category_id, inscription_id) is None && store.counts.contains_key(category_id) {
        let rank = (store.counts[category_id] + 1) as i64;
        let w = rank_writes(category_id, inscription_id, rank);
        reveal_with_fuel(Store::execute_all, 3);
        assert(w.drop_last() =~= seq![
            StatementModel::SetCount { category_id, count: rank },
        ]);
        assert(w.drop_last().drop_last() =~= Seq::<StatementModel>::empty());
    }
}

/// Recording keeps the tables sound, and the rank that it answers lies between
/// one and the count of the category.
pub proof fn law_recording_keeps_ranks_sound(
    store: Store,
    category_id: Seq<char>,
    inscription_id: Seq<char>,
)
    requires
        store.sound(),
        recorded(store, category_id, inscription_id) is Some,
    ensures
        ({
            let (after, rank) = recorded(store, category_id, inscription_id)->0;
            &&& after.sound()
            &&& after.rank(category_id, inscription_id) == Some(rank as i64)
            &&& after.counts.contains_key(category_id)
            &&& 1 <= rank <= after.counts[category_id]
        }),
{
    let (after, rank) = recorded(store, category_id, inscription_id)->0;
    if store.rank(category_id, inscription_id) is None {
        assert forall|c: Seq<char>, r: i64|
            after.counts.contains_key(c) && 1 <= r <= after.counts[c] implies #[trigger] after.holds_rank(
            c,
            r,
        ) by {
            if c == category_id && r == rank {
                assert(after.ranks.contains_key((inscription_id, c)));
            } else {
                assert(store.counts.contains_key(c));
                assert(store.holds_rank(c, r));
                let i = choose|i: Seq<char>| #[trigger]
                    store.ranks.contains_key((i, c)) && store.ranks[(i, c)] == r;
                assert(after.ranks.contains_key((i, c)));
            }
        }
    }
}

/// Recording the same rank again changes nothing and answers the same.
pub proof fn law_recording_twice(store: Store, category_id: Seq<char>, inscription_id: Seq<char>)
    requires
        recorded(store, category_id, inscription_id) is Some,
    ensures
        ({
            let first = recorded(store, category_id, inscription_id)->0;
            recorded(first.0, category_id, inscription_id) == Some(first)
        }),
{
}

/// A rank that was given is never changed by a later recording, and a recording
/// touches no other inscription and no other category.
pub proof fn law_ranks_are_permanent(
    store: Store,
    category_id: Seq<char>,
    inscription_id: Seq<char>,
    c: Seq<char>,
    i: Seq<char>,
)
    requires
        recorded(store, category_id, inscription_id) is Some,
    ensures
        ({
            let after = (recorded(store, category_id, inscription_id)->0).0;
            &&& store.rank(c, i) is Some ==> after.rank(c, i) == store.rank(c, i)
            &&& (c, i) != (category_id, inscription_id) ==> after.rank(c, i) == store.rank(c, i)
            &&& c != category_id ==> (after.counts.contains_key(c) == store.counts.contains_key(c)
                && (store.counts.contains_key(c) ==> after.counts[c] == store.counts[c]))
            &&& after.cursor == store.cursor
            &&& after.processed == store.processed
        }),
{
}

/// Whether the tables have the rows that a database starts with.
pub open spec fn initialised(store: Store) -> bool {
    &&& store.cursor is Some
    &&& forall|c: CategoryId| store.counts.contains_key(#[trigger] c.name())
}

/// The tables of a database right after it was made.
pub open spec fn initial_store() -> Store {
    Store {
        cursor: Some("0"@),
        counts: Map::empty().insert(CategoryId::Block9.name(), 0).insert(
            CategoryId::Palindrome.name(),
            0,
        ).insert(CategoryId::TrumpCasascius.name(), 0),
        ranks: Map::empty(),
        processed: Map::empty(),
    }
}

proof fn lemma_init_unfolded(store: Store)
    ensures
        ({
            let a = StatementModel::SeedCount { category_id: CategoryId::Block9.name() };
            let b = StatementModel::SeedCount { category_id: CategoryId::Palindrome.name() };
            let c = StatementModel::SeedCount { category_id: CategoryId::TrumpCasascius.name() };
            let d = StatementModel::SeedCursor { text: "0"@ };
            store.execute_all(init_statements()) == store.execute(a)->0.execute(b)->0.execute(
                c,
            )->0.execute(d)
        }),
{
    reveal_with_fuel(Store::execute_all, 5);
    let s = init_statements();
    let a = StatementModel::SeedCount { category_id: CategoryId::Block9.name() };
    let b = StatementModel::SeedCount { category_id: CategoryId::Palindrome.name() };
    let c = StatementModel::SeedCount { category_id: CategoryId::TrumpCasascius.name() };
    let d = StatementModel::SeedCursor { text: "0"@ };
    assert(s =~= seq![a, b, c, d]);
    assert(s.drop_last() =~= seq![a, b, c]);
    assert(s.drop_last().drop_last() =~= seq![a, b]);
    assert(s.drop_last().drop_last().drop_last() =~= seq![a]);
    assert(s.drop_last().drop_last().drop_last().drop_last() =~= Seq::<StatementModel>::empty());
}

/// Initialising a database without rows gives every category a count of zero
/// and puts the cursor at zero; no rank is given yet, and the tables are sound.
pub proof fn law_init_fills_empty_tables()
    ensures
        Store::empty().execute_all(init_statements()) == Some(initial_store()),
        initialised(initial_store()),
        initial_store().sound(),
        initial_store().cursor_number() == Some(0nat),
        forall|c: CategoryId| initial_store().counts[#[trigger] c.name()] == 0,
{
    lemma_init_unfolded(Store::empty());
    law_category_names_distinct(CategoryId::Block9, CategoryId::Palindrome);
    law_category_names_distinct(CategoryId::Block9, CategoryId::TrumpCasascius);
    law_category_names_distinct(CategoryId::Palindrome, CategoryId::TrumpCasascius);
    assert(Store::empty().execute_all(init_statements())->0 =~= initial_store());
    reveal_strlit("0");
    assert("0"@ =~= decimal(0));
    law_decimal_reads_back(0, u64::MAX as nat);
}

/// Initialising a database that was initialised before changes nothing.
pub proof fn law_init_keeps_filled_tables(store: Store)
    requires
        initialised(store),
    ensures
        store.execute_all(init_statements()) == Some(store),
{
    lemma_init_unfolded(store);
    assert(store.counts.contains_key(CategoryId::Block9.name()));
    assert(store.counts.contains_key(CategoryId::Palindrome.name()));
    assert(store.counts.contains_key(CategoryId::TrumpCasascius.name()));
}

/// The cursor that was stored is the one that is read.
pub proof fn law_cursor_reads_back(store: Store, n: u64)
    requires
        store.cursor is Some,
    ensures
        ({
            let after = store.execute(StatementModel::SetCursor { text: decimal(n as nat) })->0;
            after.cursor_number() == Some(n as nat)
        }),
{
    law_decimal_reads_back(n as nat, u64::MAX as nat);
}

/// Signed and unsigned numbers of the same bits differ by a multiple of the
/// number of values of 64 bits, and reading the bits one way and back changes
/// nothing.
pub proof fn law_same_bits(i: i64, n: u64)
    ensures
        (as_unsigned(i) - i) % 0x1_0000_0000_0000_0000 == 0,
        (as_signed(n) - n) % 0x1_0000_0000_0000_0000 == 0,
        as_signed(as_unsigned(i)) == i,
        as_unsigned(as_signed(n)) == n,
        i >= 0 ==> as_unsigned(i) == i,
        n <= 0x7fff_ffff_ffff_ffff ==> as_signed(n) == n,
{
}

/// What the writes do to the tables: rows that are seeded or noted are added
/// where there is none yet, rows that are set are replaced where there is one,
/// and a rank is added where there is none and refused where there is one. No
/// write touches anything else.
pub proof fn law_writes(store: Store, c: Seq<char>, i: Seq<char>, text: Seq<char>, k: i64)
    ensures
        store.execute(StatementModel::SeedCount { category_id: c }) == Some(
            if store.counts.contains_key(c) {
                store
            } else {
                Store { counts: store.counts.insert(c, 0), ..store }
            },
        ),
        store.execute(StatementModel::SeedCursor { text }) == Some(
            if store.cursor is Some {
                store
            } else {
                Store { cursor: Some(text), ..store }
            },
        ),
        store.execute(StatementModel::SetCursor { text }) == Some(
            if store.cursor is Some {
                Store { cursor: Some(text), ..store }
            } else {
                store
            },
        ),
        store.execute(StatementModel::MarkProcessed { number: k, inscription_id: i }) == Some(
            if store.processed.contains_key(k) {
                store
            } else {
                Store { processed: store.processed.insert(k, i), ..store }
            },
        ),
        store.execute(StatementModel::SetCount { category_id: c, count: k }) == Some(
            if store.counts.contains_key(c) {
                Store { counts: store.counts.insert(c, k), ..store }
            } else {
                store
            },
        ),
        store.execute(StatementModel::InsertRank { inscription_id: i, category_id: c, rank: k })
            == if store.ranks.contains_key((i, c)) {
            None
        } else {
            Some(Store { ranks: store.ranks.insert((i, c), k), ..store })
        },
        store.rank(c, i) == if store.ranks.contains_key((i, c)) {
            Some(store.ranks[(i, c)])
        } else {
            None
        },
{
}

/// A new rank is one more than the count of the category, and becomes its count;
/// a rank that is there is answered as it is. It comes about in every category
/// with a count that can be raised, whatever the inscription.
pub proof fn law_next_rank_is_the_next_count(store: Store, c: Seq<char>, i: Seq<char>)
    ensures
        store.ranks.contains_key((i, c)) ==> recorded(store, c, i) == Some(
            (store, as_unsigned(store.ranks[(i, c)])),
        ),
        !store.ranks.contains_key((i, c)) && store.counts.contains_key(c) && 0 <= store.counts[c]
            < i64::MAX ==> {
            let r = recorded(store, c, i);
            &&& r is Some
            &&& (r->0).1 == store.counts[c] + 1
            &&& (r->0).0.counts == store.counts.insert(c, (store.counts[c] + 1) as i64)
            &&& (r->0).0.ranks == store.ranks.insert((i, c), (store.counts[c] + 1) as i64)
            &&& (r->0).0.cursor == store.cursor
            &&& (r->0).0.processed == store.processed
        },
        !store.ranks.contains_key((i, c)) && !store.counts.contains_key(c) ==> recorded(store, c, i)
            is None,
{
}

/// The recorder answers a rank that is there; where there is none, it asks for
/// the count, writes the number behind it as the new count and as the rank, in
/// this order and in one transaction, and answers it once that is stored. Where
/// the database fails, it gives up. Each of these answers is accepted.
pub proof fn law_recorder_steps(c: Seq<char>, i: Seq<char>, k: i64, stage: RankStage)
    ensures
        rank_event_fits(RankStage::AwaitRank, RankEvent::Rank { rank: Some(k) }),
        rank_event_fits(RankStage::AwaitRank, RankEvent::Rank { rank: None }),
        k < i64::MAX ==> rank_event_fits(RankStage::AwaitCount, RankEvent::Count { count: k }),
        rank_event_fits(RankStage::AwaitCommit { rank: k }, RankEvent::Committed),
        !(stage is Finished) ==> rank_event_fits(stage, RankEvent::Failed),
        rank_next(c, i, RankStage::AwaitRank, RankEvent::Rank { rank: Some(k) }) == (
            RankStage::Finished,
            RankActionModel::Return { rank: as_unsigned(k) },
        ),
        rank_next(c, i, RankStage::AwaitRank, RankEvent::Rank { rank: None }) == (
            RankStage::AwaitCount,
            RankActionModel::BeginAndReadCount,
        ),
        k < i64::MAX ==> rank_next(c, i, RankStage::AwaitCount, RankEvent::Count { count: k }) == (
            RankStage::AwaitCommit { rank: (k + 1) as i64 },
            RankActionModel::WriteAndCommit {
                writes: seq![
                    StatementModel::SetCount { category_id: c, count: (k + 1) as i64 },
                    StatementModel::InsertRank {
                        inscription_id: i,
                        category_id: c,
                        rank: (k + 1) as i64,
                    },
                ],
            },
        ),
        rank_next(c, i, RankStage::AwaitCommit { rank: k }, RankEvent::Committed) == (
            RankStage::Finished,
            RankActionModel::Return { rank: as_unsigned(k) },
        ),
        rank_next(c, i, stage, RankEvent::Failed) == (RankStage::Finished, RankActionModel::GiveUp),
{
}

/// What a new database is filled with, in this order: a count of zero for each
/// of the three categories, and a cursor at zero.
pub proof fn law_rows_to_start_with()
    ensures
        init_statements() == seq![
            StatementModel::SeedCount { category_id: "block9"@ },
            StatementModel::SeedCount { category_id: "palindrome"@ },
            StatementModel::SeedCount { category_id: "trump_casascius"@ },
            StatementModel::SeedCursor { text: "0"@ },
        ],
        initial_store().cursor == Some("0"@),
        initial_store().counts == Map::<Seq<char>, i64>::empty().insert("block9"@, 0).insert(
            "palindrome"@,
            0,
        ).insert("trump_casascius"@, 0),
        initial_store().ranks == Map::<(Seq<char>, Seq<char>), i64>::empty(),
        initial_store().processed == Map::<i64, Seq<char>>::empty(),
{
    assert(init_statements() =~= seq![
        StatementModel::SeedCount { category_id: "block9"@ },
        StatementModel::SeedCount { category_id: "palindrome"@ },
        StatementModel::SeedCount { category_id: "trump_casascius"@ },
        StatementModel::SeedCursor { text: "0"@ },
    ]);
}

/// The models of the writes and of what the recorder asks for leave nothing out
/// and change nothing.
pub proof fn law_models_of_the_ledger(
    c: String,
    i: String,
    k: i64,
    rank: u64,
    writes: Vec<Statement>,
)
    ensures
        (Statement::SeedCount { category_id: c })@ == (StatementModel::SeedCount {
            category_id: c@,
        }),
        (Statement::SeedCursor { text: c })@ == (StatementModel::SeedCursor { text: c@ }),
        (Statement::SetCursor { text: c })@ == (StatementModel::SetCursor { text: c@ }),
        (Statement::MarkProcessed { number: k, inscription_id: i })@
            == (StatementModel::MarkProcessed { number: k, inscription_id: i@ }),
        (Statement::SetCount { category_id: c, count: k })@ == (StatementModel::SetCount {
            category_id: c@,
            count: k,
        }),
        (Statement::InsertRank { inscription_id: i, category_id: c, rank: k })@
            == (StatementModel::InsertRank { inscription_id: i@, category_id: c@, rank: k }),
        (RankAction::WriteAndCommit { writes })@ == (RankActionModel::WriteAndCommit {
            writes: statements(writes@),
        }),
        (RankAction::Return { rank })@ == (RankActionModel::Return { rank }),
        statements(writes@).len() == writes@.len(),
        forall|j: int| 0 <= j < writes@.len() ==> #[trigger] statements(writes@)[j] == writes@[j]@,
{
}

} // verus!
