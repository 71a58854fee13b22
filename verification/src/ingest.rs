//! The loop that works through inscriptions: what is done next, given what came
//! of what was done last.

use vstd::prelude::*;

use crate::category::categories_for_sat;
use crate::category::categories_of;
use crate::category::law_categories_listed_once;
use crate::category::CategoryId;
use crate::decimal::decimal;
use crate::json::json_text;
use crate::json::str_member;
use crate::json::u64_member;
use crate::json::JsonModel;
use crate::ledger::as_signed;
use crate::ledger::recorded;
use crate::ledger::StatementModel;
use crate::ledger::Store;
use crate::ord::extract_inscription_id_and_sat;
use crate::ord::id_and_sat_of;
use crate::ord::inscription_fields;
use crate::ord::ord_inscription_by_number;
use crate::ord::ExtractError;
use crate::ord::OrdStatus;
use crate::ranking::distinct_ids;
use crate::ranking::has_room;
use crate::ranking::ingested;
use crate::ranking::ingested_all;
use crate::ranking::law_ranks_are_places;
use crate::ranking::lemma_members_bounded;
use crate::ranking::lemma_recorded_in_all;
use crate::ranking::recorded_in_all;

verus! {

/// The height below which the server has no inscription yet.
pub const INSCRIPTION_START_HEIGHT: u32 = 767_430;

/// How long to wait after an inscription whose JSON cannot be used.
pub const SCHEMA_PAUSE_MILLIS: u64 = 10_000;

/// How long to wait between two inscriptions.
pub const STEP_PAUSE_MILLIS: u64 = 50;

/// What came of asking for an inscription.
pub enum Fetched {
    /// The server did not answer, or not with JSON.
    Failed,
    /// The server does not have the inscription.
    Absent,
    /// The inscription has no id or no sat.
    Malformed { error: ExtractError },
    /// The inscription.
    Found { inscription_id: String, sat: u64 },
}

/// [`Fetched`] as the proofs see it.
pub enum FetchedModel {
    Failed,
    Absent,
    Malformed { error: ExtractError },
    Found { inscription_id: Seq<char>, sat: u64 },
}

impl View for Fetched {
    type V = FetchedModel;

    open spec fn view(&self) -> FetchedModel {
        match self {
            Fetched::Failed => FetchedModel::Failed,
            Fetched::Absent => FetchedModel::Absent,
            Fetched::Malformed { error } => FetchedModel::Malformed { error: *error },
            Fetched::Found { inscription_id, sat } => FetchedModel::Found {
                inscription_id: inscription_id@,
                sat: *sat,
            },
        }
    }
}

/// What the JSON of an answer says of the inscription that was asked for.
pub open spec fn fetched_of(v: JsonModel) -> FetchedModel {
    if v is Null {
        FetchedModel::Absent
    } else {
        match id_and_sat_of(inscription_fields(v)) {
            Ok((inscription_id, sat)) => FetchedModel::Found { inscription_id, sat },
            Err(error) => FetchedModel::Malformed { error },
        }
    }
}

/// What the body of an answer says of the inscription that was asked for.
pub fn fetched_inscription(body: &[u8]) -> (r: Fetched)
    ensures
        r@ == match json_text(body@) {
            Some(v) => fetched_of(v),
            None => FetchedModel::Failed,
        },
        r is Failed <==> json_text(body@) is None,
        r is Absent <==> json_text(body@) == Some(JsonModel::Null),
        r matches Fetched::Found { inscription_id, sat } ==> {
            let j = json_text(body@)->0;
            &&& str_member(j, "id"@) == Some(inscription_id@) || (str_member(j, "id"@) is None
                && str_member(j, "inscription_id"@) == Some(inscription_id@))
            &&& u64_member(j, "sat"@) is Some ==> u64_member(j, "sat"@) == Some(sat)
        },
{
    match ord_inscription_by_number(body) {
        Ok(Some(v)) => match extract_inscription_id_and_sat(&v) {
            Ok((inscription_id, sat)) => Fetched::Found { inscription_id, sat },
            Err(error) => Fetched::Malformed { error },
        },
        Ok(None) => Fetched::Absent,
        Err(_) => Fetched::Failed,
    }
}

/// Whether the server is ready to be worked through: it keeps both indexes, and
/// has come to where inscriptions start.
pub open spec fn ready(status: OrdStatus) -> bool {
    status.sat_index && status.inscription_index && status.height >= INSCRIPTION_START_HEIGHT
}

/// How long to wait.
#[derive(Debug, Clone, Copy, PartialEq, Eq, Structural)]
pub enum Pause {
    /// The interval that the daemon is set to.
    Poll,
    /// That many milliseconds.
    Millis { millis: u64 },
}

/// What the loop waits for.
pub enum IngestState {
    /// The status of the server.
    AwaitStatus,
    /// The database.
    AwaitDb,
    /// The cursor.
    AwaitCursor,
    /// The inscription number `n`.
    AwaitInscription { n: u64 },
    /// The note that the inscription was worked through.
    AwaitMarked { n: u64, inscription_id: String, sat: u64 },
    /// The rank in one category, with those left that come after it.
    AwaitRanked { n: u64, inscription_id: String, left: Vec<CategoryId> },
    /// The end of the pause after a rank that could not be recorded.
    AwaitRankPause { n: u64, inscription_id: String, left: Vec<CategoryId> },
    /// The cursor to be stored.
    AwaitCursorSet,
    /// The end of the pause before the next round.
    AwaitRound,
}

/// [`IngestState`] as the proofs see it.
pub enum StateModel {
    AwaitStatus,
    AwaitDb,
    AwaitCursor,
    AwaitInscription { n: u64 },
    AwaitMarked { n: u64, inscription_id: Seq<char>, sat: u64 },
    AwaitRanked { n: u64, inscription_id: Seq<char>, left: Seq<CategoryId> },
    AwaitRankPause { n: u64, inscription_id: Seq<char>, left: Seq<CategoryId> },
    AwaitCursorSet,
    AwaitRound,
}

impl View for IngestState {
    type V = StateModel;

    open spec fn view(&self) -> StateModel {
        match self {
            IngestState::AwaitStatus => StateModel::AwaitStatus,
            IngestState::AwaitDb => StateModel::AwaitDb,
            IngestState::AwaitCursor => StateModel::AwaitCursor,
            IngestState::AwaitInscription { n } => StateModel::AwaitInscription { n: *n },
            IngestState::AwaitMarked { n, inscription_id, sat } => StateModel::AwaitMarked {
                n: *n,
                inscription_id: inscription_id@,
                sat: *sat,
            },
            IngestState::AwaitRanked { n, inscription_id, left } => StateModel::AwaitRanked {
                n: *n,
                inscription_id: inscription_id@,
                left: left@,
            },
            IngestState::AwaitRankPause { n, inscription_id, left } => StateModel::AwaitRankPause {
                n: *n,
                inscription_id: inscription_id@,
                left: left@,
            },
            IngestState::AwaitCursorSet => StateModel::AwaitCursorSet,
            IngestState::AwaitRound => StateModel::AwaitRound,
        }
    }
}

/// What came of what the loop asked for.
pub enum IngestEvent {
    /// The status of the server; `None` where it could not be had.
    Status { status: Option<OrdStatus> },
    /// Whether the database could be opened.
    Opened { ok: bool },
    /// The cursor; `None` where it could not be read.
    Cursor { next: Option<u64> },
    /// The inscription that was asked for.
    Inscription { fetched: Fetched },
    /// Whether the note was stored.
    Marked { ok: bool },
    /// Whether the rank was recorded.
    Ranked { ok: bool },
    /// Whether the cursor was stored.
    CursorSet { ok: bool },
    /// The pause is over.
    Woken,
}

/// [`IngestEvent`] as the proofs see it.
pub enum EventModel {
    Status { status: Option<OrdStatus> },
    Opened { ok: bool },
    Cursor { next: Option<u64> },
    Inscription { fetched: FetchedModel },
    Marked { ok: bool },
    Ranked { ok: bool },
    CursorSet { ok: bool },
    Woken,
}

impl View for IngestEvent {
    type V = EventModel;

    open spec fn view(&self) -> EventModel {
        match self {
            IngestEvent::Status { status } => EventModel::Status { status: *status },
            IngestEvent::Opened { ok } => EventModel::Opened { ok: *ok },
            IngestEvent::Cursor { next } => EventModel::Cursor { next: *next },
            IngestEvent::Inscription { fetched } => EventModel::Inscription { fetched: fetched@ },
            IngestEvent::Marked { ok } => EventModel::Marked { ok: *ok },
            IngestEvent::Ranked { ok } => EventModel::Ranked { ok: *ok },
            IngestEvent::CursorSet { ok } => EventModel::CursorSet { ok: *ok },
            IngestEvent::Woken => EventModel::Woken,
        }
    }
}

/// What the loop asks for.
pub enum IngestAction {
    FetchStatus,
    OpenDb,
    ReadCursor,
    FetchInscription { n: u64 },
    MarkProcessed { n: u64, inscription_id: String },
    RecordRank { category: CategoryId, inscription_id: String },
    SetCursor { next: u64 },
    Sleep { pause: Pause },
}

/// [`IngestAction`] as the proofs see it.
pub enum ActionModel {
    FetchStatus,
    OpenDb,
    ReadCursor,
    FetchInscription { n: u64 },
    MarkProcessed { n: u64, inscription_id: Seq<char> },
    RecordRank { category: CategoryId, inscription_id: Seq<char> },
    SetCursor { next: u64 },
    Sleep { pause: Pause },
}

impl View for IngestAction {
    type V = ActionModel;

    open spec fn view(&self) -> ActionModel {
        match self {
            IngestAction::FetchStatus => ActionModel::FetchStatus,
            IngestAction::OpenDb => ActionModel::OpenDb,
            IngestAction::ReadCursor => ActionModel::ReadCursor,
            IngestAction::FetchInscription { n } => ActionModel::FetchInscription { n: *n },
            IngestAction::MarkProcessed { n, inscription_id } => ActionModel::MarkProcessed {
                n: *n,
                inscription_id: inscription_id@,
            },
            IngestAction::RecordRank { category, inscription_id } => ActionModel::RecordRank {
                category: *category,
                inscription_id: inscription_id@,
            },
            IngestAction::SetCursor { next } => ActionModel::SetCursor { next: *next },
            IngestAction::Sleep { pause } => ActionModel::Sleep { pause: *pause },
        }
    }
}

/// Whether `event` can be the answer to what `state` waits for, and the cursor
/// can be raised where that comes next.
pub open spec fn event_fits(state: StateModel, event: EventModel) -> bool {
    match event {
        EventModel::Status { status } => state is AwaitStatus,
        EventModel::Opened { ok } => state is AwaitDb,
        EventModel::Cursor { next } => state is AwaitCursor,
        EventModel::Inscription { fetched } => state is AwaitInscription,
        EventModel::Marked { ok } => {
            &&& state matches StateModel::AwaitMarked { n, sat, .. }
            &&& ok && categories_of(sat as nat).len() == 0 ==> n < u64::MAX
        },
        EventModel::Ranked { ok } => {
            &&& state matches StateModel::AwaitRanked { n, left, .. }
            &&& ok && left.len() == 0 ==> n < u64::MAX
        },
        EventModel::CursorSet { ok } => state is AwaitCursorSet,
        EventModel::Woken => match state {
            StateModel::AwaitRankPause { n, left, .. } => left.len() == 0 ==> n < u64::MAX,
            _ => state is AwaitRound,
        },
    }
}

/// The wait for the set interval before a new round.
pub open spec fn retry() -> (StateModel, ActionModel) {
    (StateModel::AwaitRound, ActionModel::Sleep { pause: Pause::Poll })
}

/// The rank in the first of the categories that are left, or the cursor where
/// none is.
pub open spec fn rank_or_advance(n: u64, inscription_id: Seq<char>, left: Seq<CategoryId>) -> (
    StateModel,
    ActionModel,
) {
    if left.len() > 0 {
        (
            StateModel::AwaitRanked { n, inscription_id, left: left.drop_first() },
            ActionModel::RecordRank { category: left[0], inscription_id },
        )
    } else {
        (StateModel::AwaitCursorSet, ActionModel::SetCursor { next: (n + 1) as u64 })
    }
}

/// What the loop waits for after `event`, and what it asks for.
pub open spec fn ingest_next(state: StateModel, event: EventModel) -> (StateModel, ActionModel) {
    match event {
        EventModel::Status { status } => match status {
            Some(s) => if ready(s) {
                (StateModel::AwaitDb, ActionModel::OpenDb)
            } else {
                retry()
            },
            None => retry(),
        },
        EventModel::Opened { ok } => if ok {
            (StateModel::AwaitCursor, ActionModel::ReadCursor)
        } else {
            retry()
        },
        EventModel::Cursor { next } => match next {
            Some(n) => (
                StateModel::AwaitInscription { n },
                ActionModel::FetchInscription { n },
            ),
            None => retry(),
        },
        EventModel::Inscription { fetched } => match fetched {
            FetchedModel::Found { inscription_id, sat } => (
                StateModel::AwaitMarked { n: state->AwaitInscription_n, inscription_id, sat },
                ActionModel::MarkProcessed { n: state->AwaitInscription_n, inscription_id },
            ),
            FetchedModel::Malformed { .. } => (
                StateModel::AwaitRound,
                ActionModel::Sleep { pause: Pause::Millis { millis: SCHEMA_PAUSE_MILLIS } },
            ),
            _ => retry(),
        },
        EventModel::Marked { ok } => if ok {
            rank_or_advance(
                state->AwaitMarked_n,
                state->AwaitMarked_inscription_id,
                categories_of(state->sat as nat),
            )
        } else {
            retry()
        },
        EventModel::Ranked { ok } => if ok {
            rank_or_advance(
                state->AwaitRanked_n,
                state->AwaitRanked_inscription_id,
                state->AwaitRanked_left,
            )
        } else {
            (
                StateModel::AwaitRankPause {
                    n: state->AwaitRanked_n,
                    inscription_id: state->AwaitRanked_inscription_id,
                    left: state->AwaitRanked_left,
                },
                ActionModel::Sleep { pause: Pause::Poll },
            )
        },
        EventModel::CursorSet { ok } => if ok {
            (
                StateModel::AwaitRound,
                ActionModel::Sleep { pause: Pause::Millis { millis: STEP_PAUSE_MILLIS } },
            )
        } else {
            retry()
        },
        EventModel::Woken => match state {
            StateModel::AwaitRankPause { n, inscription_id, left } => rank_or_advance(
                n,
                inscription_id,
                left,
            ),
            _ => (StateModel::AwaitStatus, ActionModel::FetchStatus),
        },
    }
}

fn retry_later() -> (r: (IngestState, IngestAction))
    ensures
        (r.0@, r.1@) == retry(),
{
    (IngestState::AwaitRound, IngestAction::Sleep { pause: Pause::Poll })
}

fn rank_next_category(n: u64, inscription_id: String, left: Vec<CategoryId>) -> (r: (
    IngestState,
    IngestAction,
))
    requires
        left@.len() == 0 ==> n < u64::MAX,
    ensures
        (r.0@, r.1@) == rank_or_advance(n, inscription_id@, left@),
{
    if left.len() > 0 {
        let mut left = left;
        let category = left.remove(0);
        let action = IngestAction::RecordRank { category, inscription_id: inscription_id.clone() };
        (IngestState::AwaitRanked { n, inscription_id, left }, action)
    } else {
        (IngestState::AwaitCursorSet, IngestAction::SetCursor { next: n + 1 })
    }
}

impl IngestState {
    /// The loop starts by asking for the status of the server.
    pub fn start() -> (r: (IngestState, IngestAction))
        ensures
            r.0@ is AwaitStatus,
            r.1@ is FetchStatus,
    {
        (IngestState::AwaitStatus, IngestAction::FetchStatus)
    }

    /// Whether `event` can be the answer to what is waited for, and the cursor
    /// can be raised where that comes next.
    pub fn fits(&self, event: &IngestEvent) -> (r: bool)
        ensures
            r == event_fits(self@, event@),
    {
        match (event, self) {
            (IngestEvent::Status { .. }, IngestState::AwaitStatus) => true,
            (IngestEvent::Opened { .. }, IngestState::AwaitDb) => true,
            (IngestEvent::Cursor { .. }, IngestState::AwaitCursor) => true,
            (IngestEvent::Inscription { .. }, IngestState::AwaitInscription { .. }) => true,
            (IngestEvent::Marked { ok }, IngestState::AwaitMarked { n, sat, .. }) => {
                let some_left = categories_for_sat(*sat).len() > 0;
                !*ok || some_left || *n < u64::MAX
            },
            (IngestEvent::Ranked { ok }, IngestState::AwaitRanked { n, left, .. }) => {
                !*ok || left.len() > 0 || *n < u64::MAX
            },
            (IngestEvent::CursorSet { .. }, IngestState::AwaitCursorSet) => true,
            (IngestEvent::Woken, IngestState::AwaitRankPause { n, left, .. }) => {
                left.len() > 0 || *n < u64::MAX
            },
            (IngestEvent::Woken, IngestState::AwaitRound) => true,
            _ => false,
        }
    }

    /// Takes in what came of the last action, and says what comes next.
    pub fn step(self, event: IngestEvent) -> (r: (IngestState, IngestAction))
        requires
            event_fits(self@, event@),
        ensures
            (r.0@, r.1@) == ingest_next(self@, event@),
            event matches IngestEvent::Status { status } ==> match status {
                Some(s) => if s.sat_index && s.inscription_index && s.height >= 767_430 {
                    r.0 is AwaitDb && r.1 is OpenDb
                } else {
                    r.0 is AwaitRound && r.1 is Sleep
                },
                None => r.0 is AwaitRound && r.1 is Sleep,
            },
    {
        match event {
            IngestEvent::Status { status } => match status {
                Some(s) => if s.sat_index && s.inscription_index && s.height
                    >= INSCRIPTION_START_HEIGHT {
                    (IngestState::AwaitDb, IngestAction::OpenDb)
                } else {
                    retry_later()
                },
                None => retry_later(),
            },
            IngestEvent::Opened { ok } => if ok {
                (IngestState::AwaitCursor, IngestAction::ReadCursor)
            } else {
                retry_later()
            },
            IngestEvent::Cursor { next } => match next {
                Some(n) => (
                    IngestState::AwaitInscription { n },
                    IngestAction::FetchInscription { n },
                ),
                None => retry_later(),
            },
            IngestEvent::Inscription { fetched } => match fetched {
                Fetched::Found { inscription_id, sat } => match self {
                    IngestState::AwaitInscription { n } => {
                        let action = IngestAction::MarkProcessed {
                            n,
                            inscription_id: inscription_id.clone(),
                        };
                        (IngestState::AwaitMarked { n, inscription_id, sat }, action)
                    },
                    _ => retry_later(),
                },
                Fetched::Malformed { .. } => (
                    IngestState::AwaitRound,
                    IngestAction::Sleep { pause: Pause::Millis { millis: SCHEMA_PAUSE_MILLIS } },
                ),
                _ => retry_later(),
            },
            IngestEvent::Marked { ok } => match self {
                IngestState::AwaitMarked { n, inscription_id, sat } => if ok {
                    rank_next_category(n, inscription_id, categories_for_sat(sat))
                } else {
                    retry_later()
                },
                _ => retry_later(),
            },
            IngestEvent::Ranked { ok } => match self {
                IngestState::AwaitRanked { n, inscription_id, left } => if ok {
                    rank_next_category(n, inscription_id, left)
                } else {
                    (
                        IngestState::AwaitRankPause { n, inscription_id, left },
                        IngestAction::Sleep { pause: Pause::Poll },
                    )
                },
                _ => retry_later(),
            },
            IngestEvent::CursorSet { ok } => if ok {
                (
                    IngestState::AwaitRound,
                    IngestAction::Sleep { pause: Pause::Millis { millis: STEP_PAUSE_MILLIS } },
                )
            } else {
                retry_later()
            },
            IngestEvent::Woken => match self {
                IngestState::AwaitRankPause { n, inscription_id, left } => rank_next_category(
                    n,
                    inscription_id,
                    left,
                ),
                _ => (IngestState::AwaitStatus, IngestAction::FetchStatus),
            },
        }
    }
}

/// What the loop waits for once it has taken in `events`.
pub open spec fn state_after(events: Seq<EventModel>) -> StateModel
    decreases events.len(),
{
    if events.len() == 0 {
        StateModel::AwaitStatus
    } else {
        ingest_next(state_after(events.drop_last()), events.last()).0
    }
}

/// Everything that the loop has asked for once it has taken in `events`. The
/// action at a place is the one that the event at that place answers.
pub open spec fn actions_after(events: Seq<EventModel>) -> Seq<ActionModel>
    decreases events.len(),
{
    if events.len() == 0 {
        seq![ActionModel::FetchStatus]
    } else {
        actions_after(events.drop_last()).push(
            ingest_next(state_after(events.drop_last()), events.last()).1,
        )
    }
}

/// Whether each of `events` answers what was asked for.
pub open spec fn answers(events: Seq<EventModel>) -> bool
    decreases events.len(),
{
    events.len() == 0 || (answers(events.drop_last()) && event_fits(
        state_after(events.drop_last()),
        events.last(),
    ))
}

/// The actions without the pauses.
pub open spec fn work(actions: Seq<ActionModel>) -> Seq<ActionModel> {
    actions.filter(|a: ActionModel| !(a is Sleep))
}

/// The recording of a rank in each of `cats`, in order.
pub open spec fn recordings(cats: Seq<CategoryId>, inscription_id: Seq<char>) -> Seq<ActionModel> {
    cats.map_values(|category: CategoryId| ActionModel::RecordRank { category, inscription_id })
}

/// Whether the answer at `at` put the loop on inscription number `n`, the next
/// answer was that inscription, and the one after it that the inscription is
/// noted.
pub open spec fn took_up(
    events: Seq<EventModel>,
    at: int,
    n: u64,
    inscription_id: Seq<char>,
    sat: u64,
) -> bool {
    &&& 0 <= at
    &&& at + 2 < events.len()
    &&& events[at] == EventModel::Cursor { next: Some(n) }
    &&& events[at + 1] == EventModel::Inscription {
        fetched: FetchedModel::Found { inscription_id, sat },
    }
    &&& events[at + 2] == EventModel::Marked { ok: true }
}

/// Whether the work since the inscription was noted is to have its rank
/// recorded in all categories of its sat but those in `left`.
pub open spec fn ranked_but(
    events: Seq<EventModel>,
    at: int,
    n: u64,
    inscription_id: Seq<char>,
    sat: u64,
    left: Seq<CategoryId>,
) -> bool {
    &&& took_up(events, at, n, inscription_id, sat)
    &&& work(actions_after(events).skip(at + 3)) + recordings(left, inscription_id) == recordings(
        categories_of(sat as nat),
        inscription_id,
    )
}

spec fn being_ranked(
    events: Seq<EventModel>,
    n: u64,
    inscription_id: Seq<char>,
    left: Seq<CategoryId>,
) -> bool {
    exists|at: int, sat: u64| ranked_but(events, at, n, inscription_id, sat, left)
}

spec fn loop_invariant(events: Seq<EventModel>) -> bool {
    let k = events.len();
    match state_after(events) {
        StateModel::AwaitInscription { n } => k >= 1 && events[k - 1] == EventModel::Cursor {
            next: Some(n),
        },
        StateModel::AwaitMarked { n, inscription_id, sat } => k >= 2 && events[k - 2]
            == EventModel::Cursor { next: Some(n) } && events[k - 1] == EventModel::Inscription {
            fetched: FetchedModel::Found { inscription_id, sat },
        },
        StateModel::AwaitRanked { n, inscription_id, left } => being_ranked(
            events,
            n,
            inscription_id,
            left,
        ),
        StateModel::AwaitRankPause { n, inscription_id, left } => being_ranked(
            events,
            n,
            inscription_id,
            left,
        ),
        _ => true,
    }
}

proof fn lemma_actions_len(events: Seq<EventModel>)
    ensures
        actions_after(events).len() == events.len() + 1,
    decreases events.len(),
{
    if events.len() > 0 {
        lemma_actions_len(events.drop_last());
    }
}

proof fn lemma_work_push(actions: Seq<ActionModel>, a: ActionModel)
    ensures
        work(actions.push(a)) == if a is Sleep {
            work(actions)
        } else {
            work(actions).push(a)
        },
{
    reveal(Seq::filter);
    assert(actions.push(a).drop_last() =~= actions);
}

/// One more event on an inscription that is being ranked: either another
/// recording was asked for, or a pause.
proof fn lemma_ranked_but_step(
    events: Seq<EventModel>,
    at: int,
    n: u64,
    inscription_id: Seq<char>,
    sat: u64,
    left: Seq<CategoryId>,
)
    requires
        events.len() > 0,
        ranked_but(events.drop_last(), at, n, inscription_id, sat, left),
    ensures
        ({
            let action = actions_after(events).last();
            &&& action is Sleep ==> ranked_but(events, at, n, inscription_id, sat, left)
            &&& left.len() > 0 && action == (ActionModel::RecordRank {
                category: left[0],
                inscription_id,
            }) ==> ranked_but(events, at, n, inscription_id, sat, left.drop_first())
        }),
{
    let before = events.drop_last();
    let action = actions_after(events).last();
    lemma_actions_len(before);
    assert(took_up(events, at, n, inscription_id, sat));
    assert(actions_after(events).skip(at + 3) =~= actions_after(before).skip(at + 3).push(action));
    lemma_work_push(actions_after(before).skip(at + 3), action);
    if left.len() > 0 && action == (ActionModel::RecordRank { category: left[0], inscription_id }) {
        let done = work(actions_after(before).skip(at + 3));
        assert(done.push(action) + recordings(left.drop_first(), inscription_id) =~= done
            + recordings(left, inscription_id));
    }
}

proof fn lemma_loop_invariant(events: Seq<EventModel>)
    requires
        answers(events),
    ensures
        loop_invariant(events),
    decreases events.len(),
{
    if events.len() > 0 {
        let before = events.drop_last();
        let event = events.last();
        let k = events.len();
        lemma_loop_invariant(before);
        lemma_actions_len(before);
        let (state, action) = ingest_next(state_after(before), event);
        assert(state_after(events) == state);
        assert(actions_after(events).last() == action);
        match state_after(before) {
            StateModel::AwaitMarked { n, inscription_id, sat } => {
                if event == (EventModel::Marked { ok: true }) {
                    let at = k - 3;
                    let cats = categories_of(sat as nat);
                    assert(took_up(events, at, n, inscription_id, sat));
                    if cats.len() > 0 {
                        assert(actions_after(events).skip(at + 3) =~= Seq::<ActionModel>::empty().push(
                            action,
                        ));
                        lemma_work_push(Seq::empty(), action);
                        reveal(Seq::filter);
                        assert(work(Seq::<ActionModel>::empty()) =~= Seq::empty());
                        assert(seq![action] + recordings(cats.drop_first(), inscription_id)
                            =~= recordings(cats, inscription_id));
                        assert(Seq::<ActionModel>::empty().push(action) =~= seq![action]);
                        assert(ranked_but(events, at, n, inscription_id, sat, cats.drop_first()));
                        assert(being_ranked(events, n, inscription_id, cats.drop_first()));
                    }
                }
            },
            StateModel::AwaitRanked { n, inscription_id, left } => {
                let (at, sat) = choose|at: int, sat: u64|
                    ranked_but(before, at, n, inscription_id, sat, left);
                lemma_ranked_but_step(events, at, n, inscription_id, sat, left);
                if action is RecordRank {
                    assert(ranked_but(events, at, n, inscription_id, sat, left.drop_first()));
                    assert(being_ranked(events, n, inscription_id, left.drop_first()));
                } else if action is Sleep {
                    assert(ranked_but(events, at, n, inscription_id, sat, left));
                    assert(being_ranked(events, n, inscription_id, left));
                }
            },
            StateModel::AwaitRankPause { n, inscription_id, left } => {
                let (at, sat) = choose|at: int, sat: u64|
                    ranked_but(before, at, n, inscription_id, sat, left);
                lemma_ranked_but_step(events, at, n, inscription_id, sat, left);
                if action is RecordRank {
                    assert(ranked_but(events, at, n, inscription_id, sat, left.drop_first()));
                    assert(being_ranked(events, n, inscription_id, left.drop_first()));
                } else if action is Sleep {
                    assert(ranked_but(events, at, n, inscription_id, sat, left));
                    assert(being_ranked(events, n, inscription_id, left));
                }
            },
            StateModel::AwaitInscription { n } => {
                assert(events[k - 2] == before[k - 2]);
            },
            _ => {},
        }
    }
}

/// The cursor is only ever moved from the number that was read to the one
/// behind it, and only once that inscription was found and noted, and its rank
/// was asked to be recorded in every category of its sat, in order and once
/// each. In particular no cursor is moved for an inscription that is absent,
/// malformed, or could not be fetched or noted.
pub proof fn law_cursor_moves_after_the_work(events: Seq<EventModel>, next: u64)
    requires
        answers(events),
        actions_after(events).last() == (ActionModel::SetCursor { next }),
    ensures
        exists|at: int, n: u64, inscription_id: Seq<char>, sat: u64|
            {
                &&& #[trigger] took_up(events, at, n, inscription_id, sat)
                &&& next == n + 1
                &&& actions_after(events)[at + 1] == (ActionModel::FetchInscription { n })
                &&& actions_after(events)[at + 2] == (ActionModel::MarkProcessed {
                    n,
                    inscription_id,
                })
                &&& work(actions_after(events).skip(at + 3)) == recordings(
                    categories_of(sat as nat),
                    inscription_id,
                ).push(ActionModel::SetCursor { next })
            },
{
    lemma_actions_len(events);
    assert(events.len() > 0);
    let before = events.drop_last();
    let event = events.last();
    let action = actions_after(events).last();
    lemma_loop_invariant(before);
    lemma_actions_len(before);
    let (at, n, inscription_id, sat) = match state_after(before) {
        StateModel::AwaitMarked { n, inscription_id, sat } => (
            events.len() - 3,
            n,
            inscription_id,
            sat,
        ),
        StateModel::AwaitRanked { n, inscription_id, left } => {
            let (at, sat) = choose|at: int, sat: u64|
                ranked_but(before, at, n, inscription_id, sat, left);
            (at, n, inscription_id, sat)
        },
        StateModel::AwaitRankPause { n, inscription_id, left } => {
            let (at, sat) = choose|at: int, sat: u64|
                ranked_but(before, at, n, inscription_id, sat, left);
            (at, n, inscription_id, sat)
        },
        _ => arbitrary(),
    };
    assert(took_up(events, at, n, inscription_id, sat));
    let cats = categories_of(sat as nat);
    let done = actions_after(before).skip(at + 3);
    assert(actions_after(events).skip(at + 3) =~= done.push(action));
    lemma_work_push(done, action);
    assert(work(done) == recordings(cats, inscription_id)) by {
        match state_after(before) {
            StateModel::AwaitMarked { .. } => {
                reveal(Seq::filter);
                assert(done =~= Seq::<ActionModel>::empty());
                assert(work(done) =~= Seq::<ActionModel>::empty());
                assert(recordings(cats, inscription_id) =~= Seq::<ActionModel>::empty());
            },
            StateModel::AwaitRanked { left, .. } => {
                assert(work(done) + recordings(left, inscription_id) =~= work(done));
            },
            StateModel::AwaitRankPause { left, .. } => {
                assert(work(done) + recordings(left, inscription_id) =~= work(done));
            },
            _ => {},
        }
    }
    lemma_action_at(events, at);
    lemma_action_at(events, at + 1);
}

/// The action behind the event at `k` is the one that the step on that event
/// gives.
proof fn lemma_action_at(events: Seq<EventModel>, k: int)
    requires
        0 <= k < events.len(),
    ensures
        actions_after(events)[k + 1] == ingest_next(state_after(events.take(k)), events[k]).1,
    decreases events.len(),
{
    lemma_actions_len(events.drop_last());
    if k == events.len() - 1 {
        assert(events.take(k) =~= events.drop_last());
    } else {
        lemma_action_at(events.drop_last(), k);
        assert(events.drop_last().take(k) =~= events.take(k));
    }
}

/// Whatever reports a failure is followed by a pause, and never by a write. A
/// failed recording is the only one after which the round goes on; after any
/// other, the next round starts from the status.
pub proof fn law_failures_pause(state: StateModel, event: EventModel)
    requires
        event_fits(state, event),
        match event {
            EventModel::Status { status } => match status {
                Some(s) => !s.sat_index || !s.inscription_index || s.height < 767_430,
                None => true,
            },
            EventModel::Opened { ok } => !ok,
            EventModel::Cursor { next } => next is None,
            EventModel::Inscription { fetched } => !(fetched is Found),
            EventModel::Marked { ok } => !ok,
            EventModel::Ranked { ok } => !ok,
            EventModel::CursorSet { ok } => !ok,
            EventModel::Woken => false,
        },
    ensures
        ingest_next(state, event).1 is Sleep,
        event is Ranked || ingest_next(state, event).0 is AwaitRound,
        ingest_next(StateModel::AwaitRound, EventModel::Woken) == (
            StateModel::AwaitStatus,
            ActionModel::FetchStatus,
        ),
{
}

/// What a server that is ready and has one more inscription, and a database
/// that nothing disturbs, make of what they are asked.
pub open spec fn undisturbed_answer(
    store: Store,
    status: OrdStatus,
    found: (Seq<char>, u64),
    action: ActionModel,
) -> (Store, EventModel) {
    match action {
        ActionModel::FetchStatus => (store, EventModel::Status { status: Some(status) }),
        ActionModel::OpenDb => (store, EventModel::Opened { ok: true }),
        ActionModel::ReadCursor => (
            store,
            EventModel::Cursor {
                next: match store.cursor_number() {
                    Some(n) => Some(n as u64),
                    None => None,
                },
            },
        ),
        ActionModel::FetchInscription { n } => (
            store,
            EventModel::Inscription {
                fetched: FetchedModel::Found { inscription_id: found.0, sat: found.1 },
            },
        ),
        ActionModel::MarkProcessed { n, inscription_id } => (
            store.execute(
                StatementModel::MarkProcessed { number: as_signed(n), inscription_id },
            )->0,
            EventModel::Marked { ok: true },
        ),
        ActionModel::RecordRank { category, inscription_id } => match recorded(
            store,
            category.name(),
            inscription_id,
        ) {
            Some((after, rank)) => (after, EventModel::Ranked { ok: true }),
            None => (store, EventModel::Ranked { ok: false }),
        },
        ActionModel::SetCursor { next } => (
            store.execute(StatementModel::SetCursor { text: decimal(next as nat) })->0,
            EventModel::CursorSet { ok: true },
        ),
        ActionModel::Sleep { pause } => (store, EventModel::Woken),
    }
}

/// The loop and its surroundings in turn, from an action on, up to the next
/// pause: the tables then, and the action that is the pause. At most `rounds`
/// questions are asked.
pub open spec fn round(
    store: Store,
    status: OrdStatus,
    found: (Seq<char>, u64),
    state: StateModel,
    action: ActionModel,
    rounds: nat,
) -> (Store, StateModel, ActionModel)
    decreases rounds,
{
    if rounds == 0 || action is Sleep {
        (store, state, action)
    } else {
        let (after, event) = undisturbed_answer(store, status, found, action);
        let (next_state, next_action) = ingest_next(state, event);
        round(after, status, found, next_state, next_action, (rounds - 1) as nat)
    }
}

/// The rest of a round, once the ranks in the first `done` categories are
/// recorded.
proof fn lemma_rest_of_round(
    marked: Store,
    status: OrdStatus,
    found: (Seq<char>, u64),
    n: u64,
    done: int,
    rounds: nat,
)
    requires
        has_room(marked),
        n < u64::MAX,
        0 <= done <= categories_of(found.1 as nat).len(),
        rounds >= categories_of(found.1 as nat).len() - done + 1,
    ensures
        ({
            let cats = categories_of(found.1 as nat);
            let store = recorded_in_all(marked, cats.take(done), found.0);
            let (state, action) = rank_or_advance(n, found.0, cats.skip(done));
            let all = recorded_in_all(marked, cats, found.0);
            round(store, status, found, state, action, rounds) == (
                all.execute(StatementModel::SetCursor { text: decimal((n + 1) as nat) })->0,
                StateModel::AwaitRound,
                ActionModel::Sleep { pause: Pause::Millis { millis: STEP_PAUSE_MILLIS } },
            )
        }),
    decreases categories_of(found.1 as nat).len() - done,
{
    let cats = categories_of(found.1 as nat);
    let store = recorded_in_all(marked, cats.take(done), found.0);
    let (state, action) = rank_or_advance(n, found.0, cats.skip(done));
    if done == cats.len() {
        assert(cats.take(done) =~= cats);
        reveal_with_fuel(round, 2);
    } else {
        law_categories_listed_once(found.1 as nat);
        assert(cats.take(done + 1).drop_last() =~= cats.take(done));
        assert(cats.skip(done).drop_first() =~= cats.skip(done + 1));
        assert(cats.skip(done)[0] == cats[done]);
        assert(cats.take(done).no_duplicates());
        assert(!cats.take(done).contains(cats[done]));
        lemma_recorded_in_all(marked, cats.take(done), found.0);
        assert(store.counts.contains_key(cats[done].name()));
        assert(store.counts[cats[done].name()] == marked.counts[cats[done].name()]);
        assert(recorded(store, cats[done].name(), found.0) is Some);
        lemma_rest_of_round(marked, status, found, n, done + 1, (rounds - 1) as nat);
    }
}

/// The first five questions of a round that nothing disturbs: the inscription
/// that the cursor is on is noted, and its ranks are next.
proof fn lemma_start_of_round(
    store: Store,
    status: OrdStatus,
    found: (Seq<char>, u64),
    n: u64,
    rounds: nat,
)
    requires
        ready(status),
        store.cursor_number() == Some(n as nat),
    ensures
        ({
            let marked = store.execute(
                StatementModel::MarkProcessed { number: as_signed(n), inscription_id: found.0 },
            )->0;
            let (state, action) = rank_or_advance(n, found.0, categories_of(found.1 as nat));
            round(
                store,
                status,
                found,
                StateModel::AwaitStatus,
                ActionModel::FetchStatus,
                rounds + 5,
            ) == round(marked, status, found, state, action, rounds)
        }),
{
    reveal_with_fuel(round, 6);
}

/// A round that nothing disturbs does to the tables what working through one
/// inscription means: the one that the cursor is on is noted, ranked in all
/// categories of its sat, and the cursor is moved behind it. Ten questions are
/// enough.
pub proof fn law_round_ingests_one(
    store: Store,
    status: OrdStatus,
    found: (Seq<char>, u64),
    n: u64,
)
    requires
        forall|c: CategoryId| store.counts.contains_key(#[trigger] c.name()),
        forall|c: CategoryId| store.counts[#[trigger] c.name()] < i64::MAX,
        status.sat_index,
        status.inscription_index,
        status.height >= 767_430,
        store.cursor_number() == Some(n as nat),
        n < u64::MAX,
    ensures
        round(store, status, found, StateModel::AwaitStatus, ActionModel::FetchStatus, 10) == (
            ingested(store, n, found.0, found.1),
            StateModel::AwaitRound,
            ActionModel::Sleep { pause: Pause::Millis { millis: STEP_PAUSE_MILLIS } },
        ),
{
    let marked = store.execute(
        StatementModel::MarkProcessed { number: as_signed(n), inscription_id: found.0 },
    )->0;
    let cats = categories_of(found.1 as nat);
    assert(has_room(marked));
    crate::category::all_categories().lemma_filter_len(|c: CategoryId| c.holds(found.1 as nat));
    assert(cats.len() <= 3);
    lemma_start_of_round(store, status, found, n, 5);
    lemma_rest_of_round(marked, status, found, n, 0, 5);
    assert(cats.take(0) =~= Seq::<CategoryId>::empty());
    assert(cats.skip(0) =~= cats);
}

/// Round by round, a new database comes to hold what working through the
/// inscriptions in the order of their numbers means: each round that nothing
/// disturbs adds the inscription behind those worked through before.
pub proof fn law_rounds_follow_the_numbers(items: Seq<(Seq<char>, u64)>, status: OrdStatus)
    requires
        items.len() > 0,
        items.len() < i64::MAX,
        forall|i: int, j: int|
            0 <= i < j < items.len() ==> (#[trigger] items[i]).0 != (#[trigger] items[j]).0,
        status.sat_index,
        status.inscription_index,
        status.height >= 767_430,
    ensures
        round(
            ingested_all(items.drop_last()),
            status,
            items.last(),
            StateModel::AwaitStatus,
            ActionModel::FetchStatus,
            10,
        ).0 == ingested_all(items),
{
    let earlier = items.drop_last();
    assert(distinct_ids(earlier)) by {
        assert forall|i: int, j: int| 0 <= i < j < earlier.len() implies (#[trigger] earlier[i]).0
            != (#[trigger] earlier[j]).0 by {
            assert(items[i].0 != items[j].0);
        }
    }
    law_ranks_are_places(earlier);
    lemma_members_bounded(earlier);
    law_round_ingests_one(
        ingested_all(earlier),
        status,
        items.last(),
        (items.len() - 1) as u64,
    );
}

/// What an answer of the server says of an inscription: a null that there is
/// none, and any other value the inscription with the id and the sat among its
/// members, whole and unchanged; where one of these is missing, it is of no use.
pub proof fn law_fetched_is_what_the_server_says(v: JsonModel, id: Seq<char>, sat: u64)
    ensures
        fetched_of(v) is Absent <==> v == JsonModel::Null,
        !(fetched_of(v) is Failed),
        ({
            let a = str_member(v, "id"@);
            let b = str_member(v, "inscription_id"@);
            let x = u64_member(v, "sat"@);
            let y = u64_member(v, "sat_number"@);
            let z = if v.member("satpoint"@) is Some {
                u64_member(v.member("satpoint"@)->0, "sat"@)
            } else {
                None
            };
            &&& fetched_of(v) == (FetchedModel::Found { inscription_id: id, sat }) <==> {
                &&& a == Some(id) || (a is None && b == Some(id))
                &&& x == Some(sat) || (x is None && y == Some(sat)) || (x is None && y is None && z
                    == Some(sat))
            }
            &&& fetched_of(v) is Malformed <==> v != JsonModel::Null && ((a is None && b is None)
                || (x is None && y is None && z is None))
        }),
{
}

/// The loop goes on to the database if and only if the server keeps both indexes
/// and has come to the height at which inscriptions start; with any other status,
/// and with none, it waits for the set interval. Every status is accepted.
pub proof fn law_ready_server_is_worked_through(status: OrdStatus)
    ensures
        event_fits(StateModel::AwaitStatus, EventModel::Status { status: Some(status) }),
        event_fits(StateModel::AwaitStatus, EventModel::Status { status: None }),
        ingest_next(StateModel::AwaitStatus, EventModel::Status { status: Some(status) }) == if (
        status.sat_index && status.inscription_index && status.height >= 767_430) {
            (StateModel::AwaitDb, ActionModel::OpenDb)
        } else {
            (StateModel::AwaitRound, ActionModel::Sleep { pause: Pause::Poll })
        },
        ingest_next(StateModel::AwaitStatus, EventModel::Status { status: None }) == (
            StateModel::AwaitRound,
            ActionModel::Sleep { pause: Pause::Poll },
        ),
{
}

/// The way from the database to the note: the cursor is read, the inscription of
/// exactly that number is asked for, and it is noted under that number with the
/// id that was found. Every answer is accepted, and what fails is waited for.
pub proof fn law_inscription_of_the_cursor_is_noted(
    n: u64,
    inscription_id: Seq<char>,
    sat: u64,
    error: ExtractError,
    ok: bool,
    fetched: FetchedModel,
)
    ensures
        event_fits(StateModel::AwaitDb, EventModel::Opened { ok }),
        ingest_next(StateModel::AwaitDb, EventModel::Opened { ok }) == if ok {
            (StateModel::AwaitCursor, ActionModel::ReadCursor)
        } else {
            (StateModel::AwaitRound, ActionModel::Sleep { pause: Pause::Poll })
        },
        event_fits(StateModel::AwaitCursor, EventModel::Cursor { next: Some(n) }),
        ingest_next(StateModel::AwaitCursor, EventModel::Cursor { next: Some(n) }) == (
            StateModel::AwaitInscription { n },
            ActionModel::FetchInscription { n },
        ),
        event_fits(StateModel::AwaitCursor, EventModel::Cursor { next: None }),
        ingest_next(StateModel::AwaitCursor, EventModel::Cursor { next: None }) == (
            StateModel::AwaitRound,
            ActionModel::Sleep { pause: Pause::Poll },
        ),
        event_fits(StateModel::AwaitInscription { n }, EventModel::Inscription { fetched }),
        ({
            let waits = StateModel::AwaitInscription { n };
            let found = FetchedModel::Found { inscription_id, sat };
            &&& ingest_next(waits, EventModel::Inscription { fetched: found }) == (
                StateModel::AwaitMarked { n, inscription_id, sat },
                ActionModel::MarkProcessed { n, inscription_id },
            )
            &&& ingest_next(
                waits,
                EventModel::Inscription { fetched: FetchedModel::Malformed { error } },
            ) == (
                StateModel::AwaitRound,
                ActionModel::Sleep { pause: Pause::Millis { millis: 10_000 } },
            )
            &&& ingest_next(waits, EventModel::Inscription { fetched: FetchedModel::Absent }) == (
                StateModel::AwaitRound,
                ActionModel::Sleep { pause: Pause::Poll },
            )
            &&& ingest_next(waits, EventModel::Inscription { fetched: FetchedModel::Failed }) == (
                StateModel::AwaitRound,
                ActionModel::Sleep { pause: Pause::Poll },
            )
        }),
{
}

/// The way from the note to the cursor: the rank is recorded in each category of
/// the sat that is left, the first one next, whether those before were recorded
/// or not; where none is left, the cursor is moved to the next number. Only then
/// is the next round short to wait for.
pub proof fn law_noted_inscription_is_ranked(
    n: u64,
    inscription_id: Seq<char>,
    sat: u64,
    left: Seq<CategoryId>,
)
    requires
        n < u64::MAX,
    ensures
        ({
            let cats = categories_of(sat as nat);
            let waits = StateModel::AwaitMarked { n, inscription_id, sat };
            &&& event_fits(waits, EventModel::Marked { ok: true })
            &&& event_fits(waits, EventModel::Marked { ok: false })
            &&& ingest_next(waits, EventModel::Marked { ok: true }) == if cats.len() > 0 {
                (
                    StateModel::AwaitRanked { n, inscription_id, left: cats.skip(1) },
                    ActionModel::RecordRank { category: cats[0], inscription_id },
                )
            } else {
                (StateModel::AwaitCursorSet, ActionModel::SetCursor { next: (n + 1) as u64 })
            }
            &&& ingest_next(waits, EventModel::Marked { ok: false }) == (
                StateModel::AwaitRound,
                ActionModel::Sleep { pause: Pause::Poll },
            )
        }),
        ({
            let waits = StateModel::AwaitRanked { n, inscription_id, left };
            let paused = StateModel::AwaitRankPause { n, inscription_id, left };
            let next = if left.len() > 0 {
                (
                    StateModel::AwaitRanked { n, inscription_id, left: left.skip(1) },
                    ActionModel::RecordRank { category: left[0], inscription_id },
                )
            } else {
                (StateModel::AwaitCursorSet, ActionModel::SetCursor { next: (n + 1) as u64 })
            };
            &&& event_fits(waits, EventModel::Ranked { ok: true })
            &&& event_fits(waits, EventModel::Ranked { ok: false })
            &&& event_fits(paused, EventModel::Woken)
            &&& ingest_next(waits, EventModel::Ranked { ok: true }) == next
            &&& ingest_next(waits, EventModel::Ranked { ok: false }) == (
                paused,
                ActionModel::Sleep { pause: Pause::Poll },
            )
            &&& ingest_next(paused, EventModel::Woken) == next
        }),
        event_fits(StateModel::AwaitCursorSet, EventModel::CursorSet { ok: true }),
        event_fits(StateModel::AwaitCursorSet, EventModel::CursorSet { ok: false }),
        event_fits(StateModel::AwaitRound, EventModel::Woken),
        ingest_next(StateModel::AwaitCursorSet, EventModel::CursorSet { ok: true }) == (
            StateModel::AwaitRound,
            ActionModel::Sleep { pause: Pause::Millis { millis: 50 } },
        ),
        ingest_next(StateModel::AwaitCursorSet, EventModel::CursorSet { ok: false }) == (
            StateModel::AwaitRound,
            ActionModel::Sleep { pause: Pause::Poll },
        ),
        ingest_next(StateModel::AwaitRound, EventModel::Woken) == (
            StateModel::AwaitStatus,
            ActionModel::FetchStatus,
        ),
{
    let cats = categories_of(sat as nat);
    if cats.len() > 0 {
        assert(cats.drop_first() =~= cats.skip(1));
    }
    if left.len() > 0 {
        assert(left.drop_first() =~= left.skip(1));
    }
}

/// The models of what the loop asks for and of what comes of it leave nothing
/// out and change nothing.
pub proof fn law_models_of_the_loop(
    n: u64,
    id: String,
    sat: u64,
    left: Vec<CategoryId>,
    category: CategoryId,
    pause: Pause,
    fetched: Fetched,
    next: Option<u64>,
    status: Option<OrdStatus>,
    ok: bool,
)
    ensures
        (IngestState::AwaitInscription { n })@ == (StateModel::AwaitInscription { n }),
        (IngestState::AwaitMarked { n, inscription_id: id, sat })@ == (StateModel::AwaitMarked {
            n,
            inscription_id: id@,
            sat,
        }),
        (IngestState::AwaitRanked { n, inscription_id: id, left })@ == (StateModel::AwaitRanked {
            n,
            inscription_id: id@,
            left: left@,
        }),
        (IngestState::AwaitRankPause { n, inscription_id: id, left })@
            == (StateModel::AwaitRankPause { n, inscription_id: id@, left: left@ }),
        (IngestAction::FetchInscription { n })@ == (ActionModel::FetchInscription { n }),
        (IngestAction::MarkProcessed { n, inscription_id: id })@ == (ActionModel::MarkProcessed {
            n,
            inscription_id: id@,
        }),
        (IngestAction::RecordRank { category, inscription_id: id })@ == (ActionModel::RecordRank {
            category,
            inscription_id: id@,
        }),
        (IngestAction::SetCursor { next: n })@ == (ActionModel::SetCursor { next: n }),
        (IngestAction::Sleep { pause })@ == (ActionModel::Sleep { pause }),
        (Fetched::Found { inscription_id: id, sat })@ == (FetchedModel::Found {
            inscription_id: id@,
            sat,
        }),
        (IngestEvent::Inscription { fetched })@ == (EventModel::Inscription { fetched: fetched@ }),
        (IngestEvent::Cursor { next })@ == (EventModel::Cursor { next }),
        (IngestEvent::Status { status })@ == (EventModel::Status { status }),
        (IngestEvent::Opened { ok })@ == (EventModel::Opened { ok }),
        (IngestEvent::Marked { ok })@ == (EventModel::Marked { ok }),
        (IngestEvent::Ranked { ok })@ == (EventModel::Ranked { ok }),
        (IngestEvent::CursorSet { ok })@ == (EventModel::CursorSet { ok }),
{
}

} // verus!
