//! Boards and the poll-diff-render-sync cycle.
//!
//! A board owns one external message and the last snapshot list committed to
//! it. Each tick the driver aggregates fresh snapshots, compares them
//! structurally against that list, and rewrites the message only on a
//! detected change; a redundant write is a correctness violation, not merely
//! wasteful. The decisions of the cycle live here as pure functions; the
//! host performs the fetches and sink writes between them.

use vstd::prelude::*;

use crate::api::live_eq;
use crate::api::vehicle_eq;
use crate::api::LiveData;
use crate::render::config_for;
use crate::render::panel_matches;
use crate::render::render;
use crate::render::DisplayConfig;
use crate::render::Panel;

verus! {

/// Why a fetch failed: transport trouble, a non-success response, or a
/// payload that does not conform to the snapshot schema.
#[derive(PartialEq, Eq, Structural, Clone, Copy, Debug)]
pub enum FetchError {
    Transport,
    Status,
    Schema,
}

/// A failure against the external sink. Failing to initialize is fatal for
/// the board that owns the message; a failed commit is retried by the next
/// differing cycle.
#[derive(PartialEq, Eq, Structural, Clone, Copy, Debug)]
pub enum SinkError {
    Init,
    Commit,
}

/// Structural equality of two snapshot lists: same length and every
/// positional element equal in every field.
pub open spec fn snapshots_eq(a: Seq<LiveData>, b: Seq<LiveData>) -> bool {
    a.len() == b.len() && (forall|i: int| 0 <= i < a.len() ==> live_eq(#[trigger] a[i], b[i]))
}

/// Detects a material change between the previously committed snapshot list
/// and the newly aggregated one. True exactly when the lists differ in
/// length or in any field of any positional element; no numeric tolerance is
/// applied.
pub fn changed(previous: &Vec<LiveData>, current: &Vec<LiveData>) -> (r: bool)
    ensures
        r == !snapshots_eq(previous@, current@),
{
    if previous.len() != current.len() {
        return true;
    }
    let mut i: usize = 0;
    while i < previous.len()
        invariant
            i <= previous@.len(),
            previous@.len() == current@.len(),
            previous@.len() == previous.len(),
            forall|k: int| 0 <= k < i ==> live_eq(#[trigger] previous@[k], current@[k]),
        decreases previous@.len() - i,
    {
        if !(previous[i] == current[i]) {
            return true;
        }
        i = i + 1;
    }
    false
}

/// The names of the sub-targets the default snapshot's catalog announces, in
/// catalog order; these are the targets an aggregation must fetch.
pub fn sub_target_names(default_snapshot: &LiveData) -> (names: Vec<String>)
    ensures
        names@.len() == default_snapshot.server_list@.len(),
        forall|i: int|
            0 <= i < names@.len() ==> (#[trigger] names@[i])@
                == default_snapshot.server_list@[i].name@,
{
    let mut names: Vec<String> = Vec::new();
    let mut i: usize = 0;
    while i < default_snapshot.server_list.len()
        invariant
            i <= default_snapshot.server_list@.len(),
            default_snapshot.server_list@.len() == default_snapshot.server_list.len(),
            names@.len() == i,
            forall|k: int|
                0 <= k < i ==> (#[trigger] names@[k])@ == default_snapshot.server_list@[k].name@,
        decreases default_snapshot.server_list@.len() - i,
    {
        names.push(default_snapshot.server_list[i].name.clone());
        i = i + 1;
    }
    names
}

/// The snapshots that survive a round of per-target fetches: the successful
/// results, in target order, with failed targets dropped for this cycle.
pub open spec fn kept(results: Seq<Option<LiveData>>) -> Seq<LiveData>
    decreases results.len(),
{
    if results.len() == 0 {
        Seq::<LiveData>::empty()
    } else {
        (match results[0] {
            Some(d) => seq![d],
            None => Seq::<LiveData>::empty(),
        }) + kept(results.drop_first())
    }
}

/// Collects the successful per-target fetch results, in order. A failed
/// sub-target fetch drops only that target from this cycle's list.
pub fn collect_snapshots(results: Vec<Option<LiveData>>) -> (out: Vec<LiveData>)
    ensures
        out@ == kept(results@),
{
    let ghost all = results@;
    let mut results = results;
    let mut out: Vec<LiveData> = Vec::new();
    while results.len() > 0
        invariant
            kept(all) == out@ + kept(results@),
        decreases results@.len(),
    {
        let ghost before = results@;
        let r = results.remove(0);
        proof {
            assert(results@ =~= before.drop_first());
        }
        match r {
            Some(d) => {
                out.push(d);
                proof {
                    assert(out@ + kept(results@) =~= kept(all));
                }
            },
            None => {},
        }
    }
    proof {
        assert(out@ + kept(results@) =~= out@);
    }
    out
}

/// The lifecycle phase of a board: starting until its owned message exists,
/// then running forever.
#[derive(PartialEq, Eq, Structural, Clone, Copy, Debug)]
pub enum BoardPhase {
    Starting,
    Running,
}

/// The default cadence between cycles, in seconds.
pub const DEFAULT_INTERVAL_SECS: u64 = 1;

/// One externally synchronized display surface: the identity of the message
/// it owns, its cadence, its phase, and the last snapshot list successfully
/// committed. That list is the sole cross-cycle state and changes only after
/// the sink confirmed a write.
pub struct Board {
    pub message_id: u64,
    pub interval_secs: u64,
    pub phase: BoardPhase,
    pub last_committed: Vec<LiveData>,
}

impl Board {
    /// A fresh board owning `message_id`, with nothing committed yet.
    pub fn new(message_id: u64, interval_secs: u64) -> (b: Board)
        ensures
            b.message_id == message_id,
            b.interval_secs == interval_secs,
            b.phase is Starting,
            b.last_committed@ == Seq::<LiveData>::empty(),
    {
        let b = Board {
            message_id,
            interval_secs,
            phase: BoardPhase::Starting,
            last_committed: Vec::new(),
        };
        b
    }

    /// Marks the board running once startup cleanup and the placeholder post
    /// have succeeded.
    pub fn start(&mut self)
        requires
            old(self).phase is Starting,
        ensures
            final(self).phase is Running,
            final(self).message_id == old(self).message_id,
            final(self).interval_secs == old(self).interval_secs,
            final(self).last_committed == old(self).last_committed,
    {
        self.phase = BoardPhase::Running;
    }
}

/// The outcome a cycle's sink work is planned from.
pub enum CycleOutcome {
    /// Aggregation failed; nothing is compared or written this cycle.
    Skipped(FetchError),
    /// No material change; the sink must not be touched.
    Unchanged,
    /// The data changed: commit these panels, then record this list.
    Committed(Vec<Panel>, Vec<LiveData>),
}

/// How the board cleanup went during startup.
#[derive(PartialEq, Eq, Structural, Clone, Copy, Debug)]
pub enum DeleteOutcome {
    /// Stale prior content was deleted.
    Deleted,
    /// There was nothing to delete; startup continues normally.
    NothingToDelete,
    /// The deletion itself failed.
    Failed,
}

/// Judges a board's startup: cleanup finding nothing to delete is benign,
/// while a failed deletion or a failed placeholder post is fatal for this
/// board alone.
pub fn initialize_verdict(cleanup: &DeleteOutcome, placeholder_posted: bool) -> (r: Result<
    (),
    SinkError,
>)
    ensures
        r is Ok <==> (!(cleanup is Failed) && placeholder_posted),
        r is Err ==> r == Err::<(), SinkError>(SinkError::Init),
{
    match cleanup {
        DeleteOutcome::Failed => Err(SinkError::Init),
        _ => {
            if placeholder_posted {
                Ok(())
            } else {
                Err(SinkError::Init)
            }
        },
    }
}

/// Plans one cycle for a running board from this tick's aggregation result:
/// a failed aggregation skips the cycle, an unchanged list leaves the sink
/// untouched, and a changed list is rendered for exactly one commit.
pub fn plan_cycle(
    board: &Board,
    aggregation: Result<Vec<LiveData>, FetchError>,
    config: &DisplayConfig,
) -> (o: CycleOutcome)
    requires
        board.phase is Running,
    ensures
        match aggregation {
            Err(e) => o == CycleOutcome::Skipped(e),
            Ok(cur) => if snapshots_eq(board.last_committed@, cur@) {
                o is Unchanged
            } else {
                o matches CycleOutcome::Committed(panels, next) && next == cur && panels@.len()
                    == cur@.len() && (forall|i: int|
                    0 <= i < cur@.len() ==> panel_matches(
                        #[trigger] panels@[i],
                        cur@[i],
                        config_for(config.entries@, cur@[i].m_scoring_info.m_server_name@),
                    ))
            },
        },
{
    match aggregation {
        Err(e) => CycleOutcome::Skipped(e),
        Ok(cur) => {
            if !changed(&board.last_committed, &cur) {
                CycleOutcome::Unchanged
            } else {
                let panels = render(&cur, config);
                CycleOutcome::Committed(panels, cur)
            }
        },
    }
}

/// Records a committed snapshot list only when the sink confirmed the write.
/// A failed or abandoned commit leaves the previous committed state in
/// place, so the next differing cycle retries it.
pub fn apply_commit_result(board: &mut Board, committed: Vec<LiveData>, sink_ok: bool)
    requires
        old(board).phase is Running,
    ensures
        sink_ok ==> final(board).last_committed == committed,
        !sink_ok ==> final(board).last_committed == old(board).last_committed,
        final(board).message_id == old(board).message_id,
        final(board).interval_secs == old(board).interval_secs,
        final(board).phase == old(board).phase,
{
    if sink_ok {
        board.last_committed = committed;
    }
}

/// Change detection is reflexive: a snapshot list never differs from itself,
/// so identical consecutive aggregation results plan no commit between them.
pub proof fn lemma_changed_reflexive(a: Seq<LiveData>)
    ensures
        snapshots_eq(a, a),
{
    assert forall|i: int| 0 <= i < a.len() implies live_eq(#[trigger] a[i], a[i]) by {}
}

/// A difference in any single participant field of any snapshot is detected
/// as a change, whatever the rest of the two lists holds.
pub proof fn lemma_participant_difference_detected(
    a: Seq<LiveData>,
    b: Seq<LiveData>,
    i: int,
    j: int,
)
    requires
        0 <= i < a.len(),
        i < b.len(),
        0 <= j < a[i].m_vehicles@.len(),
        j < b[i].m_vehicles@.len(),
        !vehicle_eq(a[i].m_vehicles@[j], b[i].m_vehicles@[j]),
    ensures
        !snapshots_eq(a, b),
{
    if snapshots_eq(a, b) {
        assert(live_eq(a[i], b[i]));
        assert(vehicle_eq(a[i].m_vehicles@[j], b[i].m_vehicles@[j]));
    }
}

/// Exactly one commit per change: an aggregation result differing from the
/// recorded list in a single participant field plans a commit, and once it
/// is recorded, an identical follow-up aggregation plans none.
pub proof fn lemma_exactly_one_commit_per_change(
    recorded: Seq<LiveData>,
    cur: Seq<LiveData>,
    i: int,
    j: int,
)
    requires
        0 <= i < recorded.len(),
        i < cur.len(),
        0 <= j < recorded[i].m_vehicles@.len(),
        j < cur[i].m_vehicles@.len(),
        !vehicle_eq(recorded[i].m_vehicles@[j], cur[i].m_vehicles@[j]),
    ensures
        !snapshots_eq(recorded, cur),
        snapshots_eq(cur, cur),
{
    lemma_participant_difference_detected(recorded, cur, i, j);
    lemma_changed_reflexive(cur);
}

/// One failed fetch drops only its own target: every successful result still
/// appears in the collected snapshot list.
pub proof fn lemma_partial_failure_isolated(results: Seq<Option<LiveData>>, k: int)
    requires
        0 <= k < results.len(),
        results[k] is Some,
    ensures
        kept(results).contains(results[k]->0),
    decreases results.len(),
{
    if k == 0 {
        assert(kept(results)[0] == results[0]->0);
    } else {
        lemma_partial_failure_isolated(results.drop_first(), k - 1);
        let rest = kept(results.drop_first());
        let m = choose|m: int| 0 <= m < rest.len() && rest[m] == results.drop_first()[k - 1]->0;
        let head_len: int = match results[0] {
            Some(_) => 1,
            None => 0,
        };
        assert(kept(results)[m + head_len] == rest[m]);
        assert(results.drop_first()[k - 1] == results[k]);
    }
}

} // verus!