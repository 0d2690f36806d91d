use vstd::prelude::*;

use crate::classify::classify;
use crate::classify::classify_spec;
use crate::identity::AppIdentity;

verus! {

/// Upper bound on the number of processes the ancestry walk inspects. It
/// guards against cycles or pathological process trees causing unbounded
/// work; a walk that exhausts it falls back to the default identity.
pub const MAX_HOPS: u32 = 20;

/// One position of the bounded walk up the process tree: either still
/// ascending from a process, with the number of hops already taken, or
/// finished with a resolved identity. The walk never fails: every terminal
/// state carries an identity, `Terminal` being the fallback.
///
/// The walk itself is driven from outside: the caller queries the operating
/// system for the command string and parent of the process this state names,
/// and feeds the answer to `step`. Each record is a snapshot; the live
/// process tree may change between queries, and no consistency across hops
/// is assumed.
#[derive(Clone, Copy, Debug, PartialEq, Eq, Structural)]
pub enum WalkState {
    Running { current: u32, hops: u32 },
    Finished { id: AppIdentity },
}

/// The transition the walk makes on one (command, parent-pid) snapshot:
/// a classifiable command resolves the walk at once; a parent at or below
/// the process-tree root, or an exhausted hop budget, resolves it to the
/// default; otherwise the walk ascends to the parent. A finished walk
/// stays finished.
pub open spec fn spec_step(st: WalkState, comm: Seq<char>, ppid: u32) -> WalkState {
    match st {
        WalkState::Finished { .. } => st,
        WalkState::Running { current, hops } => match classify_spec(comm) {
            Some(id) => WalkState::Finished { id },
            None => if ppid <= 1 {
                WalkState::Finished { id: AppIdentity::Terminal }
            } else if hops + 1 >= MAX_HOPS {
                WalkState::Finished { id: AppIdentity::Terminal }
            } else {
                WalkState::Running { current: ppid, hops: (hops + 1) as u32 }
            },
        },
    }
}

/// The state a walk reaches after consuming a sequence of snapshots in
/// order. Records beyond the point where the walk finishes are ignored.
pub open spec fn walk_through(st: WalkState, records: Seq<(Seq<char>, u32)>) -> WalkState
    decreases records.len(),
{
    if records.len() == 0 {
        st
    } else {
        walk_through(spec_step(st, records[0].0, records[0].1), records.drop_first())
    }
}

impl WalkState {
    /// Begins a walk at the process the caller wants classified.
    pub fn start(pid: u32) -> (st: WalkState)
        ensures
            st == (WalkState::Running { current: pid, hops: 0 }),
    {
        WalkState::Running { current: pid, hops: 0 }
    }

    /// The process the caller must query next, or `None` once the walk is
    /// finished and no further query is needed.
    pub fn query_target(&self) -> (r: Option<u32>)
        ensures
            match *self {
                WalkState::Running { current, .. } => r == Some(current),
                WalkState::Finished { .. } => r is None,
            },
    {
        match *self {
            WalkState::Running { current, .. } => Some(current),
            WalkState::Finished { .. } => None,
        }
    }

    /// Consumes one snapshot — the command string and parent pid that the
    /// operating system reported for the current process — and moves the
    /// walk forward.
    pub fn step(self, comm: &str, ppid: u32) -> (next: WalkState)
        ensures
            next == spec_step(self, comm@, ppid),
    {
        match self {
            WalkState::Finished { .. } => self,
            WalkState::Running { current: _, hops } => {
                match classify(comm) {
                    Some(id) => WalkState::Finished { id },
                    None => {
                        if ppid <= 1 {
                            WalkState::Finished { id: AppIdentity::Terminal }
                        } else if hops >= MAX_HOPS - 1 {
                            WalkState::Finished { id: AppIdentity::Terminal }
                        } else {
                            WalkState::Running { current: ppid, hops: hops + 1 }
                        }
                    },
                }
            },
        }
    }

    /// Resolves the walk when a query on the current process failed
    /// (process vanished, permission denied): the walk still yields a
    /// usable identity, the default.
    pub fn query_failed(self) -> (next: WalkState)
        ensures
            next == (WalkState::Finished { id: AppIdentity::Terminal }),
    {
        WalkState::Finished { id: AppIdentity::Terminal }
    }

    /// The identity the walk resolved, once it is finished.
    pub fn resolved(&self) -> (r: Option<AppIdentity>)
        ensures
            match *self {
                WalkState::Finished { id } => r == Some(id),
                WalkState::Running { .. } => r is None,
            },
    {
        match *self {
            WalkState::Finished { id } => Some(id),
            WalkState::Running { .. } => None,
        }
    }
}

proof fn lemma_walk_finished(id: AppIdentity, records: Seq<(Seq<char>, u32)>)
    ensures
        walk_through(WalkState::Finished { id }, records) == (WalkState::Finished { id }),
    decreases records.len(),
{
    if records.len() > 0 {
        lemma_walk_finished(id, records.drop_first());
    }
}

proof fn lemma_unclassified_walk(current: u32, hops: u32, records: Seq<(Seq<char>, u32)>)
    requires
        hops < MAX_HOPS,
        forall|i: int| 0 <= i < records.len() ==> classify_spec(#[trigger] records[i].0) is None,
        records.len() + hops >= MAX_HOPS || (exists|i: int|
            0 <= i < records.len() && #[trigger] records[i].1 <= 1),
    ensures
        walk_through(WalkState::Running { current, hops }, records) == (WalkState::Finished {
            id: AppIdentity::Terminal,
        }),
    decreases records.len(),
{
    let first = records[0];
    let next = spec_step(WalkState::Running { current, hops }, first.0, first.1);
    if first.1 <= 1 || hops + 1 >= MAX_HOPS {
        lemma_walk_finished(AppIdentity::Terminal, records.drop_first());
    } else {
        assert(next == (WalkState::Running { current: first.1, hops: (hops + 1) as u32 }));
        assert forall|i: int|
            0 <= i < records.drop_first().len() implies classify_spec(
            #[trigger] records.drop_first()[i].0,
        ) is None by {
            assert(records.drop_first()[i] == records[i + 1]);
        }
        if !(records.len() + hops + 1 >= MAX_HOPS + 1) {
            assert(exists|i: int| 0 <= i < records.len() && #[trigger] records[i].1 <= 1);
        }
        if exists|i: int| 0 <= i < records.len() && #[trigger] records[i].1 <= 1 {
            let w = choose|i: int| 0 <= i < records.len() && #[trigger] records[i].1 <= 1;
            assert(w != 0);
            assert(records.drop_first()[w - 1].1 <= 1);
        }
        lemma_unclassified_walk(first.1, (hops + 1) as u32, records.drop_first());
    }
}

/// A walk started at any process whose entire recorded ancestor chain up to
/// the root yields no classifiable command resolves to the default identity.
/// The chain must either reach the root (a record with parent pid at or
/// below 1) or hold at least `MAX_HOPS` records.
pub proof fn lemma_unclassifiable_chain_defaults(pid: u32, records: Seq<(Seq<char>, u32)>)
    requires
        forall|i: int| 0 <= i < records.len() ==> classify_spec(#[trigger] records[i].0) is None,
        records.len() >= MAX_HOPS || (exists|i: int|
            0 <= i < records.len() && #[trigger] records[i].1 <= 1),
    ensures
        walk_through(WalkState::Running { current: pid, hops: 0 }, records) == (WalkState::Finished {
            id: AppIdentity::Terminal,
        }),
{
    lemma_unclassified_walk(pid, 0, records);
}

proof fn lemma_walk_take(current: u32, hops: u32, records: Seq<(Seq<char>, u32)>, budget: int)
    requires
        hops < MAX_HOPS,
        budget == MAX_HOPS - hops,
        records.len() >= budget,
    ensures
        walk_through(WalkState::Running { current, hops }, records) == walk_through(
            WalkState::Running { current, hops },
            records.take(budget),
        ),
    decreases records.len(),
{
    let st = WalkState::Running { current, hops };
    let first = records[0];
    let next = spec_step(st, first.0, first.1);
    assert(records.take(budget)[0] == first);
    assert(records.take(budget).drop_first() =~= records.drop_first().take(budget - 1));
    match next {
        WalkState::Finished { id } => {
            lemma_walk_finished(id, records.drop_first());
            lemma_walk_finished(id, records.take(budget).drop_first());
        },
        WalkState::Running { current: c2, hops: h2 } => {
            lemma_walk_take(c2, h2, records.drop_first(), budget - 1);
        },
    }
}

/// The walk inspects no more than `MAX_HOPS` records: however long the
/// chain of snapshots, its outcome is already determined by the first
/// `MAX_HOPS` of them.
pub proof fn lemma_walk_bounded(pid: u32, records: Seq<(Seq<char>, u32)>)
    requires
        records.len() >= MAX_HOPS,
    ensures
        walk_through(WalkState::Running { current: pid, hops: 0 }, records) == walk_through(
            WalkState::Running { current: pid, hops: 0 },
            records.take(MAX_HOPS as int),
        ),
{
    lemma_walk_take(pid, 0, records, MAX_HOPS as int);
}

} // verus!
