use vstd::prelude::*;

use super::listing::{tt_list, wu_list, ws_list};
use super::store::{tt_pos_in, tt_unique, wu_pos_in, wu_unique, ws_pos_in, ws_unique, AuthorityState};
use super::types::{TrackedThreadRecord, WorkUnitRecord, WorkstreamRecord};

verus! {

/// A work unit with its tracked threads.
#[derive(Debug)]
pub struct WorkUnitNode {
    pub work_unit: WorkUnitRecord,
    pub tracked_threads: Vec<TrackedThreadRecord>,
}

/// A workstream with its work units.
#[derive(Debug)]
pub struct WorkstreamNode {
    pub workstream: WorkstreamRecord,
    pub work_units: Vec<WorkUnitNode>,
}

/// The whole hierarchy as the listings give it.
#[derive(Debug)]
pub struct HierarchySnapshot {
    pub workstreams: Vec<WorkstreamNode>,
}

/// Whether a work-unit node lists the unit and exactly its tracked threads.
pub open spec fn work_unit_node_ok(s: AuthorityState, n: WorkUnitNode, w: WorkUnitRecord, include_deleted: bool) -> bool {
    &&& n.work_unit == w
    &&& n.tracked_threads@ == tt_list(s.tracked_threads@, w.id@, include_deleted)
}

/// Whether a workstream node lists the workstream and exactly its work units, each with its
/// tracked threads.
pub open spec fn workstream_node_ok(s: AuthorityState, n: WorkstreamNode, w: WorkstreamRecord, include_deleted: bool) -> bool {
    let units = wu_list(s.work_units@, Some(w.id@), include_deleted);
    &&& n.workstream == w
    &&& n.work_units@.len() == units.len()
    &&& forall|j: int| 0 <= j < units.len() ==> work_unit_node_ok(s, #[trigger] n.work_units@[j], units[j], include_deleted)
}

/// Whether a snapshot is the hierarchy of the store, every level in listing order.
pub open spec fn snapshot_of(s: AuthorityState, snap: HierarchySnapshot, include_deleted: bool) -> bool {
    let streams = ws_list(s.workstreams@, include_deleted);
    &&& snap.workstreams@.len() == streams.len()
    &&& forall|i: int| 0 <= i < streams.len() ==> workstream_node_ok(s, #[trigger] snap.workstreams@[i], streams[i], include_deleted)
}

impl AuthorityState {
    /// The hierarchy of workstreams, work units and tracked threads, each level most recently
    /// updated first; deleted entries only when asked for.
    pub fn hierarchy_snapshot(&self, include_deleted: bool) -> (r: HierarchySnapshot)
        requires
            self.wf(),
        ensures
            snapshot_of(*self, r, include_deleted),
    {
        let streams = self.list_workstreams(include_deleted);
        let mut nodes: Vec<WorkstreamNode> = Vec::new();
        let mut i: usize = 0;
        while i < streams.len()
            invariant
                self.wf(),
                i <= streams@.len(),
                streams@ == ws_list(self.workstreams@, include_deleted),
                nodes@.len() == i,
                forall|x: int| 0 <= x < i ==> workstream_node_ok(*self, #[trigger] nodes@[x], streams@[x], include_deleted),
            decreases streams.len() - i,
        {
            let units = self.list_work_units(Some(streams[i].id.as_str()), include_deleted);
            let mut unit_nodes: Vec<WorkUnitNode> = Vec::new();
            let mut j: usize = 0;
            while j < units.len()
                invariant
                    self.wf(),
                    j <= units@.len(),
                    unit_nodes@.len() == j,
                    forall|x: int| 0 <= x < j ==> work_unit_node_ok(*self, #[trigger] unit_nodes@[x], units@[x], include_deleted),
                decreases units.len() - j,
            {
                let threads = self.list_tracked_threads(units[j].id.as_str(), include_deleted);
                unit_nodes.push(WorkUnitNode { work_unit: units[j].copy(), tracked_threads: threads });
                j = j + 1;
            }
            nodes.push(WorkstreamNode { workstream: streams[i].copy(), work_units: unit_nodes });
            proof {
                assert(workstream_node_ok(*self, nodes@[i as int], streams@[i as int], include_deleted));
            }
            i = i + 1;
        }
        HierarchySnapshot { workstreams: nodes }
    }

    /// The workstream with an id, deleted or not.
    pub fn get_workstream(&self, id: &str) -> (r: Option<WorkstreamRecord>)
        requires
            ws_unique(self.workstreams@),
        ensures
            r == (match ws_pos_in(self.workstreams@, id@) {
                Some(i) => Some(self.workstreams@[i]),
                None => None,
            }),
    {
        match self.find_workstream(id) {
            Some(i) => Some(self.workstreams[i].copy()),
            None => None,
        }
    }

    /// The work unit with an id, deleted or not.
    pub fn get_work_unit(&self, id: &str) -> (r: Option<WorkUnitRecord>)
        requires
            wu_unique(self.work_units@),
        ensures
            r == (match wu_pos_in(self.work_units@, id@) {
                Some(i) => Some(self.work_units@[i]),
                None => None,
            }),
    {
        match self.find_work_unit(id) {
            Some(i) => Some(self.work_units[i].copy()),
            None => None,
        }
    }

    /// The tracked thread with an id, deleted or not.
    pub fn get_tracked_thread(&self, id: &str) -> (r: Option<TrackedThreadRecord>)
        requires
            tt_unique(self.tracked_threads@),
        ensures
            r == (match tt_pos_in(self.tracked_threads@, id@) {
                Some(i) => Some(self.tracked_threads@[i]),
                None => None,
            }),
    {
        match self.find_tracked_thread(id) {
            Some(i) => Some(self.tracked_threads[i].copy()),
            None => None,
        }
    }
}

} // verus!
