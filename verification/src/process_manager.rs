//! The supervisor's decision core: the table of launched process
//! slots and the table of detected URLs, with every start / stop /
//! poll / status decision as a verified transition.
//!
//! The surrounding application owns the actual OS processes.  It asks
//! `plan_start` whether and how to spawn, reports the spawned process
//! id through `register_started`, reports poll results through
//! `poll_check` / `on_process_exit`, and takes the process id to
//! signal from `begin_stop`.  Each slot's live handle is modelled here
//! as the child process id; taking it (`begin_stop`) or clearing it
//! (`on_process_exit`) is what serializes stop against the poll loop.

use vstd::prelude::*;

use crate::errors::AppError;
use crate::events::{ServiceStatus, StatusEvent};
use crate::text::{composite_id, composite_of, split_whitespace_tokens, split_ws};
use vstd::hash_map::StringHashMap;

verus! {

/// One launchable slot: the live child's process id, if any, and
/// whether the slot counts as running.  A record is never deleted,
/// only reset to not-running.
#[derive(Debug, Clone, Copy)]
pub struct ProcessState {
    pub child: Option<u32>,
    pub running: bool,
}

impl Default for ProcessState {
    /// An empty slot: no live child, not running.
    fn default() -> (r: Self)
        ensures
            r.child is None,
            !r.running,
    {
        ProcessState { child: None, running: false }
    }
}

/// Everything needed to launch one service, supplied per call.
#[derive(Debug, Clone)]
pub struct ServiceSpec {
    pub project_id: String,
    pub service_id: String,
    pub name: String,
    pub path: String,
    pub command: String,
    pub detect_url: bool,
}

/// The spawn a successful `plan_start` asks for: the slot key, the
/// program, and its arguments.
#[derive(Debug, Clone)]
pub struct StartPlan {
    pub composite_id: String,
    pub program: String,
    pub args: Vec<String>,
}

/// The two tables of supervisor state: process slots and detected
/// URLs, both keyed by composite id.
pub struct ProcessManager {
    processes: StringHashMap<ProcessState>,
    ids: Vec<String>,
    detected_urls: StringHashMap<String>,
}

impl ProcessManager {
    /// The process table: composite id to slot state.
    pub closed spec fn procs(self) -> Map<Seq<char>, ProcessState> {
        self.processes@
    }

    /// The URL table: composite id to the last URL seen on its output.
    pub closed spec fn urls(self) -> Map<Seq<char>, Seq<char>> {
        self.detected_urls@.map_values(|s: String| s@)
    }

    /// The keys of the process table, in insertion order.
    pub closed spec fn id_list(self) -> Seq<Seq<char>> {
        self.ids.deep_view()
    }

    /// Well-formedness: the ordered key list carries each process-table
    /// key exactly once.
    pub closed spec fn wf(self) -> bool {
        &&& self.id_list().no_duplicates()
        &&& forall|k: Seq<char>|
            #![trigger self.procs().contains_key(k)]
            #![trigger self.id_list().contains(k)]
            self.procs().contains_key(k) <==> self.id_list().contains(k)
    }

    /// Whether the slot for `id` is recorded as running.
    pub open spec fn is_running(self, id: Seq<char>) -> bool {
        self.procs().contains_key(id) && self.procs()[id].running
    }

    /// The status snapshot this state derives: for every known slot,
    /// its running flag and its detected URL, if any.
    pub open spec fn status_map(self) -> Map<Seq<char>, (bool, Option<Seq<char>>)> {
        Map::new(
            |k: Seq<char>| self.procs().contains_key(k),
            |k: Seq<char>|
                (
                    self.procs()[k].running,
                    if self.urls().contains_key(k) {
                        Some(self.urls()[k])
                    } else {
                        None
                    },
                ),
        )
    }

    /// An empty supervisor: no slots, no URLs.
    pub fn new() -> (r: Self)
        ensures
            r.wf(),
            r.procs() == Map::<Seq<char>, ProcessState>::empty(),
            r.urls() == Map::<Seq<char>, Seq<char>>::empty(),
    {
        let r = ProcessManager {
            processes: StringHashMap::new(),
            ids: Vec::new(),
            detected_urls: StringHashMap::new(),
        };
        proof {
            assert(r.id_list() =~= Seq::<Seq<char>>::empty());
            assert(r.urls() =~= Map::<Seq<char>, Seq<char>>::empty());
        }
        r
    }

    /// Decides whether a start may go ahead.  Refuses a slot that is
    /// already running, then a command line without tokens; otherwise
    /// hands back the composite id, the program (first token) and the
    /// remaining tokens as arguments.  No record is created or
    /// changed here: registration happens only after a successful
    /// spawn, through `register_started`.
    pub fn plan_start(&self, spec: &ServiceSpec) -> (r: Result<StartPlan, AppError>)
        ensures
            self.is_running(composite_of(spec.project_id@, spec.service_id@)) ==> (r matches Err(
                e,
            ) && e matches AppError::ServiceAlreadyRunning { service_id } && service_id@
                == spec.service_id@),
            !self.is_running(composite_of(spec.project_id@, spec.service_id@)) && split_ws(
                spec.command@,
            ).len() == 0 ==> (r matches Err(e) && e matches AppError::EmptyCommand),
            !self.is_running(composite_of(spec.project_id@, spec.service_id@)) && split_ws(
                spec.command@,
            ).len() > 0 ==> (r matches Ok(plan) && plan.composite_id@ == composite_of(
                spec.project_id@,
                spec.service_id@,
            ) && plan.program@ == split_ws(spec.command@)[0] && plan.args.deep_view() == split_ws(
                spec.command@,
            ).drop_first()),
    {
        let cid = composite_id(spec.project_id.as_str(), spec.service_id.as_str());
        let running = match self.processes.get(cid.as_str()) {
            Some(st) => st.running,
            None => false,
        };
        if running {
            return Err(AppError::ServiceAlreadyRunning { service_id: spec.service_id.clone() });
        }
        let toks = split_whitespace_tokens(spec.command.as_str());
        if toks.len() == 0 {
            return Err(AppError::EmptyCommand);
        }
        let program = toks[0].clone();
        let mut args: Vec<String> = Vec::new();
        let mut i: usize = 1;
        while i < toks.len()
            invariant
                1 <= i <= toks.len(),
                args.deep_view() == toks.deep_view().subrange(1, i as int),
            decreases toks.len() - i,
        {
            let ghost prev = args.deep_view();
            args.push(toks[i].clone());
            proof {
                assert(args.deep_view() =~= prev.push(toks@[i as int]@));
                assert(prev.push(toks@[i as int]@) =~= toks.deep_view().subrange(1, i as int + 1));
            }
            i = i + 1;
        }
        proof {
            assert(toks.deep_view().subrange(1, toks.deep_view().len() as int) =~= toks.deep_view()
                .drop_first());
        }
        Ok(StartPlan { composite_id: cid, program, args })
    }

    /// Records a successful spawn: the slot becomes running with the
    /// given child process id.  Every other slot and every URL entry
    /// is untouched.
    pub fn register_started(&mut self, composite_id: &str, pid: u32)
        requires
            old(self).wf(),
        ensures
            final(self).wf(),
            final(self).procs() == old(self).procs().insert(
                composite_id@,
                ProcessState { child: Some(pid), running: true },
            ),
            final(self).urls() == old(self).urls(),
            final(self).is_running(composite_id@),
    {
        let ghost old_ids = self.id_list();
        let present = self.processes.contains_key(composite_id);
        if !present {
            self.ids.push(String::from_str(composite_id));
        }
        self.processes.insert(
            String::from_str(composite_id),
            ProcessState { child: Some(pid), running: true },
        );
        proof {
            if !present {
                assert(self.id_list() =~= old_ids.push(composite_id@));
                assert(!old_ids.contains(composite_id@));
                assert forall|k: Seq<char>| #[trigger]
                    self.id_list().contains(k) implies old_ids.contains(k) || k
                    == composite_id@ by {
                    let i = choose|i: int|
                        0 <= i < self.id_list().len() && self.id_list()[i] == k;
                    if i < old_ids.len() {
                        assert(old_ids[i] == k);
                    }
                }
                assert forall|k: Seq<char>|
                    old_ids.contains(k) || k == composite_id@ implies #[trigger] self.id_list()
                    .contains(k) by {
                    if old_ids.contains(k) {
                        let i = choose|i: int| 0 <= i < old_ids.len() && old_ids[i] == k;
                        assert(self.id_list()[i] == k);
                    } else {
                        assert(self.id_list()[old_ids.len() as int] == k);
                    }
                }
                assert forall|i: int, j: int|
                    0 <= i < j < self.id_list().len() implies self.id_list()[i]
                    != self.id_list()[j] by {
                    if j < old_ids.len() {
                        assert(old_ids[i] != old_ids[j]);
                    } else {
                        assert(self.id_list()[j] == composite_id@);
                        assert(old_ids[i] == self.id_list()[i]);
                        assert(old_ids.contains(old_ids[i]));
                    }
                }
                assert(self.id_list().no_duplicates());
            }
            assert(self.wf());
        }
    }

    /// Takes exclusive ownership of the slot's live handle for
    /// teardown: if a child is recorded, it is returned and the slot
    /// is immediately marked not-running, so a new start may proceed
    /// before the kill completes.  With no live child the call is a
    /// no-op: no error, no state change.
    pub fn begin_stop(&mut self, composite_id: &str) -> (r: Option<u32>)
        requires
            old(self).wf(),
        ensures
            final(self).wf(),
            match r {
                Some(pid) => old(self).procs().contains_key(composite_id@)
                    && old(self).procs().index(composite_id@).child == Some(pid)
                    && final(self).procs() == old(self).procs().insert(
                    composite_id@,
                    ProcessState { child: None, running: false },
                ) && final(self).urls() == old(self).urls(),
                None => *final(self) == *old(self) && (!old(self).procs().contains_key(
                    composite_id@,
                ) || old(self).procs().index(composite_id@).child is None),
            },
    {
        let child = match self.processes.get(composite_id) {
            Some(st) => st.child,
            None => None,
        };
        match child {
            Some(pid) => {
                self.processes.insert(
                    String::from_str(composite_id),
                    ProcessState { child: None, running: false },
                );
                proof {
                    assert forall|k: Seq<char>| #[trigger]
                        self.procs().contains_key(k) implies self.id_list().contains(k) by {
                        assert(old(self).procs().contains_key(k));
                    }
                    assert(self.wf());
                }
                Some(pid)
            },
            None => None,
        }
    }

    /// Clears the slot's detected-URL entry, the last step of a stop.
    pub fn finish_stop(&mut self, composite_id: &str)
        requires
            old(self).wf(),
        ensures
            final(self).wf(),
            final(self).procs() == old(self).procs(),
            final(self).urls() == old(self).urls().remove(composite_id@),
    {
        self.detected_urls.remove(composite_id);
        proof {
            lemma_url_view_remove(old(self).detected_urls@, composite_id@);
        }
    }

    /// The cleanup the liveness poll performs once the process has
    /// exited (or the liveness check itself failed): the handle is
    /// cleared, the slot marked not-running, and the URL entry
    /// removed.  A slot already reset by a concurrent stop is left as
    /// it stands.
    pub fn on_process_exit(&mut self, composite_id: &str)
        requires
            old(self).wf(),
        ensures
            final(self).wf(),
            old(self).procs().contains_key(composite_id@) ==> final(self).procs() == old(
                self,
            ).procs().insert(composite_id@, ProcessState { child: None, running: false }),
            !old(self).procs().contains_key(composite_id@) ==> final(self).procs() == old(
                self,
            ).procs(),
            final(self).urls() == old(self).urls().remove(composite_id@),
    {
        let present = self.processes.contains_key(composite_id);
        if present {
            self.processes.insert(
                String::from_str(composite_id),
                ProcessState { child: None, running: false },
            );
        }
        self.detected_urls.remove(composite_id);
        proof {
            lemma_url_view_remove(old(self).detected_urls@, composite_id@);
            if present {
                assert forall|k: Seq<char>| #[trigger]
                    self.procs().contains_key(k) implies self.id_list().contains(k) by {
                    assert(old(self).procs().contains_key(k));
                }
            }
            assert(self.wf());
        }
    }

    /// Records a URL seen on the slot's output; the last one seen
    /// wins.  The process table is untouched.
    pub fn record_url(&mut self, composite_id: &str, url: &str)
        requires
            old(self).wf(),
        ensures
            final(self).wf(),
            final(self).procs() == old(self).procs(),
            final(self).urls() == old(self).urls().insert(composite_id@, url@),
    {
        let val = String::from_str(url);
        let ghost v = val;
        self.detected_urls.insert(String::from_str(composite_id), val);
        proof {
            lemma_url_view_insert(old(self).detected_urls@, composite_id@, v);
        }
    }

    /// What the liveness poll should do next for this slot: the child
    /// process id still to be watched, or `None` when the slot has no
    /// live handle any more and polling should end.
    pub fn poll_check(&self, composite_id: &str) -> (r: Option<u32>)
        ensures
            match r {
                Some(pid) => self.procs().contains_key(composite_id@) && self.procs().index(
                    composite_id@,
                ).child == Some(pid),
                None => !self.procs().contains_key(composite_id@) || self.procs().index(
                    composite_id@,
                ).child is None,
            },
    {
        match self.processes.get(composite_id) {
            Some(st) => st.child,
            None => None,
        }
    }

    /// The current status snapshot: one entry per known slot, a pure
    /// derivation of the two tables.
    pub fn status(&self) -> (r: StatusEvent)
        requires
            self.wf(),
        ensures
            r.as_map() == self.status_map(),
            forall|i: int, j: int|
                0 <= i < j < r.services@.len() ==> (#[trigger] r.services@[i]).0@ != (
                #[trigger] r.services@[j]).0@,
    {
        let mut services: Vec<(String, ServiceStatus)> = Vec::new();
        let mut i: usize = 0;
        while i < self.ids.len()
            invariant
                self.wf(),
                i <= self.ids.len(),
                services@.len() == i,
                forall|j: int| 0 <= j < i ==> (#[trigger] services@[j]).0@ == self.id_list()[j],
                forall|k: Seq<char>| #[trigger]
                    crate::events::services_map(services@).contains_key(k)
                        ==> self.status_map().contains_key(k) && crate::events::services_map(
                        services@,
                    )[k] == self.status_map()[k],
                forall|j: int|
                    0 <= j < i ==> crate::events::services_map(services@).contains_key(
                        #[trigger] self.id_list()[j],
                    ),
            decreases self.ids.len() - i,
        {
            let ghost prev = services@;
            let id: &String = &self.ids[i];
            proof {
                assert(self.id_list()[i as int] == id@);
                assert(self.id_list().contains(id@));
            }
            let st: ProcessState = match self.processes.get(id.as_str()) {
                Some(s) => *s,
                None => vstd::pervasive::unreached(),
            };
            let url_opt: Option<String> = match self.detected_urls.get(id.as_str()) {
                Some(u) => Some(u.clone()),
                None => None,
            };
            let entry_status = ServiceStatus { running: st.running, url: url_opt };
            proof {
                assert(entry_status.view_of() == self.status_map()[id@]);
            }
            services.push((id.clone(), entry_status));
            proof {
                assert(services@.drop_last() =~= prev);
                assert(crate::events::services_map(services@) == crate::events::services_map(
                    prev,
                ).insert(id@, entry_status.view_of()));
            }
            i = i + 1;
        }
        let r = StatusEvent { services };
        proof {
            assert forall|k: Seq<char>| #[trigger]
                self.status_map().contains_key(k) implies r.as_map().contains_key(k) by {
                assert(self.procs().contains_key(k));
                assert(self.id_list().contains(k));
                let j = choose|j: int| 0 <= j < self.id_list().len() && self.id_list()[j] == k;
                assert(r.as_map().contains_key(self.id_list()[j]));
            }
            assert(r.as_map() =~= self.status_map());
        }
        r
    }

    /// Whether `pid` is the recorded live child of slot `k`.
    pub open spec fn is_child_of(self, pid: u32, k: Seq<char>) -> bool {
        self.procs().contains_key(k) && self.procs()[k].child == Some(pid)
    }

    /// Whether some slot records `pid` as its live child.
    pub open spec fn some_slot_child(self, pid: u32) -> bool {
        exists|k: Seq<char>| self.is_child_of(pid, k)
    }

    /// The process ids of every slot with a live handle, for the
    /// synchronous best-effort teardown at application shutdown.
    /// Every returned id belongs to some slot, and no live child is
    /// missed.
    pub fn active_children(&self) -> (r: Vec<u32>)
        requires
            self.wf(),
        ensures
            forall|j: int| 0 <= j < r@.len() ==> self.some_slot_child(#[trigger] r@[j]),
            forall|k: Seq<char>|
                self.procs().contains_key(k) && (#[trigger] self.procs().index(k)).child is Some
                    ==> r@.contains(self.procs()[k].child->0),
    {
        let mut r: Vec<u32> = Vec::new();
        let ghost mut ws: Seq<Seq<char>> = Seq::empty();
        let mut i: usize = 0;
        while i < self.ids.len()
            invariant
                self.wf(),
                i <= self.ids.len(),
                ws.len() == r@.len(),
                forall|j: int|
                    0 <= j < r@.len() ==> self.is_child_of(#[trigger] r@[j], ws[j]),
                forall|j: int|
                    0 <= j < i && self.procs().contains_key(#[trigger] self.id_list()[j])
                        && self.procs()[self.id_list()[j]].child is Some ==> r@.contains(
                        self.procs()[self.id_list()[j]].child->0,
                    ),
            decreases self.ids.len() - i,
        {
            let ghost prev = r@;
            let id: &String = &self.ids[i];
            proof {
                assert(self.id_list()[i as int] == id@);
                assert(self.id_list().contains(id@));
            }
            match self.processes.get(id.as_str()) {
                Some(st) => {
                    match st.child {
                        Some(pid) => {
                            r.push(pid);
                            proof {
                                ws = ws.push(id@);
                                assert(self.is_child_of(pid, id@));
                                assert forall|y: u32| prev.contains(y) implies #[trigger] r@
                                    .contains(y) by {
                                    let j = choose|j: int|
                                        0 <= j < prev.len() && prev[j] == y;
                                    assert(r@[j] == y);
                                }
                                assert(r@.contains(pid)) by {
                                    assert(r@[prev.len() as int] == pid);
                                }
                            }
                        },
                        None => {},
                    }
                },
                None => {
                    proof {
                        assert(false);
                    }
                },
            }
            i = i + 1;
        }
        proof {
            assert forall|j: int| 0 <= j < r@.len() implies self.some_slot_child(
                #[trigger] r@[j],
            ) by {
                assert(self.is_child_of(r@[j], ws[j]));
            }
            assert forall|k: Seq<char>|
                self.procs().contains_key(k) && (#[trigger] self.procs().index(k)).child
                    is Some implies r@.contains(self.procs()[k].child->0) by {
                assert(self.id_list().contains(k));
                let j = choose|j: int| 0 <= j < self.id_list().len() && self.id_list()[j] == k;
                assert(self.procs().contains_key(self.id_list()[j]));
            }
        }
        r
    }
}

/// Mapping a string-valued table to its character-sequence view
/// commutes with insertion.
proof fn lemma_url_view_insert(m: Map<Seq<char>, String>, k: Seq<char>, v: String)
    ensures
        m.insert(k, v).map_values(|s: String| s@) == m.map_values(|s: String| s@).insert(k, v@),
{
    assert(m.insert(k, v).map_values(|s: String| s@) =~= m.map_values(|s: String| s@).insert(
        k,
        v@,
    ));
}

/// Mapping a string-valued table to its character-sequence view
/// commutes with removal.
proof fn lemma_url_view_remove(m: Map<Seq<char>, String>, k: Seq<char>)
    ensures
        m.remove(k).map_values(|s: String| s@) == m.map_values(|s: String| s@).remove(k),
{
    assert(m.remove(k).map_values(|s: String| s@) =~= m.map_values(|s: String| s@).remove(k));
}

/// A slot freshly registered as started is recorded as running.
/// `plan_start` refuses exactly such slots with `ServiceAlreadyRunning`,
/// and refusal changes nothing, so a second start on the same
/// composite id fails while the first process stays recorded.
pub proof fn lemma_second_start_refused(
    m0: ProcessManager,
    m1: ProcessManager,
    cid: Seq<char>,
    pid: u32,
)
    requires
        m1.procs() == m0.procs().insert(cid, ProcessState { child: Some(pid), running: true }),
    ensures
        m1.is_running(cid),
{
}

/// While a slot is recorded as running, every status snapshot derived
/// from the state reports running = true for it.
pub proof fn lemma_running_in_status(m: ProcessManager, cid: Seq<char>)
    requires
        m.is_running(cid),
    ensures
        m.status_map().contains_key(cid),
        m.status_map()[cid].0 == true,
{
}

/// After `begin_stop` takes the slot's handle and `finish_stop`
/// clears its URL entry, the status snapshot reports running = false
/// and no URL for that composite id.
pub proof fn lemma_stop_clears_status(
    m0: ProcessManager,
    m1: ProcessManager,
    m2: ProcessManager,
    cid: Seq<char>,
)
    requires
        m1.procs() == m0.procs().insert(cid, ProcessState { child: None, running: false }),
        m2.procs() == m1.procs(),
        m2.urls() == m1.urls().remove(cid),
    ensures
        m2.status_map().contains_key(cid),
        m2.status_map()[cid] == (false, None::<Seq<char>>),
{
}

/// The liveness poll's cleanup leaves the slot not-running with no
/// URL: the exit of the process itself ends the running report just
/// as a stop does.
pub proof fn lemma_exit_clears_status(m0: ProcessManager, m1: ProcessManager, cid: Seq<char>)
    requires
        m0.procs().contains_key(cid),
        m1.procs() == m0.procs().insert(cid, ProcessState { child: None, running: false }),
        m1.urls() == m0.urls().remove(cid),
    ensures
        m1.status_map().contains_key(cid),
        m1.status_map()[cid] == (false, None::<Seq<char>>),
{
}

} // verus!
