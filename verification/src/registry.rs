//! The registry of in-flight jobs: the single authoritative store of each
//! job's process id, declared total duration and last emitted percentage.
//! All reads and updates go through it by job id; a job id never appears
//! twice at once.
use vstd::prelude::*;
use vstd::string::StrSliceExecFns;

use crate::chars::{chars_eq, dec_str_spec, u64_to_dec_string};
use crate::command::{CommandModel, ParseCommand};

verus! {

/// One tracked job: its id, the OS process id used for termination, the
/// built command kept for diagnostics, and the progress pair.
pub struct ParseTask {
    pub id: String,
    pub pid: u32,
    pub command: ParseCommand,
    pub duration: u64,
    pub percent: u8,
}

/// The mathematical content of a `ParseTask`.
pub struct TaskModel {
    pub id: Seq<char>,
    pub pid: u32,
    pub command: CommandModel,
    pub duration: u64,
    pub percent: u8,
}

impl View for ParseTask {
    type V = TaskModel;

    open spec fn view(&self) -> TaskModel {
        TaskModel {
            id: self.id@,
            pid: self.pid,
            command: self.command@,
            duration: self.duration,
            percent: self.percent,
        }
    }
}

impl DeepView for ParseTask {
    type V = TaskModel;

    open spec fn deep_view(&self) -> TaskModel {
        self.view()
    }
}

/// Some task of the table carries this id.
pub open spec fn contains_id(m: Seq<TaskModel>, id: Seq<char>) -> bool {
    exists|i: int| 0 <= i < m.len() && m[i].id == id
}

/// The position of the task carrying this id (unique in a well-formed
/// table).
pub open spec fn index_of_id(m: Seq<TaskModel>, id: Seq<char>) -> int {
    choose|i: int| 0 <= i < m.len() && #[trigger] m[i].id == id
}

/// The table after recording a declared total duration for the job: its
/// entry updated where the id is present, untouched where it is not.
pub open spec fn duration_set(m: Seq<TaskModel>, id: Seq<char>, duration: u64) -> Seq<TaskModel> {
    if contains_id(m, id) {
        let k = index_of_id(m, id);
        m.update(k, TaskModel { duration, ..m[k] })
    } else {
        m
    }
}

/// The clamped, rounded percentage that `elapsed` of `total` denotes:
/// `round(100 * elapsed / total)` with halves away from zero, never above
/// 100.
pub open spec fn percent_of(elapsed: u64, total: u64) -> int
    recommends
        total > 0,
{
    let q = (200 * (elapsed as int) + (total as int)) / (2 * (total as int));
    if q > 100 {
        100
    } else {
        q
    }
}

/// The table and the emitted percentage after an elapsed-time report: where
/// the id is present, its total duration declared, and the new percentage
/// strictly above the last emitted one, the entry is updated and the new
/// percentage emitted; in every other case nothing changes and nothing is
/// emitted.
pub open spec fn percent_step(m: Seq<TaskModel>, id: Seq<char>, elapsed: u64) -> (
    Seq<TaskModel>,
    Option<u8>,
) {
    if !contains_id(m, id) {
        (m, None)
    } else {
        let k = index_of_id(m, id);
        let t = m[k];
        if t.duration == 0 {
            (m, None)
        } else {
            let p = percent_of(elapsed, t.duration);
            if p > t.percent {
                (m.update(k, TaskModel { percent: p as u8, ..t }), Some(p as u8))
            } else {
                (m, None)
            }
        }
    }
}

/// No job id appears twice in the table.
pub open spec fn unique_ids(m: Seq<TaskModel>) -> bool {
    forall|i: int, j: int| 0 <= i < j < m.len() ==> #[trigger] m[i].id != #[trigger] m[j].id
}

/// The table and all emitted percentages after a whole sequence of
/// elapsed-time reports for one job, applied in order.
pub open spec fn percent_step_trace(m: Seq<TaskModel>, id: Seq<char>, elapsed: Seq<u64>) -> (
    Seq<TaskModel>,
    Seq<u8>,
)
    decreases elapsed.len(),
{
    if elapsed.len() == 0 {
        (m, Seq::empty())
    } else {
        let st = percent_step(m, id, elapsed[0]);
        let rest = percent_step_trace(st.0, id, elapsed.drop_first());
        (
            rest.0,
            (match st.1 {
                Some(p) => seq![p],
                None => Seq::<u8>::empty(),
            }) + rest.1,
        )
    }
}

/// One elapsed report touches at most the reported job's percent field: the
/// ids, durations and positions all stay, so lookups stay where they were.
proof fn lemma_percent_step_frame(m: Seq<TaskModel>, id: Seq<char>, e: u64)
    requires
        unique_ids(m),
    ensures
        unique_ids(percent_step(m, id, e).0),
        percent_step(m, id, e).0.len() == m.len(),
        forall|i: int|
            0 <= i < m.len() ==> #[trigger] percent_step(m, id, e).0[i].id == m[i].id
                && percent_step(m, id, e).0[i].duration == m[i].duration,
        contains_id(percent_step(m, id, e).0, id) == contains_id(m, id),
        contains_id(m, id) ==> index_of_id(percent_step(m, id, e).0, id) == index_of_id(m, id)
            && percent_step(m, id, e).0[index_of_id(m, id)].percent >= m[index_of_id(
            m,
            id,
        )].percent,
        match percent_step(m, id, e).1 {
            Some(p) => contains_id(m, id) && p > m[index_of_id(m, id)].percent && percent_step(
                m,
                id,
                e,
            ).0[index_of_id(m, id)].percent == p,
            None => contains_id(m, id) ==> percent_step(m, id, e).0[index_of_id(m, id)].percent
                == m[index_of_id(m, id)].percent,
        },
{
    if contains_id(m, id) {
        let k = index_of_id(m, id);
        assert(0 <= k < m.len() && m[k].id == id);
        let st = percent_step(m, id, e);
        let m2 = st.0;
        assert forall|i: int| 0 <= i < m.len() implies #[trigger] m2[i].id == m[i].id
            && m2[i].duration == m[i].duration by {}
        if contains_id(m2, id) {
            let k2 = index_of_id(m2, id);
            assert(0 <= k2 < m2.len() && m2[k2].id == id);
            if k2 != k {
                if k2 < k {
                    assert(m[k2].id != m[k].id);
                } else {
                    assert(m[k].id != m[k2].id);
                }
            }
        }
        assert(contains_id(m2, id)) by {
            assert(m2[k].id == id);
        }
    }
}

/// Law: over any sequence of elapsed-time reports for one job, the emitted
/// percentages strictly increase — so they are monotone, and no value is
/// ever emitted twice, consecutively or otherwise.  Each emitted value also
/// lies strictly above the job's percentage at the start of the run.
pub proof fn lemma_percent_emissions_strictly_increase(
    m: Seq<TaskModel>,
    id: Seq<char>,
    elapsed: Seq<u64>,
)
    requires
        unique_ids(m),
    ensures
        forall|x: int, y: int|
            0 <= x < y < percent_step_trace(m, id, elapsed).1.len() ==> percent_step_trace(
                m,
                id,
                elapsed,
            ).1[x] < percent_step_trace(m, id, elapsed).1[y],
        contains_id(m, id) ==> forall|x: int|
            0 <= x < percent_step_trace(m, id, elapsed).1.len() ==> percent_step_trace(
                m,
                id,
                elapsed,
            ).1[x] > m[index_of_id(m, id)].percent,
        !contains_id(m, id) ==> percent_step_trace(m, id, elapsed).1.len() == 0,
    decreases elapsed.len(),
{
    if elapsed.len() > 0 {
        let st = percent_step(m, id, elapsed[0]);
        lemma_percent_step_frame(m, id, elapsed[0]);
        lemma_percent_emissions_strictly_increase(st.0, id, elapsed.drop_first());
        let rest = percent_step_trace(st.0, id, elapsed.drop_first());
        let tr = percent_step_trace(m, id, elapsed).1;
        if !contains_id(m, id) {
            assert(st.0 == m && st.1 is None);
            assert(tr =~= rest.1);
        } else {
            let k = index_of_id(m, id);
            match st.1 {
                Some(p) => {
                    assert(tr =~= seq![p] + rest.1);
                    assert(forall|x: int|
                        0 <= x < rest.1.len() ==> rest.1[x] > st.0[index_of_id(st.0, id)].percent);
                    assert(st.0[index_of_id(st.0, id)].percent == p);
                },
                None => {
                    assert(tr =~= rest.1);
                },
            }
        }
    }
}

/// The table after a job's removal: its entry taken out where the id is
/// present, untouched where it is not.
pub open spec fn remove_id(m: Seq<TaskModel>, id: Seq<char>) -> Seq<TaskModel> {
    if contains_id(m, id) {
        m.remove(index_of_id(m, id))
    } else {
        m
    }
}

/// The store of all in-flight jobs.
pub struct TaskRegistry {
    tasks: Vec<ParseTask>,
}

impl View for TaskRegistry {
    type V = Seq<TaskModel>;

    closed spec fn view(&self) -> Seq<TaskModel> {
        self.tasks.deep_view()
    }
}

impl TaskRegistry {
    /// No job id appears twice.
    pub open spec fn wf(&self) -> bool {
        unique_ids(self@)
    }

    /// An empty registry.
    pub fn new() -> (r: TaskRegistry)
        ensures
            r@ == Seq::<TaskModel>::empty(),
            r.wf(),
    {
        let r = TaskRegistry { tasks: Vec::new() };
        proof {
            assert(r@ =~= Seq::<TaskModel>::empty());
        }
        r
    }

    /// How many jobs are in flight.
    pub fn len(&self) -> (r: usize)
        ensures
            r == self@.len(),
    {
        self.tasks.len()
    }

    /// Position of the task with this id, when one is registered.
    fn find_index(&self, id: &str) -> (r: Option<usize>)
        ensures
            match r {
                Some(k) => 0 <= k < self@.len() && self@[k as int].id == id@ && forall|j: int|
                    0 <= j < k ==> self@[j].id != id@,
                None => !contains_id(self@, id@),
            },
    {
        let mut k: usize = 0;
        while k < self.tasks.len()
            invariant
                k <= self@.len(),
                self@.len() == self.tasks.len(),
                forall|j: int| 0 <= j < k ==> self@[j].id != id@,
            decreases self@.len() - k,
        {
            if chars_eq(self.tasks[k].id.as_str(), id) {
                return Some(k);
            }
            k += 1;
        }
        None
    }

    /// Whether a job with this id is registered.
    pub fn has_task(&self, id: &str) -> (r: bool)
        ensures
            r == contains_id(self@, id@),
    {
        match self.find_index(id) {
            Some(_) => true,
            None => false,
        }
    }

    /// Registers a fresh job.  Refuses (and changes nothing) when the id is
    /// already present, so a registered id is never duplicated.
    pub fn register(&mut self, task: ParseTask) -> (r: bool)
        requires
            old(self).wf(),
        ensures
            final(self).wf(),
            r == !contains_id(old(self)@, task@.id),
            r ==> final(self)@ == old(self)@.push(task@),
            !r ==> final(self)@ == old(self)@,
    {
        match self.find_index(task.id.as_str()) {
            Some(_) => false,
            None => {
                self.tasks.push(task);
                proof {
                    assert(self@ =~= old(self)@.push(task@));
                }
                true
            },
        }
    }

    /// Records the total duration declared for the job, if it is registered.
    pub fn set_duration(&mut self, id: &str, duration: u64)
        requires
            old(self).wf(),
        ensures
            final(self).wf(),
            final(self)@ == duration_set(old(self)@, id@, duration),
    {
        match self.find_index(id) {
            None => {},
            Some(k) => {
                proof {
                    lemma_index_of_id_agrees(old(self)@, id@, k as int);
                }
                let t = self.tasks.remove(k);
                let updated = ParseTask { duration, ..t };
                self.tasks.insert(k, updated);
                proof {
                    assert(self@ =~= old(self)@.update(
                        k as int,
                        TaskModel { duration, ..old(self)@[k as int] },
                    ));
                    assert(self.wf()) by {
                        assert(forall|i: int|
                            0 <= i < self@.len() ==> self@[i].id == #[trigger] old(self)@[i].id);
                    }
                }
            },
        }
    }

    /// Applies an elapsed-time report: computes the clamped rounded
    /// percentage against the declared duration and emits it iff it rose
    /// above the last emitted value, recording the new value.
    pub fn update_percent(&mut self, id: &str, elapsed: u64) -> (r: Option<u8>)
        requires
            old(self).wf(),
        ensures
            final(self).wf(),
            final(self)@ == percent_step(old(self)@, id@, elapsed).0,
            r == percent_step(old(self)@, id@, elapsed).1,
    {
        match self.find_index(id) {
            None => None,
            Some(k) => {
                proof {
                    lemma_index_of_id_agrees(old(self)@, id@, k as int);
                }
                let total = self.tasks[k].duration;
                if total == 0 {
                    return None;
                }
                let p = compute_percent(elapsed, total);
                if p > self.tasks[k].percent {
                    let t = self.tasks.remove(k);
                    let updated = ParseTask { percent: p, ..t };
                    self.tasks.insert(k, updated);
                    proof {
                        assert(self@ =~= old(self)@.update(
                            k as int,
                            TaskModel { percent: p, ..old(self)@[k as int] },
                        ));
                        assert(self.wf()) by {
                            assert(forall|i: int|
                                0 <= i < self@.len() ==> self@[i].id == #[trigger] old(
                                    self,
                                )@[i].id);
                        }
                    }
                    Some(p)
                } else {
                    None
                }
            },
        }
    }

    /// Removes the job, if it is registered; removal happens exactly once
    /// because the id is gone afterwards.
    pub fn remove_task(&mut self, id: &str)
        requires
            old(self).wf(),
        ensures
            final(self).wf(),
            final(self)@ == remove_id(old(self)@, id@),
    {
        match self.find_index(id) {
            None => {},
            Some(k) => {
                proof {
                    lemma_index_of_id_agrees(old(self)@, id@, k as int);
                }
                self.tasks.remove(k);
                proof {
                    assert(self@ =~= old(self)@.remove(k as int));
                    assert(self.wf()) by {
                        assert(forall|i: int|
                            0 <= i < self@.len() ==> self@[i] == (if i < k as int {
                                old(self)@[i]
                            } else {
                                old(self)@[i + 1]
                            }));
                    }
                }
            },
        }
    }

    /// A snapshot of every registered process id, for bulk termination.
    pub fn pids(&self) -> (r: Vec<u32>)
        ensures
            r@ == self@.map_values(|t: TaskModel| t.pid),
    {
        let mut r: Vec<u32> = Vec::new();
        let mut k: usize = 0;
        while k < self.tasks.len()
            invariant
                k <= self@.len(),
                self@.len() == self.tasks.len(),
                r@ == self@.subrange(0, k as int).map_values(|t: TaskModel| t.pid),
            decreases self@.len() - k,
        {
            r.push(self.tasks[k].pid);
            proof {
                assert(self@.subrange(0, k + 1).map_values(|t: TaskModel| t.pid) =~= self@.subrange(
                    0,
                    k as int,
                ).map_values(|t: TaskModel| t.pid).push(self@[k as int].pid));
            }
            k += 1;
        }
        proof {
            assert(self@.subrange(0, self@.len() as int) =~= self@);
        }
        r
    }

    /// The decimal process ids to kill for a termination request: the id's
    /// process where the id is registered, nothing where it is not.
    pub fn pids_for_task(&self, id: &str) -> (r: Vec<String>)
        requires
            self.wf(),
        ensures
            contains_id(self@, id@) ==> r.deep_view() == seq![
                dec_str_spec(self@[index_of_id(self@, id@)].pid as nat),
            ],
            !contains_id(self@, id@) ==> r.deep_view() == Seq::<Seq<char>>::empty(),
    {
        let mut r: Vec<String> = Vec::new();
        match self.find_index(id) {
            None => {
                proof {
                    assert(r.deep_view() =~= Seq::<Seq<char>>::empty());
                }
            },
            Some(k) => {
                proof {
                    lemma_index_of_id_agrees(self@, id@, k as int);
                }
                r.push(u64_to_dec_string(self.tasks[k].pid as u64));
                proof {
                    assert(r.deep_view() =~= seq![
                        dec_str_spec(self@[index_of_id(self@, id@)].pid as nat),
                    ]);
                }
            },
        }
        r
    }
}

/// The `/PID` flag word of the platform kill utility.
pub open spec fn pid_flag() -> Seq<char> {
    seq!['/', 'P', 'I', 'D']
}

/// One `/PID <pid>` pair per process id, in order.
pub open spec fn pid_flag_args(pids: Seq<Seq<char>>) -> Seq<Seq<char>>
    decreases pids.len(),
{
    if pids.len() == 0 {
        Seq::empty()
    } else {
        seq![pid_flag(), pids[0]] + pid_flag_args(pids.drop_first())
    }
}

/// The whole argument list of a tree kill: force, whole tree, then one
/// `/PID <pid>` pair per process.
pub open spec fn taskkill_args_spec(pids: Seq<Seq<char>>) -> Seq<Seq<char>> {
    seq![seq!['/', 'F'], seq!['/', 'T']] + pid_flag_args(pids)
}

/// One appended process id appends its `/PID` pair.
proof fn lemma_pid_flag_args_snoc(pids: Seq<Seq<char>>, p: Seq<char>)
    ensures
        pid_flag_args(pids.push(p)) == pid_flag_args(pids) + seq![pid_flag(), p],
    decreases pids.len(),
{
    let w = pids.push(p);
    if pids.len() == 0 {
        assert(w.drop_first() =~= Seq::<Seq<char>>::empty());
        assert(seq![pid_flag(), w[0]] + pid_flag_args(w.drop_first()) =~= seq![pid_flag(), p]);
        assert(pid_flag_args(pids) + seq![pid_flag(), p] =~= seq![pid_flag(), p]);
    } else {
        assert(w.drop_first() =~= pids.drop_first().push(p));
        lemma_pid_flag_args_snoc(pids.drop_first(), p);
        assert(seq![pid_flag(), w[0]] + (pid_flag_args(pids.drop_first()) + seq![pid_flag(), p])
            =~= (seq![pid_flag(), pids[0]] + pid_flag_args(pids.drop_first())) + seq![
            pid_flag(),
            p,
        ]);
    }
}

/// Builds the argument words of a force, whole-tree kill of the given
/// decimal process ids.
pub fn taskkill_args(pids: &Vec<String>) -> (r: Vec<String>)
    ensures
        r.deep_view() == taskkill_args_spec(pids.deep_view()),
{
    let ghost dv = pids.deep_view();
    let mut r: Vec<String> = Vec::new();
    r.push(String::from_str("/F"));
    r.push(String::from_str("/T"));
    proof {
        reveal_strlit("/F");
        reveal_strlit("/T");
        reveal_strlit("/PID");
        assert("/F"@ =~= seq!['/', 'F']);
        assert("/T"@ =~= seq!['/', 'T']);
        assert("/PID"@ =~= pid_flag());
        assert(pid_flag_args(dv.subrange(0, 0)) =~= Seq::<Seq<char>>::empty());
        assert(r.deep_view() =~= taskkill_args_spec(dv.subrange(0, 0)));
    }
    let mut i: usize = 0;
    while i < pids.len()
        invariant
            i <= pids.len(),
            dv == pids.deep_view(),
            dv.len() == pids.len(),
            r.deep_view() == taskkill_args_spec(dv.subrange(0, i as int)),
        decreases pids.len() - i,
    {
        let ghost old_r = r.deep_view();
        r.push(String::from_str("/PID"));
        r.push(pids[i].clone());
        proof {
            reveal_strlit("/PID");
            assert("/PID"@ =~= pid_flag());
            assert(r.deep_view() =~= old_r.push(pid_flag()).push(dv[i as int]));
            lemma_pid_flag_args_snoc(dv.subrange(0, i as int), dv[i as int]);
            assert(dv.subrange(0, i + 1) =~= dv.subrange(0, i as int).push(dv[i as int]));
            assert(old_r.push(pid_flag()).push(dv[i as int]) =~= taskkill_args_spec(
                dv.subrange(0, i + 1),
            ));
        }
        i += 1;
    }
    proof {
        assert(dv.subrange(0, dv.len() as int) =~= dv);
    }
    r
}

/// In a well-formed table, the scanned position of an id is the chosen one.
proof fn lemma_index_of_id_agrees(m: Seq<TaskModel>, id: Seq<char>, k: int)
    requires
        forall|i: int, j: int| 0 <= i < j < m.len() ==> #[trigger] m[i].id != #[trigger] m[j].id,
        0 <= k < m.len(),
        m[k].id == id,
    ensures
        contains_id(m, id),
        index_of_id(m, id) == k,
{
    assert(contains_id(m, id));
    let k2 = index_of_id(m, id);
    assert(0 <= k2 < m.len() && m[k2].id == id);
    if k2 < k {
        assert(m[k2].id != m[k].id);
    } else if k < k2 {
        assert(m[k].id != m[k2].id);
    }
}

/// Computes the clamped rounded percentage.
fn compute_percent(elapsed: u64, total: u64) -> (r: u8)
    requires
        total > 0,
    ensures
        r == percent_of(elapsed, total),
{
    let num: u128 = 200u128 * (elapsed as u128) + (total as u128);
    let den: u128 = 2u128 * (total as u128);
    let q = num / den;
    if q > 100 {
        100
    } else {
        q as u8
    }
}

} // verus!
