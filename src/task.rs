//! Task control blocks, the round-robin scheduler and the instrumentation
//! that records syscall counts and first-schedule times.
use crate::config::{MAX_APP_NUM, MAX_SYSCALL_NUM};
use vstd::prelude::*;

verus! {

/// Lifecycle state of a task.
#[derive(Clone, Copy, Debug, PartialEq, Eq, Structural)]
pub enum TaskStatus {
    UnInit,
    Ready,
    Running,
    Exited,
}

/// One task slot: its status and its instrumentation.
#[derive(Clone, Copy)]
pub struct TaskControlBlock {
    pub task_status: TaskStatus,
    /// Invocation count of each syscall id.
    pub syscall_times: [u32; MAX_SYSCALL_NUM],
    /// Time (in microseconds) at which the task first ran.
    pub first_scheduled_time: Option<usize>,
}

/// Mathematical view of a task control block.
pub struct TcbModel {
    pub status: TaskStatus,
    pub syscall_times: Seq<u32>,
    pub first_scheduled_time: Option<usize>,
}

impl View for TaskControlBlock {
    type V = TcbModel;

    open spec fn view(&self) -> TcbModel {
        TcbModel {
            status: self.task_status,
            syscall_times: self.syscall_times@,
            first_scheduled_time: self.first_scheduled_time,
        }
    }
}

/// Mathematical view of the task manager: the task slots and the index of
/// the slot after which the next round-robin scan starts.
pub struct TaskManagerModel {
    pub tasks: Seq<TcbModel>,
    pub current: int,
}

/// A fresh, ready task with zeroed counters that has never run.
pub open spec fn fresh_tcb() -> TcbModel {
    TcbModel {
        status: TaskStatus::Ready,
        syscall_times: Seq::new(MAX_SYSCALL_NUM as nat, |k: int| 0u32),
        first_scheduled_time: None,
    }
}

/// Distance of slot `i` from slot `cur` in round-robin order: the slot right
/// after `cur` is at distance 0 and `cur` itself comes last, at `n - 1`.
pub open spec fn rr_dist(cur: int, i: int, n: int) -> int {
    if i > cur {
        i - cur - 1
    } else {
        i + n - cur - 1
    }
}

/// `j` is the first ready slot after `cur` in round-robin order.
pub open spec fn is_next_ready(tasks: Seq<TcbModel>, cur: int, j: int) -> bool {
    &&& 0 <= j < tasks.len()
    &&& tasks[j].status == TaskStatus::Ready
    &&& forall|i: int|
        0 <= i < tasks.len() && (#[trigger] tasks[i]).status == TaskStatus::Ready ==> rr_dist(
            cur,
            j,
            tasks.len() as int,
        ) <= rr_dist(cur, i, tasks.len() as int)
}

/// No slot is ready.
pub open spec fn none_ready(tasks: Seq<TcbModel>) -> bool {
    forall|i: int| 0 <= i < tasks.len() ==> (#[trigger] tasks[i]).status != TaskStatus::Ready
}

/// The slots with the running task at `cur`, if there is one, put back to ready.
pub open spec fn parked(tasks: Seq<TcbModel>, cur: int) -> Seq<TcbModel> {
    if 0 <= cur < tasks.len() && tasks[cur].status == TaskStatus::Running {
        tasks.update(cur, TcbModel { status: TaskStatus::Ready, ..tasks[cur] })
    } else {
        tasks
    }
}

/// A task block after it is handed the processor at time `now`: it is
/// running, and its first-schedule time is set unless it already was.
pub open spec fn dispatched(t: TcbModel, now: usize) -> TcbModel {
    TcbModel {
        status: TaskStatus::Running,
        first_scheduled_time: if t.first_scheduled_time is None {
            Some(now)
        } else {
            t.first_scheduled_time
        },
        ..t
    }
}

impl TaskManagerModel {
    /// Well-formedness: a bounded number of slots, a valid cursor, and no
    /// running task other than the one at the cursor.
    pub open spec fn wf(self) -> bool {
        &&& self.tasks.len() <= MAX_APP_NUM
        &&& 0 <= self.current
        &&& (self.tasks.len() > 0 ==> self.current < self.tasks.len())
        &&& forall|i: int|
            0 <= i < self.tasks.len() && (#[trigger] self.tasks[i]).status == TaskStatus::Running
                ==> i == self.current
        &&& forall|i: int|
            0 <= i < self.tasks.len() ==> (#[trigger] self.tasks[i]).syscall_times.len()
                == MAX_SYSCALL_NUM
    }

    /// The task at the cursor holds the processor.
    pub open spec fn has_running(self) -> bool {
        &&& 0 <= self.current < self.tasks.len()
        &&& self.tasks[self.current].status == TaskStatus::Running
    }

    /// The state after the task at slot `j` is handed the processor at `now`.
    pub open spec fn switch_to(self, j: int, now: usize) -> TaskManagerModel {
        let p = parked(self.tasks, self.current);
        TaskManagerModel { tasks: p.update(j, dispatched(p[j], now)), current: j }
    }

    /// Whether a call of `id` is counted: a known id, a running task and a
    /// counter below its largest value.
    pub open spec fn counts(self, id: int) -> bool {
        &&& 0 <= id < MAX_SYSCALL_NUM
        &&& self.has_running()
        &&& self.tasks[self.current].syscall_times[id] < u32::MAX
    }

    /// The state after the running task invokes syscall `id`.
    pub open spec fn recorded(self, id: int) -> TaskManagerModel {
        if self.counts(id) {
            let t = self.tasks[self.current];
            TaskManagerModel {
                tasks: self.tasks.update(
                    self.current,
                    TcbModel { syscall_times: t.syscall_times.update(id, (t.syscall_times[id] + 1) as u32), ..t },
                ),
                current: self.current,
            }
        } else {
            self
        }
    }
}

/// The fixed-capacity store of task slots together with the scheduler cursor.
pub struct TaskManager {
    tasks: Vec<TaskControlBlock>,
    current: usize,
}

impl View for TaskManager {
    type V = TaskManagerModel;

    closed spec fn view(&self) -> TaskManagerModel {
        TaskManagerModel { tasks: self.tasks@.map_values(|t: TaskControlBlock| t@), current: self.current as int }
    }
}

impl TaskManager {
    pub open spec fn wf(&self) -> bool {
        self@.wf()
    }

    /// Creates `num_app` ready tasks with zeroed counters. No task runs yet:
    /// the first `schedule_next` hands the processor to slot 0.
    pub fn new(num_app: usize) -> (r: Self)
        requires
            num_app <= MAX_APP_NUM,
        ensures
            r.wf(),
            r@.tasks.len() == num_app,
            forall|i: int| 0 <= i < num_app ==> (#[trigger] r@.tasks[i]) == fresh_tcb(),
            r@.current == if num_app == 0 { 0 } else { num_app - 1 },
    {
        let mut tasks: Vec<TaskControlBlock> = Vec::new();
        let mut k: usize = 0;
        while k < num_app
            invariant
                k <= num_app,
                tasks@.len() == k,
                forall|i: int| 0 <= i < k ==> (#[trigger] tasks@[i])@ == fresh_tcb(),
            decreases num_app - k,
        {
            let t = TaskControlBlock {
                task_status: TaskStatus::Ready,
                syscall_times: [0u32; MAX_SYSCALL_NUM],
                first_scheduled_time: None,
            };
            assert(t.syscall_times@ =~= fresh_tcb().syscall_times);
            tasks.push(t);
            k = k + 1;
        }
        let current: usize = if num_app == 0 { 0 } else { num_app - 1 };
        let r = TaskManager { tasks, current };
        assert forall|i: int| 0 <= i < num_app implies (#[trigger] r@.tasks[i]) == fresh_tcb() by {
            assert(r@.tasks[i] == r.tasks@[i]@);
        }
        r
    }

    /// Replaces slot `j` with `t`.
    fn put(&mut self, j: usize, t: TaskControlBlock)
        requires
            j < old(self)@.tasks.len(),
        ensures
            final(self)@ == (TaskManagerModel {
                tasks: old(self)@.tasks.update(j as int, t@),
                current: old(self)@.current,
            }),
    {
        self.tasks.set(j, t);
        assert(self@.tasks =~= old(self)@.tasks.update(j as int, t@));
    }

    /// Number of task slots.
    pub fn num_tasks(&self) -> (r: usize)
        ensures
            r == self@.tasks.len(),
    {
        self.tasks.len()
    }

    /// Index of the current task (the slot the next scan starts after).
    pub fn current(&self) -> (r: usize)
        ensures
            r == self@.current,
    {
        self.current
    }

    /// A copy of the task block at slot `id`.
    pub fn task(&self, id: usize) -> (r: TaskControlBlock)
        requires
            id < self@.tasks.len(),
        ensures
            r@ == self@.tasks[id as int],
    {
        self.tasks[id]
    }

    /// Status of the running task.
    pub fn current_status(&self) -> (r: TaskStatus)
        requires
            self@.has_running(),
        ensures
            r == self@.tasks[self@.current].status,
    {
        self.tasks[self.current].task_status
    }

    /// A copy of the running task's syscall counts.
    pub fn current_syscall_times(&self) -> (r: [u32; MAX_SYSCALL_NUM])
        requires
            self@.has_running(),
        ensures
            r@ == self@.tasks[self@.current].syscall_times,
    {
        self.tasks[self.current].syscall_times
    }

    /// Time at which the running task was first scheduled.
    pub fn current_start_time(&self) -> (r: Option<usize>)
        requires
            self@.has_running(),
        ensures
            r == self@.tasks[self@.current].first_scheduled_time,
    {
        self.tasks[self.current].first_scheduled_time
    }

    /// Finds the first ready slot after the cursor in round-robin order,
    /// wrapping around; `None` when no slot is ready.
    pub fn find_next_task(&self) -> (r: Option<usize>)
        requires
            self.wf(),
        ensures
            match r {
                Some(j) => is_next_ready(self@.tasks, self@.current, j as int),
                None => none_ready(self@.tasks),
            },
    {
        let n = self.tasks.len();
        let cur = self.current;
        if n == 0 {
            return None;
        }
        let ghost tasks = self@.tasks;
        let mut i: usize = cur + 1;
        while i < n
            invariant
                tasks == self@.tasks,
                n == tasks.len(),
                cur == self@.current,
                cur < n,
                cur + 1 <= i <= n,
                forall|k: int| cur < k < i ==> (#[trigger] tasks[k]).status != TaskStatus::Ready,
            decreases n - i,
        {
            assert(tasks[i as int] == self.tasks@[i as int]@);
            if self.tasks[i].task_status == TaskStatus::Ready {
                return Some(i);
            }
            i = i + 1;
        }
        let mut i: usize = 0;
        while i <= cur
            invariant
                tasks == self@.tasks,
                n == tasks.len(),
                cur == self@.current,
                cur < n,
                i <= cur + 1,
                forall|k: int| cur < k < n ==> (#[trigger] tasks[k]).status != TaskStatus::Ready,
                forall|k: int| 0 <= k < i ==> (#[trigger] tasks[k]).status != TaskStatus::Ready,
            decreases cur + 1 - i,
        {
            assert(tasks[i as int] == self.tasks@[i as int]@);
            if self.tasks[i].task_status == TaskStatus::Ready {
                return Some(i);
            }
            i = i + 1;
        }
        None
    }

    /// Hands the processor to the next ready task at time `now`: the running
    /// task, if any, goes back to ready; the first ready slot after the cursor
    /// in round-robin order becomes running and the cursor; its first-schedule
    /// time is set if it never ran. `None` means no task can run: the kernel
    /// halts, and nothing has changed.
    pub fn schedule_next(&mut self, now: usize) -> (r: Option<usize>)
        requires
            old(self).wf(),
        ensures
            final(self).wf(),
            match r {
                Some(j) => {
                    &&& is_next_ready(parked(old(self)@.tasks, old(self)@.current), old(self)@.current, j as int)
                    &&& final(self)@ == old(self)@.switch_to(j as int, now)
                },
                None => {
                    &&& none_ready(parked(old(self)@.tasks, old(self)@.current))
                    &&& final(self)@ == old(self)@
                },
            },
    {
        let cur = self.current;
        let ghost p = parked(self@.tasks, self@.current);
        if cur < self.tasks.len() && self.tasks[cur].task_status == TaskStatus::Running {
            let mut t = self.tasks[cur];
            t.task_status = TaskStatus::Ready;
            self.put(cur, t);
        }
        assert(self@.tasks =~= p);
        match self.find_next_task() {
            Some(j) => {
                let mut t = self.tasks[j];
                t.task_status = TaskStatus::Running;
                if t.first_scheduled_time.is_none() {
                    t.first_scheduled_time = Some(now);
                }
                self.put(j, t);
                self.current = j;
                assert(self@.tasks =~= p.update(j as int, dispatched(p[j as int], now)));
                Some(j)
            },
            None => {
                assert(self@.tasks =~= old(self)@.tasks);
                None
            },
        }
    }

    /// Marks the running task exited and hands the processor on, as
    /// `schedule_next` does; `None` means every task has finished.
    pub fn exit_current_and_run_next(&mut self, now: usize) -> (r: Option<usize>)
        requires
            old(self).wf(),
            old(self)@.has_running(),
        ensures
            final(self).wf(),
            ({
                let c = old(self)@.current;
                let e = TaskManagerModel {
                    tasks: old(self)@.tasks.update(c, TcbModel { status: TaskStatus::Exited, ..old(self)@.tasks[c] }),
                    current: c,
                };
                match r {
                    Some(j) => is_next_ready(e.tasks, c, j as int) && final(self)@ == e.switch_to(j as int, now),
                    None => none_ready(e.tasks) && final(self)@ == e,
                }
            }),
    {
        let cur = self.current;
        let mut t = self.tasks[cur];
        t.task_status = TaskStatus::Exited;
        self.put(cur, t);
        assert(parked(self@.tasks, self@.current) == self@.tasks);
        self.schedule_next(now)
    }

    /// The running task gives up the processor and goes back to ready; the
    /// next ready task in round-robin order runs, possibly the same one.
    pub fn suspend_current_and_run_next(&mut self, now: usize) -> (r: usize)
        requires
            old(self).wf(),
            old(self)@.has_running(),
        ensures
            final(self).wf(),
            is_next_ready(parked(old(self)@.tasks, old(self)@.current), old(self)@.current, r as int),
            final(self)@ == old(self)@.switch_to(r as int, now),
    {
        let ghost p = parked(self@.tasks, self@.current);
        assert(p[self@.current].status == TaskStatus::Ready);
        match self.schedule_next(now) {
            Some(j) => j,
            None => {
                assert(false);
                0
            },
        }
    }

    /// Counts one invocation of `syscall_id` by the running task. Ids outside
    /// the table, a counter already at its largest value, and a call while no
    /// task runs are ignored.
    pub fn record_syscall(&mut self, syscall_id: usize)
        requires
            old(self).wf(),
        ensures
            final(self).wf(),
            final(self)@ == old(self)@.recorded(syscall_id as int),
    {
        let cur = self.current;
        if syscall_id < MAX_SYSCALL_NUM && cur < self.tasks.len()
            && self.tasks[cur].task_status == TaskStatus::Running {
            let mut t = self.tasks[cur];
            if t.syscall_times[syscall_id] < u32::MAX {
                t.syscall_times[syscall_id] = t.syscall_times[syscall_id] + 1;
                self.put(cur, t);
            }
        }
    }
}

/// Every task is ready or running.
pub open spec fn all_alive(tasks: Seq<TcbModel>) -> bool {
    forall|i: int|
        0 <= i < tasks.len() ==> ((#[trigger] tasks[i]).status == TaskStatus::Ready || tasks[i].status
            == TaskStatus::Running)
}

/// Round-robin order: when every task is alive, the scheduler always picks
/// the slot right after the cursor, wrapping around, and afterwards every task
/// is still alive; so tasks that keep yielding run one after another in
/// ascending slot order.
pub proof fn lemma_round_robin_step(m: TaskManagerModel, j: int, now: usize)
    requires
        m.wf(),
        m.tasks.len() > 0,
        all_alive(m.tasks),
    ensures
        is_next_ready(parked(m.tasks, m.current), m.current, j) <==> j == (m.current + 1)
            % (m.tasks.len() as int),
        j == (m.current + 1) % (m.tasks.len() as int) ==> all_alive(m.switch_to(j, now).tasks),
{
    let n = m.tasks.len() as int;
    let c = m.current;
    let p = parked(m.tasks, c);
    let nx = (c + 1) % n;
    if c + 1 < n {
        vstd::arithmetic::div_mod::lemma_small_mod((c + 1) as nat, n as nat);
    } else {
        vstd::arithmetic::div_mod::lemma_mod_self_0(n);
    }
    assert forall|i: int| 0 <= i < n implies (#[trigger] p[i]).status == TaskStatus::Ready by {
        assert(m.tasks[i].status == TaskStatus::Ready || m.tasks[i].status == TaskStatus::Running);
    }
    assert(rr_dist(c, nx, n) == 0);
    if is_next_ready(p, c, j) {
        assert(p[nx].status == TaskStatus::Ready);
        assert(rr_dist(c, j, n) <= 0);
    }
    if j == nx {
        assert forall|i: int| 0 <= i < n && (#[trigger] p[i]).status == TaskStatus::Ready implies rr_dist(
            c,
            j,
            n,
        ) <= rr_dist(c, i, n) by {}
        let s = m.switch_to(j, now).tasks;
        assert forall|i: int| 0 <= i < n implies ((#[trigger] s[i]).status == TaskStatus::Ready
            || s[i].status == TaskStatus::Running) by {
            if i != j {
                assert(s[i] == p[i]);
            }
        }
    }
}

/// The first-schedule time of a task is the clock reading at its first
/// dispatch and never changes afterwards: a switch sets it only on the
/// dispatched task, and only if it was unset.
pub proof fn lemma_first_schedule_once(m: TaskManagerModel, j: int, now: usize)
    requires
        m.wf(),
        0 <= j < m.tasks.len(),
    ensures
        forall|i: int|
            0 <= i < m.tasks.len() ==> (#[trigger] m.switch_to(j, now).tasks[i]).first_scheduled_time
                == if i == j && m.tasks[i].first_scheduled_time is None {
                Some(now)
            } else {
                m.tasks[i].first_scheduled_time
            },
        forall|id: int, i: int|
            0 <= i < m.tasks.len() ==> (#[trigger] m.recorded(id).tasks[i]).first_scheduled_time
                == m.tasks[i].first_scheduled_time,
{
    let p = parked(m.tasks, m.current);
    assert forall|i: int| 0 <= i < m.tasks.len() implies (#[trigger] p[i]).first_scheduled_time
        == m.tasks[i].first_scheduled_time by {}
}

/// Syscall counters only grow: a counted call raises the running task's
/// counter for that id by exactly one and changes no other counter, and a
/// task switch changes no counter at all.
pub proof fn lemma_counters_monotonic(m: TaskManagerModel, id: int, j: int, now: usize)
    requires
        m.wf(),
        0 <= j < m.tasks.len(),
    ensures
        m.counts(id) ==> m.recorded(id).tasks[m.current].syscall_times[id] == m.tasks[m.current].syscall_times[id]
            + 1,
        forall|i: int, k: int|
            0 <= i < m.tasks.len() && 0 <= k < MAX_SYSCALL_NUM && !(i == m.current && k == id && m.counts(id))
                ==> (#[trigger] m.recorded(id).tasks[i].syscall_times[k]) == m.tasks[i].syscall_times[k],
        forall|i: int|
            0 <= i < m.tasks.len() ==> (#[trigger] m.switch_to(j, now).tasks[i]).syscall_times
                == m.tasks[i].syscall_times,
{
    let p = parked(m.tasks, m.current);
    assert forall|i: int| 0 <= i < m.tasks.len() implies (#[trigger] p[i]).syscall_times
        == m.tasks[i].syscall_times by {}
}

/// An exited task is never picked again, and no switch and no syscall changes
/// its block.
pub proof fn lemma_exited_is_final(m: TaskManagerModel, i: int, j: int, id: int, now: usize)
    requires
        m.wf(),
        0 <= i < m.tasks.len(),
        m.tasks[i].status == TaskStatus::Exited,
    ensures
        is_next_ready(parked(m.tasks, m.current), m.current, j) ==> j != i && m.switch_to(j, now).tasks[i]
            == m.tasks[i],
        m.recorded(id).tasks[i] == m.tasks[i],
{
}

/// When every task has exited, no task is ready: the scheduler finds nothing
/// to run and the kernel halts.
pub proof fn lemma_all_exited_halts(m: TaskManagerModel)
    requires
        m.wf(),
        forall|i: int| 0 <= i < m.tasks.len() ==> (#[trigger] m.tasks[i]).status == TaskStatus::Exited,
    ensures
        none_ready(parked(m.tasks, m.current)),
        forall|j: int| !is_next_ready(parked(m.tasks, m.current), m.current, j),
{
}

proof fn lemma_switch_keeps_wf(m: TaskManagerModel, j: int, now: usize)
    requires
        m.wf(),
        0 <= j < m.tasks.len(),
    ensures
        m.switch_to(j, now).wf(),
        m.switch_to(j, now).tasks.len() == m.tasks.len(),
{
    let p = parked(m.tasks, m.current);
    let s = m.switch_to(j, now);
    assert forall|i: int| 0 <= i < s.tasks.len() && (#[trigger] s.tasks[i]).status == TaskStatus::Running implies i
        == s.current by {
        if i != j {
            assert(s.tasks[i] == p[i]);
        }
    }
    assert forall|i: int| 0 <= i < s.tasks.len() implies (#[trigger] s.tasks[i]).syscall_times.len()
        == MAX_SYSCALL_NUM by {
        if i != j {
            assert(s.tasks[i] == p[i]);
        }
    }
}

/// Slot reached `k` steps after `cur` in round-robin order over `n` slots.
pub open spec fn rr_slot(cur: int, k: int, n: int) -> int {
    (cur + k) % n
}

/// The state after `k` switches, each to the slot right after the cursor.
pub open spec fn rr_after(m: TaskManagerModel, k: nat, now: usize) -> TaskManagerModel
    decreases k,
{
    if k == 0 {
        m
    } else {
        let prev = rr_after(m, (k - 1) as nat, now);
        prev.switch_to((prev.current + 1) % (prev.tasks.len() as int), now)
    }
}

/// Round-robin fairness: when every task is alive and keeps yielding, the
/// `k`-th switch from cursor `c` is the scheduler's own choice and runs slot
/// `(c + k) % n`; the `n` switches of one full cycle run `n` different slots,
/// that is each task exactly once.
pub proof fn lemma_round_robin_cycle(m: TaskManagerModel, k: nat, now: usize)
    requires
        m.wf(),
        m.tasks.len() > 0,
        all_alive(m.tasks),
    ensures
        rr_after(m, k, now).wf(),
        rr_after(m, k, now).tasks.len() == m.tasks.len(),
        all_alive(rr_after(m, k, now).tasks),
        rr_after(m, k, now).current == rr_slot(m.current, k as int, m.tasks.len() as int),
        k > 0 ==> ({
            let prev = rr_after(m, (k - 1) as nat, now);
            is_next_ready(parked(prev.tasks, prev.current), prev.current, rr_after(m, k, now).current)
        }),
        forall|k1: int, k2: int|
            1 <= k1 < k2 <= m.tasks.len() ==> #[trigger] rr_slot(m.current, k1, m.tasks.len() as int)
                != #[trigger] rr_slot(m.current, k2, m.tasks.len() as int),
    decreases k,
{
    let n = m.tasks.len() as int;
    let c = m.current;
    if k == 0 {
        vstd::arithmetic::div_mod::lemma_small_mod(c as nat, n as nat);
    } else {
        lemma_round_robin_cycle(m, (k - 1) as nat, now);
        let prev = rr_after(m, (k - 1) as nat, now);
        let j = (prev.current + 1) % n;
        lemma_round_robin_step(prev, j, now);
        lemma_switch_keeps_wf(prev, j, now);
        vstd::arithmetic::div_mod::lemma_add_mod_noop(c + k - 1, 1, n);
        vstd::arithmetic::div_mod::lemma_add_mod_noop((c + k - 1) % n, 1, n);
        vstd::arithmetic::div_mod::lemma_mod_twice(c + k - 1, n);
    }
    assert forall|k1: int, k2: int| 1 <= k1 < k2 <= n implies #[trigger] rr_slot(c, k1, n) != #[trigger] rr_slot(
        c,
        k2,
        n,
    ) by {
        vstd::arithmetic::div_mod::lemma_mod_equivalence(c + k2, c + k1, n);
        vstd::arithmetic::div_mod::lemma_small_mod((k2 - k1) as nat, n as nat);
        assert(c + k2 - (c + k1) == k2 - k1);
    }
}

/// The scheduler's choice is determined: at most one slot is the first ready
/// one after a given cursor.
pub proof fn lemma_next_ready_unique(tasks: Seq<TcbModel>, cur: int, j1: int, j2: int)
    requires
        0 <= cur < tasks.len(),
        is_next_ready(tasks, cur, j1),
        is_next_ready(tasks, cur, j2),
    ensures
        j1 == j2,
{
    assert(tasks[j1].status == TaskStatus::Ready);
    assert(tasks[j2].status == TaskStatus::Ready);
}

} // verus!
