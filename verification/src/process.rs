//! Tasks and the round-robin SMP scheduler.
use vstd::prelude::*;
use std::collections::VecDeque;
use vstd::utf8::decode_utf8;
use vstd::string::StringExecFns;
use crate::text::{hex_digits, lower_hex_digits, u64_lower_hexadecimal, all_ascii, ascii_string,
    push_all, lemma_lower_hex_ascii};

verus! {

pub const SCHEDULER_VERSION: &'static str = "v2-SMP";

/// Number of CPU slots the scheduler tracks.
pub const MAX_CORES: usize = 8;

/// Size of the stack given to each spawned task.
pub const TASK_STACK_SIZE: u64 = 16384;

/// Bytes of the initial frame on a new task's stack: the entry point and six
/// callee-saved registers.
pub const INITIAL_FRAME_SIZE: u64 = 56;

/// The marker for a CPU that runs no task.
pub const NO_TASK: u64 = 0xFFFF_FFFF_FFFF_FFFF;

#[derive(Debug, Clone, Copy, PartialEq, Eq, Structural)]
pub enum TaskState {
    Ready,
    Running,
    Blocked,
}

pub struct Task {
    pub id: u64,
    pub name: String,
    pub stack_pointer: u64,
    pub state: TaskState,
    pub stack_bottom: u64,
    pub stack_top: u64,
    pub sleep_until: u64,
}

/// The name a task gets when none is given: `task_0x` and its entry point in
/// lower-case hexadecimal.
pub open spec fn default_task_name(entry_point: u64) -> Seq<u8> {
    seq![116u8, 97u8, 115u8, 107u8, 95u8, 48u8, 120u8] + lower_hex_digits(entry_point as nat)
}

impl Task {
    /// The task that stands for the code that boots the kernel: id 0, already
    /// running on its own stack.
    pub fn new_kernel_task() -> (t: Self)
        ensures
            t.id == 0,
            t.name@ == "KernelTask"@,
            t.stack_pointer == 0,
            t.state == TaskState::Running,
            t.stack_bottom == 0,
            t.stack_top == 0,
            t.sleep_until == 0,
    {
        Task {
            id: 0,
            name: String::from_str("KernelTask"),
            stack_pointer: 0,
            state: TaskState::Running,
            stack_bottom: 0,
            stack_top: 0,
            sleep_until: 0,
        }
    }

    /// A ready task with the given id whose stack of `TASK_STACK_SIZE` bytes
    /// starts at `stack_bottom`; its stack pointer sits below the initial
    /// frame (entry point and six zeroed registers) at the top of the stack.
    pub fn new(id: u64, entry_point: u64, name: Option<&str>, stack_bottom: u64) -> (t: Self)
        requires
            stack_bottom + TASK_STACK_SIZE <= u64::MAX,
        ensures
            t.id == id,
            name is Some ==> t.name@ == name->0@,
            name is None ==> t.name@ == decode_utf8(default_task_name(entry_point)),
            t.stack_bottom == stack_bottom,
            t.stack_top == stack_bottom + TASK_STACK_SIZE,
            t.stack_pointer == stack_bottom + TASK_STACK_SIZE - INITIAL_FRAME_SIZE,
            t.state == TaskState::Ready,
            t.sleep_until == 0,
    {
        let task_name = match name {
            Some(s) => String::from_str(s),
            None => {
                let mut v: Vec<u8> = Vec::new();
                v.push(116u8);
                v.push(97u8);
                v.push(115u8);
                v.push(107u8);
                v.push(95u8);
                v.push(48u8);
                v.push(120u8);
                let h = u64_lower_hexadecimal(entry_point);
                push_all(&mut v, &h);
                proof {
                    lemma_lower_hex_ascii(entry_point as nat);
                    assert(v@ =~= default_task_name(entry_point));
                }
                ascii_string(&v)
            },
        };
        let stack_top = stack_bottom + TASK_STACK_SIZE;
        Task {
            id,
            name: task_name,
            stack_pointer: stack_top - INITIAL_FRAME_SIZE,
            state: TaskState::Ready,
            stack_bottom,
            stack_top,
            sleep_until: 0,
        }
    }
}

/// The words of a new task's initial frame, from its stack pointer upwards:
/// six zeroed callee-saved registers (r15, r14, r13, r12, rbp, rbx), then the
/// entry point, where the first switch to the task returns. They fill the
/// `INITIAL_FRAME_SIZE` bytes below the top of the stack.
pub open spec fn initial_frame(entry_point: u64) -> Seq<u64> {
    seq![0u64, 0u64, 0u64, 0u64, 0u64, 0u64, entry_point]
}

/// The initial frame to write at a new task's stack pointer, lowest address
/// first.
pub fn initial_stack_frame(entry_point: u64) -> (f: [u64; 7])
    ensures
        f@ == initial_frame(entry_point),
        f@.len() * 8 == INITIAL_FRAME_SIZE,
{
    let f: [u64; 7] = [0, 0, 0, 0, 0, 0, entry_point];
    assert(f@ =~= initial_frame(entry_point));
    f
}

/// The first index of a task with the given id.
pub open spec fn position_of(tasks: Seq<Task>, id: u64) -> Option<int>
    decreases tasks.len(),
{
    if tasks.len() == 0 {
        None
    } else if tasks[0].id == id {
        Some(0)
    } else {
        match position_of(tasks.drop_first(), id) {
            Some(i) => Some(i + 1),
            None => None,
        }
    }
}

/// Whether an id was requested and no task has it.
pub open spec fn requested_is_free(tasks: Seq<Task>, requested: Option<u64>) -> bool {
    match requested {
        Some(r) => position_of(tasks, r) is None,
        None => false,
    }
}

/// `tasks` with the state of the task at `idx` replaced.
pub open spec fn with_state(tasks: Seq<Task>, idx: int, state: TaskState) -> Seq<Task> {
    tasks.update(idx, Task { state: state, ..tasks[idx] })
}

/// Whether a CPU other than `cpu` is running the task `id`.
pub open spec fn running_elsewhere(cpu_tasks: Seq<u64>, cpu: int, id: u64) -> bool {
    exists|c: int| 0 <= c < cpu_tasks.len() && c != cpu && #[trigger] cpu_tasks[c] == id && id != NO_TASK
}

/// Whether the task at `idx` may be started on `cpu`.
pub open spec fn eligible(tasks: Seq<Task>, cpu_tasks: Seq<u64>, cpu: int, idx: int) -> bool {
    tasks[idx].state == TaskState::Ready && !running_elsewhere(cpu_tasks, cpu, tasks[idx].id)
}

/// The first eligible index met when walking the tasks round-robin from
/// `start`, looking at the `i`-th position onwards.
pub open spec fn pick_from(tasks: Seq<Task>, cpu_tasks: Seq<u64>, cpu: int, start: int, i: int) -> Option<int>
    decreases tasks.len() - i,
{
    if i < 0 || i >= tasks.len() {
        None
    } else {
        let idx = (start + i) % (tasks.len() as int);
        if eligible(tasks, cpu_tasks, cpu, idx) {
            Some(idx)
        } else {
            pick_from(tasks, cpu_tasks, cpu, start, i + 1)
        }
    }
}

/// Sleeping tasks whose wake-up time has come become ready.
pub open spec fn woken(tasks: Seq<Task>, now: u64) -> Seq<Task> {
    tasks.map_values(|t: Task| if t.state == TaskState::Blocked && t.sleep_until > 0 && now >= t.sleep_until {
        Task { state: TaskState::Ready, sleep_until: 0, ..t }
    } else {
        t
    })
}

/// What a scheduling decision asks of the CPU: save the current stack
/// pointer (into the task at `old_index`, or into the CPU's fallback slot when
/// there is none) and continue on `new_stack_pointer`.
pub struct ContextSwitch {
    pub old_index: Option<usize>,
    pub new_stack_pointer: u64,
}

pub struct Scheduler {
    pub tasks: VecDeque<Task>,
    pub cpu_tasks: [u64; 8],
    pub next_id: u64,
    pub released: Vec<u64>,
}

/// The stack released when a task leaves the scheduler: its bottom, unless
/// the task has no stack of its own (bottom 0).
pub open spec fn release_of(released: Seq<u64>, t: Task) -> Seq<u64> {
    if t.stack_bottom != 0 {
        released.push(t.stack_bottom)
    } else {
        released
    }
}

impl Scheduler {
    pub open spec fn cpu_slots(&self) -> Seq<u64> {
        self.cpu_tasks@
    }

    /// The bottoms of the stacks of removed tasks, oldest first, not yet
    /// handed to the caller to be freed.
    pub open spec fn released_stacks(&self) -> Seq<u64> {
        self.released@
    }

    /// The counter that hands out ids when no free id was requested.
    pub open spec fn id_counter(&self) -> u64 {
        self.next_id
    }

    /// No CPU runs anything yet; the id counter starts at 1.
    pub fn new() -> (s: Self)
        ensures
            s.tasks@ == Seq::<Task>::empty(),
            s.cpu_slots() == Seq::new(8, |i: int| NO_TASK),
            s.id_counter() == 1,
            s.released_stacks() == Seq::<u64>::empty(),
    {
        let s = Scheduler {
            tasks: VecDeque::new(),
            cpu_tasks: [NO_TASK; 8],
            next_id: 1,
            released: Vec::new(),
        };
        assert(s.cpu_tasks@ =~= Seq::new(8, |i: int| NO_TASK));
        s
    }

    pub fn get_tasks(&self) -> (r: &VecDeque<Task>)
        ensures
            r@ == self.tasks@,
    {
        &self.tasks
    }

    pub fn get_task_count(&self) -> (n: usize)
        ensures
            n == self.tasks@.len(),
    {
        self.tasks.len()
    }

    pub fn add_task(&mut self, task: Task)
        ensures
            final(self).tasks@ == old(self).tasks@.push(task),
            final(self).cpu_slots() == old(self).cpu_slots(),
            final(self).id_counter() == old(self).id_counter(),
            final(self).released_stacks() == old(self).released_stacks(),
            call_effect(*old(self), *final(self), TaskCall::Add(task)),
    {
        self.tasks.push_back(task);
    }

    /// The index of the first task with the given id.
    fn find(&self, id: u64) -> (r: Option<usize>)
        ensures
            r matches Some(i) ==> position_of(self.tasks@, id) == Some(i as int),
            r is None ==> position_of(self.tasks@, id) is None,
    {
        let mut i: usize = 0;
        while i < self.tasks.len()
            invariant
                0 <= i <= self.tasks@.len(),
                forall|j: int| 0 <= j < i ==> #[trigger] self.tasks@[j].id != id,
            decreases self.tasks@.len() - i,
        {
            if self.tasks[i].id == id {
                proof {
                    lemma_position_of_first(self.tasks@, id, i as int);
                }
                return Some(i);
            }
            i = i + 1;
        }
        proof {
            lemma_position_of_none(self.tasks@, id);
        }
        None
    }

    /// Sets the state of the task at `idx`.
    fn set_state(&mut self, idx: usize, state: TaskState)
        requires
            idx < old(self).tasks@.len(),
        ensures
            final(self).tasks@ == with_state(old(self).tasks@, idx as int, state),
            final(self).cpu_slots() == old(self).cpu_slots(),
            final(self).id_counter() == old(self).id_counter(),
            final(self).released_stacks() == old(self).released_stacks(),
    {
        if let Some(mut t) = self.tasks.remove(idx) {
            t.state = state;
            self.tasks.insert(idx, t);
            assert(self.tasks@ =~= with_state(old(self).tasks@, idx as int, state));
        }
    }

    /// Takes out the first task with the given id, unless the id is 0 (the
    /// kernel task) or 2 (the shell), which cannot be removed, and hands it
    /// back; its stack is then listed among the released stacks.
    pub fn take_task(&mut self, id: u64) -> (t: Option<Task>)
        ensures
            t is Some == (id != 0 && id != 2 && position_of(old(self).tasks@, id) is Some),
            t is Some ==> ({
                let i = position_of(old(self).tasks@, id)->0;
                &&& t->0 == old(self).tasks@[i]
                &&& final(self).tasks@ == old(self).tasks@.remove(i)
                &&& final(self).released_stacks() == release_of(old(self).released_stacks(), old(self).tasks@[i])
            }),
            t is None ==> final(self).tasks@ == old(self).tasks@ && final(self).released_stacks()
                == old(self).released_stacks(),
            final(self).cpu_slots() == old(self).cpu_slots(),
            final(self).id_counter() == old(self).id_counter(),
    {
        if id == 0 || id == 2 {
            return None;
        }
        match self.find(id) {
            Some(idx) => {
                proof {
                    lemma_position_of_bound(old(self).tasks@, id);
                }
                let t = self.tasks.remove(idx);
                match t {
                    Some(task) => {
                        if task.stack_bottom != 0 {
                            self.released.push(task.stack_bottom);
                        }
                        Some(task)
                    },
                    None => None,
                }
            },
            None => None,
        }
    }

    /// Removes the first task with the given id, unless the id is 0 (the
    /// kernel task) or 2 (the shell), which cannot be removed. Returns whether
    /// a task was removed; its stack is then listed among the released stacks.
    pub fn remove_task(&mut self, id: u64) -> (removed: bool)
        ensures
            removed == (id != 0 && id != 2 && position_of(old(self).tasks@, id) is Some),
            removed ==> final(self).tasks@ == old(self).tasks@.remove(position_of(old(self).tasks@, id)->0),
            !removed ==> final(self).tasks@ == old(self).tasks@,
            removed ==> final(self).released_stacks() == release_of(
                old(self).released_stacks(),
                old(self).tasks@[position_of(old(self).tasks@, id)->0],
            ),
            !removed ==> final(self).released_stacks() == old(self).released_stacks(),
            final(self).cpu_slots() == old(self).cpu_slots(),
            final(self).id_counter() == old(self).id_counter(),
            call_effect(*old(self), *final(self), TaskCall::Remove(id)),
    {
        let t = self.take_task(id);
        t.is_some()
    }

    /// Hands out the stacks released so far, oldest first, for the caller
    /// to free; the list is then empty.
    pub fn take_released_stacks(&mut self) -> (r: Vec<u64>)
        ensures
            r@ == old(self).released_stacks(),
            final(self).released_stacks() == Seq::<u64>::empty(),
            final(self).tasks@ == old(self).tasks@,
            final(self).cpu_slots() == old(self).cpu_slots(),
            final(self).id_counter() == old(self).id_counter(),
    {
        let mut r: Vec<u64> = Vec::new();
        std::mem::swap(&mut r, &mut self.released);
        r
    }

    /// Marks the first task with the given id as blocked; returns whether
    /// there was one.
    pub fn block_task(&mut self, id: u64) -> (found: bool)
        ensures
            found == position_of(old(self).tasks@, id) is Some,
            found ==> final(self).tasks@ == with_state(old(self).tasks@, position_of(old(self).tasks@, id)->0, TaskState::Blocked),
            !found ==> final(self).tasks@ == old(self).tasks@,
            final(self).cpu_slots() == old(self).cpu_slots(),
            final(self).id_counter() == old(self).id_counter(),
            final(self).released_stacks() == old(self).released_stacks(),
            call_effect(*old(self), *final(self), TaskCall::Block(id)),
    {
        match self.find(id) {
            Some(idx) => {
                proof {
                    lemma_position_of_bound(old(self).tasks@, id);
                }
                self.set_state(idx, TaskState::Blocked);
                true
            },
            None => false,
        }
    }

    /// Marks the first task with the given id as ready; returns whether there
    /// was one.
    pub fn resume_task(&mut self, id: u64) -> (found: bool)
        ensures
            found == position_of(old(self).tasks@, id) is Some,
            found ==> final(self).tasks@ == with_state(old(self).tasks@, position_of(old(self).tasks@, id)->0, TaskState::Ready),
            !found ==> final(self).tasks@ == old(self).tasks@,
            final(self).cpu_slots() == old(self).cpu_slots(),
            final(self).id_counter() == old(self).id_counter(),
            final(self).released_stacks() == old(self).released_stacks(),
            call_effect(*old(self), *final(self), TaskCall::Resume(id)),
    {
        match self.find(id) {
            Some(idx) => {
                proof {
                    lemma_position_of_bound(old(self).tasks@, id);
                }
                self.set_state(idx, TaskState::Ready);
                true
            },
            None => false,
        }
    }

    /// The id of the task each CPU runs (`NO_TASK` when none).
    pub fn get_cpu_tasks(&self) -> (r: [u64; 8])
        ensures
            r@ == self.cpu_slots(),
    {
        self.cpu_tasks
    }

    /// The requested id when no task has it; otherwise the next value of the
    /// id counter, which then advances.
    pub fn generate_unique_id(&mut self, requested_id: Option<u64>) -> (id: u64)
        requires
            old(self).id_counter() < u64::MAX,
        ensures
            requested_is_free(old(self).tasks@, requested_id) ==> id == requested_id->0
                && final(self).id_counter() == old(self).id_counter(),
            !requested_is_free(old(self).tasks@, requested_id) ==> id == old(self).id_counter()
                && final(self).id_counter() == old(self).id_counter() + 1,
            final(self).tasks@ == old(self).tasks@,
            final(self).cpu_slots() == old(self).cpu_slots(),
            final(self).released_stacks() == old(self).released_stacks(),
    {
        if let Some(id) = requested_id {
            if self.find(id).is_none() {
                return id;
            }
        }
        let id = self.next_id;
        self.next_id = self.next_id + 1;
        id
    }

    /// Creates a task for `entry_point` with the stack at `stack_bottom` and
    /// adds it, under the requested id when that is free.
    pub fn spawn(&mut self, entry_point: u64, name: Option<&str>, id: Option<u64>, stack_bottom: u64)
        requires
            old(self).id_counter() < u64::MAX,
            stack_bottom + TASK_STACK_SIZE <= u64::MAX,
        ensures
            final(self).tasks@.len() == old(self).tasks@.len() + 1,
            final(self).tasks@.subrange(0, old(self).tasks@.len() as int) == old(self).tasks@,
            ({
                let t = final(self).tasks@.last();
                &&& (requested_is_free(old(self).tasks@, id) ==> t.id == id->0)
                &&& (!requested_is_free(old(self).tasks@, id) ==> t.id == old(self).id_counter())
                &&& (name is Some ==> t.name@ == name->0@)
                &&& (name is None ==> t.name@ == decode_utf8(default_task_name(entry_point)))
                &&& t.state == TaskState::Ready
                &&& t.stack_bottom == stack_bottom
                &&& t.stack_top == stack_bottom + TASK_STACK_SIZE
                &&& t.stack_pointer == stack_bottom + TASK_STACK_SIZE - INITIAL_FRAME_SIZE
                &&& t.sleep_until == 0
            }),
            final(self).cpu_slots() == old(self).cpu_slots(),
            final(self).released_stacks() == old(self).released_stacks(),
            call_effect(*old(self), *final(self), TaskCall::Spawn),
    {
        let final_id = self.generate_unique_id(id);
        let task = Task::new(final_id, entry_point, name, stack_bottom);
        self.add_task(task);
        assert(self.tasks@.subrange(0, old(self).tasks@.len() as int) =~= old(self).tasks@);
    }
}

/// The index an optional position stands for, as a machine index.
pub open spec fn opt_index(o: Option<int>) -> Option<usize> {
    match o {
        Some(i) => Some(i as usize),
        None => None,
    }
}

/// The task list after `cpu` switches from the task at `old` to the one at
/// `new`: the old task, if it was running, becomes ready; the new one runs.
pub open spec fn switched(tasks: Seq<Task>, old: Option<int>, new: int) -> Seq<Task> {
    let demoted = match old {
        Some(o) => if tasks[o].state == TaskState::Running {
            with_state(tasks, o, TaskState::Ready)
        } else {
            tasks
        },
        None => tasks,
    };
    with_state(demoted, new, TaskState::Running)
}

/// Where the round-robin search starts: just after the task the CPU runs, or
/// at the front when it runs none of the listed tasks.
pub open spec fn search_start(old: Option<int>) -> int {
    match old {
        Some(i) => i + 1,
        None => 0,
    }
}

impl Scheduler {
    /// Whether a CPU other than `cpu` runs the task `id`.
    fn is_running_elsewhere(&self, cpu: usize, id: u64) -> (r: bool)
        ensures
            r == running_elsewhere(self.cpu_slots(), cpu as int, id),
    {
        let mut c: usize = 0;
        while c < MAX_CORES
            invariant
                0 <= c <= MAX_CORES,
                self.cpu_slots().len() == MAX_CORES,
                forall|d: int| 0 <= d < c ==> !(d != cpu && #[trigger] self.cpu_slots()[d] == id && id != NO_TASK),
            decreases MAX_CORES - c,
        {
            if c != cpu && self.cpu_tasks[c] == id && id != NO_TASK {
                assert(self.cpu_slots()[c as int] == id);
                return true;
            }
            c = c + 1;
        }
        false
    }

    /// Wakes the task at `idx`: it becomes ready and forgets its wake-up time.
    fn wake_at(&mut self, idx: usize)
        requires
            idx < old(self).tasks@.len(),
        ensures
            final(self).tasks@ == old(self).tasks@.update(
                idx as int,
                Task { state: TaskState::Ready, sleep_until: 0, ..old(self).tasks@[idx as int] },
            ),
            final(self).cpu_slots() == old(self).cpu_slots(),
            final(self).id_counter() == old(self).id_counter(),
            final(self).released_stacks() == old(self).released_stacks(),
    {
        if let Some(mut t) = self.tasks.remove(idx) {
            t.state = TaskState::Ready;
            t.sleep_until = 0;
            self.tasks.insert(idx, t);
            assert(self.tasks@ =~= old(self).tasks@.update(
                idx as int,
                Task { state: TaskState::Ready, sleep_until: 0, ..old(self).tasks@[idx as int] },
            ));
        }
    }

    /// One scheduling decision for `cpu_id` at time `now`. Sleeping tasks
    /// whose time has come are woken; then, going round-robin from the task
    /// after the one this CPU runs, the first ready task that no other CPU
    /// runs is chosen. If it differs from the current one, the current task
    /// (if running) becomes ready, the chosen one runs on this CPU, and the
    /// switch to perform is returned.
    pub fn schedule(&mut self, cpu_id: usize, now: u64) -> (sw: Option<ContextSwitch>)
        requires
            cpu_id < MAX_CORES,
        ensures
            final(self).id_counter() == old(self).id_counter(),
            old(self).tasks@.len() == 0 ==> sw is None && final(self).tasks@ == old(self).tasks@
                && final(self).cpu_slots() == old(self).cpu_slots(),
            old(self).tasks@.len() > 0 ==> ({
                let w = woken(old(self).tasks@, now);
                let oi = position_of(w, old(self).cpu_slots()[cpu_id as int]);
                let pick = pick_from(w, old(self).cpu_slots(), cpu_id as int, search_start(oi), 0);
                if pick is Some && pick != oi {
                    &&& final(self).tasks@ == switched(w, oi, pick->0)
                    &&& final(self).cpu_slots() == old(self).cpu_slots().update(cpu_id as int, w[pick->0].id)
                    &&& sw matches Some(s) && s.old_index == opt_index(oi) && s.new_stack_pointer == w[pick->0].stack_pointer
                } else {
                    &&& final(self).tasks@ == w
                    &&& final(self).cpu_slots() == old(self).cpu_slots()
                    &&& sw is None
                }
            }),
            final(self).released_stacks() == old(self).released_stacks(),
    {
        let len = self.tasks.len();
        if len == 0 {
            return None;
        }
        let ghost t0 = self.tasks@;
        let ghost w = woken(t0, now);
        let mut i: usize = 0;
        while i < len
            invariant
                0 <= i <= len,
                len == t0.len(),
                w == woken(t0, now),
                self.tasks@.len() == len,
                forall|j: int| 0 <= j < i ==> #[trigger] self.tasks@[j] == w[j],
                forall|j: int| i <= j < len ==> #[trigger] self.tasks@[j] == t0[j],
                self.cpu_slots() == old(self).cpu_slots(),
                self.id_counter() == old(self).id_counter(),
                self.released_stacks() == old(self).released_stacks(),
            decreases len - i,
        {
            let st = self.tasks[i].state;
            let su = self.tasks[i].sleep_until;
            if st == TaskState::Blocked && su > 0 && now >= su {
                self.wake_at(i);
            }
            i = i + 1;
        }
        assert(self.tasks@ =~= w);
        let current = self.cpu_tasks[cpu_id];
        let old_idx = self.find(current);
        proof {
            lemma_position_of_bound(w, current);
        }
        let start: usize = match old_idx {
            Some(o) => o + 1,
            None => 0,
        };
        let ghost cpus = self.cpu_slots();
        let mut next: Option<usize> = None;
        let mut k: usize = 0;
        while k < len && next.is_none()
            invariant
                0 <= k <= len,
                len == w.len(),
                len > 0,
                start <= len,
                start == search_start(position_of(w, current)),
                self.tasks@ == w,
                cpus == self.cpu_slots(),
                next is None ==> pick_from(w, cpus, cpu_id as int, start as int, 0) == pick_from(w, cpus, cpu_id as int, start as int, k as int),
                next matches Some(n) ==> pick_from(w, cpus, cpu_id as int, start as int, 0) == Some(n as int) && n < len,
            decreases len - k + (if next is None { 1int } else { 0int }),
        {
            let idx: usize = if k < len - start { start + k } else { k - (len - start) };
            proof {
                if k < len - start {
                    vstd::arithmetic::div_mod::lemma_small_mod((start + k) as nat, len as nat);
                } else {
                    assert((start + k) as int % (len as int) == (k - (len - start)) as int) by (nonlinear_arith)
                        requires
                            len <= start + k < 2 * len,
                    {
                        vstd::arithmetic::div_mod::lemma_small_mod((start + k - len) as nat, len as nat);
                        vstd::arithmetic::div_mod::lemma_mod_sub_multiples_vanish((start + k) as int, len as int);
                    }
                }
                assert(idx as int == (start + k) as int % (len as int));
            }
            let ready = self.tasks[idx].state == TaskState::Ready;
            let tid = self.tasks[idx].id;
            if ready && !self.is_running_elsewhere(cpu_id, tid) {
                next = Some(idx);
                assert(pick_from(w, cpus, cpu_id as int, start as int, k as int) == Some(idx as int));
            } else {
                k = k + 1;
            }
        }
        let ghost pick = pick_from(w, cpus, cpu_id as int, start as int, 0);
        proof {
            if next is None {
                assert(k == len);
                assert(pick is None);
            }
        }
        match next {
            Some(n) => {
                let same = match old_idx {
                    Some(o) => o == n,
                    None => false,
                };
                if same {
                    return None;
                }
                let ghost mid0 = self.tasks@;
                if let Some(o) = old_idx {
                    if self.tasks[o].state == TaskState::Running {
                        self.set_state(o, TaskState::Ready);
                    }
                }
                let new_sp = self.tasks[n].stack_pointer;
                let new_id = self.tasks[n].id;
                assert(new_sp == w[n as int].stack_pointer);
                self.set_state(n, TaskState::Running);
                self.cpu_tasks[cpu_id] = new_id;
                assert(self.tasks@ =~= switched(w, position_of(w, current), n as int));
                Some(ContextSwitch { old_index: old_idx, new_stack_pointer: new_sp })
            },
            None => None,
        }
    }
}

proof fn lemma_position_of_first(tasks: Seq<Task>, id: u64, i: int)
    requires
        0 <= i < tasks.len(),
        tasks[i].id == id,
        forall|j: int| 0 <= j < i ==> #[trigger] tasks[j].id != id,
    ensures
        position_of(tasks, id) == Some(i),
    decreases i,
{
    if i > 0 {
        lemma_position_of_first(tasks.drop_first(), id, i - 1);
    }
}

proof fn lemma_position_of_none(tasks: Seq<Task>, id: u64)
    requires
        forall|j: int| 0 <= j < tasks.len() ==> #[trigger] tasks[j].id != id,
    ensures
        position_of(tasks, id) is None,
    decreases tasks.len(),
{
    if tasks.len() > 0 {
        lemma_position_of_none(tasks.drop_first(), id);
    }
}

/// The first position of an id is an index of a task with that id, and no
/// earlier task has it.
pub proof fn lemma_position_of_bound(tasks: Seq<Task>, id: u64)
    ensures
        position_of(tasks, id) matches Some(i) ==> 0 <= i < tasks.len() && tasks[i].id == id
            && forall|j: int| 0 <= j < i ==> #[trigger] tasks[j].id != id,
        position_of(tasks, id) is None ==> forall|j: int| 0 <= j < tasks.len() ==> #[trigger] tasks[j].id != id,
    decreases tasks.len(),
{
    if tasks.len() > 0 {
        lemma_position_of_bound(tasks.drop_first(), id);
        if tasks[0].id != id {
            assert forall|j: int| 1 <= j < tasks.len() implies #[trigger] tasks[j].id == tasks.drop_first()[j - 1].id by {}
        }
    }
}

/// Blocking a ready task and resuming it gives back the task list it was
/// blocked in: `resume_task` finds the task where `block_task` left it.
pub proof fn resume_undoes_block(tasks: Seq<Task>, id: u64)
    requires
        position_of(tasks, id) matches Some(i) && tasks[i].state == TaskState::Ready,
    ensures
        ({
            let i = position_of(tasks, id)->0;
            let blocked = with_state(tasks, i, TaskState::Blocked);
            &&& position_of(blocked, id) == Some(i)
            &&& with_state(blocked, i, TaskState::Ready) == tasks
        }),
{
    let i = position_of(tasks, id)->0;
    let blocked = with_state(tasks, i, TaskState::Blocked);
    lemma_position_of_bound(tasks, id);
    assert forall|j: int| 0 <= j < i implies #[trigger] blocked[j].id != id by {
        assert(tasks[j].id != id);
    }
    lemma_position_of_first(blocked, id, i);
    assert(with_state(blocked, i, TaskState::Ready) =~= tasks);
}

/// A call that changes the task list and nothing else: what `add_task`,
/// `spawn`, `remove_task`, `block_task` and `resume_task` are asked to do.
pub enum TaskCall {
    Add(Task),
    Spawn,
    Remove(u64),
    Block(u64),
    Resume(u64),
}

/// Whether `remove_task(id)` removes a task from this list: the id is neither
/// 0 nor 2 and some task has it.
pub open spec fn removes(tasks: Seq<Task>, id: u64) -> bool {
    id != 0 && id != 2 && position_of(tasks, id) is Some
}

/// What a call leaves, given the scheduler before it: the CPU slots are
/// untouched, and the task list is changed as the call's contract says.
pub open spec fn call_effect(before: Scheduler, after: Scheduler, c: TaskCall) -> bool {
    &&& after.cpu_slots() == before.cpu_slots()
    &&& match c {
        TaskCall::Add(t) => after.tasks@ == before.tasks@.push(t),
        TaskCall::Spawn => after.tasks@.len() == before.tasks@.len() + 1 && after.tasks@.subrange(
            0,
            before.tasks@.len() as int,
        ) == before.tasks@,
        TaskCall::Remove(id) => if removes(before.tasks@, id) {
            after.tasks@ == before.tasks@.remove(position_of(before.tasks@, id)->0)
        } else {
            after.tasks@ == before.tasks@
        },
        TaskCall::Block(id) => match position_of(before.tasks@, id) {
            Some(i) => after.tasks@ == with_state(before.tasks@, i, TaskState::Blocked),
            None => after.tasks@ == before.tasks@,
        },
        TaskCall::Resume(id) => match position_of(before.tasks@, id) {
            Some(i) => after.tasks@ == with_state(before.tasks@, i, TaskState::Ready),
            None => after.tasks@ == before.tasks@,
        },
    }
}

/// How a call changes the task count: one more for an add or a spawn, one
/// less for a removal that succeeds, no change otherwise.
pub open spec fn count_change(tasks: Seq<Task>, c: TaskCall) -> int {
    match c {
        TaskCall::Add(_) => 1,
        TaskCall::Spawn => 1,
        TaskCall::Remove(id) => if removes(tasks, id) { -1 } else { 0 },
        _ => 0,
    }
}

/// Whether `states` are the schedulers before and after each of `calls`, in
/// turn.
pub open spec fn is_run(states: Seq<Scheduler>, calls: Seq<TaskCall>) -> bool {
    &&& states.len() == calls.len() + 1
    &&& forall|i: int| 0 <= i < calls.len() ==> #[trigger] call_effect(states[i], states[i + 1], calls[i])
}

/// The count changes of the first `n` calls of a run, added up.
pub open spec fn total_change(states: Seq<Scheduler>, calls: Seq<TaskCall>, n: nat) -> int
    decreases n,
{
    if n == 0 {
        0
    } else {
        total_change(states, calls, (n - 1) as nat) + count_change(states[n - 1].tasks@, calls[n - 1])
    }
}

/// One call changes the task count as `count_change` says and leaves the
/// CPU slots as they were.
pub proof fn call_changes_count(before: Scheduler, after: Scheduler, c: TaskCall)
    requires
        call_effect(before, after, c),
    ensures
        after.tasks@.len() == before.tasks@.len() + count_change(before.tasks@, c),
        after.cpu_slots() == before.cpu_slots(),
{
    match c {
        TaskCall::Remove(id) => {
            lemma_position_of_bound(before.tasks@, id);
        },
        TaskCall::Block(id) => {
            lemma_position_of_bound(before.tasks@, id);
        },
        TaskCall::Resume(id) => {
            lemma_position_of_bound(before.tasks@, id);
        },
        _ => {},
    }
}

/// The task count (`get_task_count`, the length of `get_tasks`) moves only
/// by adding and removing, and the CPU slots (`get_cpu_tasks`) only by
/// scheduling: over any sequence of `add_task`, `spawn`, `remove_task`,
/// `block_task` and `resume_task` calls, the count ends one higher for each
/// add or spawn and one lower for each removal that succeeded, and the CPU
/// slots end as they began.
pub proof fn task_count_over_calls(states: Seq<Scheduler>, calls: Seq<TaskCall>)
    requires
        is_run(states, calls),
    ensures
        states.last().tasks@.len() == states[0].tasks@.len() + total_change(states, calls, calls.len()),
        states.last().cpu_slots() == states[0].cpu_slots(),
{
    lemma_run_prefix(states, calls, calls.len());
}

proof fn lemma_run_prefix(states: Seq<Scheduler>, calls: Seq<TaskCall>, n: nat)
    requires
        is_run(states, calls),
        n <= calls.len(),
    ensures
        states[n as int].tasks@.len() == states[0].tasks@.len() + total_change(states, calls, n),
        states[n as int].cpu_slots() == states[0].cpu_slots(),
    decreases n,
{
    if n > 0 {
        lemma_run_prefix(states, calls, (n - 1) as nat);
        assert(call_effect(states[n - 1], states[(n - 1) + 1], calls[n - 1]));
        call_changes_count(states[n - 1], states[n as int], calls[n - 1]);
    }
}

/// Whether the task at `idx` may be started on `cpu`: it is ready, and no
/// other CPU runs it.
pub open spec fn can_start(tasks: Seq<Task>, slots: Seq<u64>, cpu: int, idx: int) -> bool {
    &&& tasks[idx].state == TaskState::Ready
    &&& forall|c: int| 0 <= c < slots.len() && c != cpu && tasks[idx].id != NO_TASK ==> #[trigger] slots[c]
        != tasks[idx].id
}

/// The index `k` places after `first` in a cyclic walk over `n` tasks.
pub open spec fn cyclic_index(first: int, k: int, n: int) -> int {
    (first + k) % n
}

/// The index `k + 1` places after `current` in a cyclic walk over `n` tasks.
pub open spec fn cyclic_after(current: int, k: int, n: int) -> int {
    (current + 1 + k) % n
}

proof fn lemma_eligible_is_can_start(tasks: Seq<Task>, slots: Seq<u64>, cpu: int, idx: int)
    ensures
        eligible(tasks, slots, cpu, idx) == can_start(tasks, slots, cpu, idx),
{
}

proof fn lemma_pick_is_first(tasks: Seq<Task>, slots: Seq<u64>, cpu: int, start: int, i: int)
    requires
        tasks.len() > 0,
        0 <= i <= tasks.len(),
    ensures
        pick_from(tasks, slots, cpu, start, i) matches Some(p) ==> exists|d: int|
            i <= d < tasks.len() && p == cyclic_index(start, d, tasks.len() as int) && can_start(tasks, slots, cpu, p)
                && forall|k: int|
                i <= k < d ==> !can_start(tasks, slots, cpu, #[trigger] cyclic_index(start, k, tasks.len() as int)),
        pick_from(tasks, slots, cpu, start, i) is None ==> forall|k: int|
            i <= k < tasks.len() ==> !can_start(tasks, slots, cpu, #[trigger] cyclic_index(start, k, tasks.len() as int)),
    decreases tasks.len() - i,
{
    let n = tasks.len() as int;
    if i < n {
        let idx = cyclic_index(start, i, n);
        lemma_eligible_is_can_start(tasks, slots, cpu, idx);
        lemma_pick_is_first(tasks, slots, cpu, start, i + 1);
        if eligible(tasks, slots, cpu, idx) {
            assert(pick_from(tasks, slots, cpu, start, i) == Some(idx));
            assert(forall|k: int| i <= k < i ==> !can_start(tasks, slots, cpu, #[trigger] cyclic_index(start, k, n)));
        } else {
            if let Some(p) = pick_from(tasks, slots, cpu, start, i + 1) {
                let d = choose|d: int|
                    i + 1 <= d < n && p == cyclic_index(start, d, n) && can_start(tasks, slots, cpu, p) && forall|k: int|
                        i + 1 <= k < d ==> !can_start(tasks, slots, cpu, #[trigger] cyclic_index(start, k, n));
                assert forall|k: int| i <= k < d implies !can_start(tasks, slots, cpu, #[trigger] cyclic_index(start, k, n)) by {
                    if k > i {
                    }
                }
            }
        }
    }
}

/// Round-robin: the task a scheduling decision picks for `cpu` is the first
/// one, walking the woken task list cyclically from just after the task the
/// CPU runs (from the front when it runs none of them), that may start there
/// (ready, and run by no other CPU); every task passed over on the way may
/// not. When none may start, nothing is picked. So a ready task is reached
/// within one walk round the list, and a CPU never goes back to the front
/// while later tasks wait.
pub proof fn schedule_is_round_robin(tasks: Seq<Task>, slots: Seq<u64>, cpu: int, now: u64)
    requires
        tasks.len() > 0,
        0 <= cpu < slots.len(),
    ensures
        ({
            let w = woken(tasks, now);
            let n = tasks.len() as int;
            let pick = pick_from(w, slots, cpu, search_start(position_of(w, slots[cpu])), 0);
            let o = position_of(w, slots[cpu])->0;
            let p = pick->0;
            position_of(w, slots[cpu]) is Some && pick is Some ==> exists|d: int|
                0 <= d < n && p == cyclic_after(o, d, n) && can_start(w, slots, cpu, p) && forall|k: int|
                    0 <= k < d ==> !can_start(w, slots, cpu, #[trigger] cyclic_after(o, k, n))
        }),
        ({
            let w = woken(tasks, now);
            let n = tasks.len() as int;
            let pick = pick_from(w, slots, cpu, search_start(position_of(w, slots[cpu])), 0);
            pick matches Some(p) ==> (position_of(w, slots[cpu]) is None ==> exists|d: int|
                0 <= d < n && p == cyclic_index(0, d, n) && can_start(w, slots, cpu, p) && forall|k: int|
                    0 <= k < d ==> !can_start(w, slots, cpu, #[trigger] cyclic_index(0, k, n)))
        }),
        ({
            let w = woken(tasks, now);
            let pick = pick_from(w, slots, cpu, search_start(position_of(w, slots[cpu])), 0);
            pick is None ==> forall|j: int| 0 <= j < tasks.len() ==> !can_start(w, slots, cpu, j)
        }),
{
    let w = woken(tasks, now);
    let n = tasks.len() as int;
    let start = search_start(position_of(w, slots[cpu]));
    assert(w.len() == n);
    lemma_position_of_bound(w, slots[cpu]);
    lemma_pick_is_first(w, slots, cpu, start, 0);
    if pick_from(w, slots, cpu, start, 0) is None {
        assert forall|j: int| 0 <= j < n implies !can_start(w, slots, cpu, j) by {
            let k = (j - start) % n;
            vstd::arithmetic::div_mod::lemma_mod_bound(j - start, n);
            vstd::arithmetic::div_mod::lemma_add_mod_noop_right(start, j - start, n);
            vstd::arithmetic::div_mod::lemma_small_mod(j as nat, n as nat);
            assert(cyclic_index(start, k, n) == j);
            assert(!can_start(w, slots, cpu, cyclic_index(start, k, n)));
        }
    }
    if let Some(o) = position_of(w, slots[cpu]) {
        if let Some(p) = pick_from(w, slots, cpu, start, 0) {
            assert(start == o + 1);
            let d = choose|d: int|
                0 <= d < n && p == cyclic_index(start, d, n) && can_start(w, slots, cpu, p) && forall|k: int|
                    0 <= k < d ==> !can_start(w, slots, cpu, #[trigger] cyclic_index(start, k, n));
            assert forall|k: int| 0 <= k < d implies !can_start(w, slots, cpu, #[trigger] cyclic_after(o, k, n)) by {
                assert(cyclic_after(o, k, n) == cyclic_index(start, k, n));
            }
            assert(p == cyclic_after(o, d, n));
            assert(exists|d: int|
                0 <= d < n && p == cyclic_after(o, d, n) && can_start(w, slots, cpu, p) && forall|k: int|
                    0 <= k < d ==> !can_start(w, slots, cpu, #[trigger] cyclic_after(o, k, n)));
        }
    }
}

/// Waking keeps the task list's order and length: a blocked task whose
/// wake-up time is set (not 0) and has come by `now` becomes ready with no
/// wake-up time; every other task stays exactly as it was.
pub proof fn waking_readies_only_due_sleepers(tasks: Seq<Task>, now: u64)
    ensures
        woken(tasks, now).len() == tasks.len(),
        forall|i: int|
            0 <= i < tasks.len() ==> {
                let t = tasks[i];
                let u = #[trigger] woken(tasks, now)[i];
                if t.state == TaskState::Blocked && t.sleep_until != 0 && now >= t.sleep_until {
                    u.state == TaskState::Ready && u.sleep_until == 0 && u.id == t.id && u.name == t.name
                        && u.stack_pointer == t.stack_pointer && u.stack_bottom == t.stack_bottom && u.stack_top
                        == t.stack_top
                } else {
                    u == t
                }
            },
{
}

/// A switch changes task states only: the chosen task runs; the task the
/// CPU ran before, when it is another one and was running, becomes ready;
/// every other task, and every id, name, stack and wake-up time, stays as it
/// was.
pub proof fn switch_changes_only_two_states(tasks: Seq<Task>, old: Option<int>, new: int)
    requires
        0 <= new < tasks.len(),
        old matches Some(o) ==> 0 <= o < tasks.len(),
    ensures
        switched(tasks, old, new).len() == tasks.len(),
        switched(tasks, old, new)[new].state == TaskState::Running,
        forall|j: int|
            0 <= j < tasks.len() ==> {
                let u = #[trigger] switched(tasks, old, new)[j];
                &&& u.id == tasks[j].id
                &&& u.name == tasks[j].name
                &&& u.stack_pointer == tasks[j].stack_pointer
                &&& u.stack_bottom == tasks[j].stack_bottom
                &&& u.stack_top == tasks[j].stack_top
                &&& u.sleep_until == tasks[j].sleep_until
                &&& (j != new && old != Some(j) ==> u == tasks[j])
            },
        ({
            let o = old->0;
            old is Some && o != new ==> (if tasks[o].state == TaskState::Running {
                switched(tasks, old, new)[o].state == TaskState::Ready
            } else {
                switched(tasks, old, new)[o] == tasks[o]
            })
        }),
{
}

/// No id other than `NO_TASK` appears in two CPU slots.
pub open spec fn slots_distinct(slots: Seq<u64>) -> bool {
    forall|a: int, b: int|
        0 <= a < slots.len() && 0 <= b < slots.len() && a != b && #[trigger] slots[a] == #[trigger] slots[b]
            ==> slots[a] == NO_TASK
}

/// A round-robin pick is an index of the task list whose task may run on the
/// CPU.
pub proof fn lemma_pick_is_eligible(tasks: Seq<Task>, slots: Seq<u64>, cpu: int, start: int, i: int)
    requires
        tasks.len() > 0,
    ensures
        pick_from(tasks, slots, cpu, start, i) matches Some(idx) ==> 0 <= idx < tasks.len()
            && eligible(tasks, slots, cpu, idx),
    decreases tasks.len() - i,
{
    if 0 <= i < tasks.len() {
        let idx = (start + i) % (tasks.len() as int);
        if !eligible(tasks, slots, cpu, idx) {
            lemma_pick_is_eligible(tasks, slots, cpu, start, i + 1);
        }
    }
}

/// A task never runs on two CPUs at once: when the CPU slots hold distinct
/// tasks before a scheduling decision, they still do after it.
pub proof fn schedule_keeps_tasks_on_one_cpu(tasks: Seq<Task>, slots: Seq<u64>, cpu: int, now: u64)
    requires
        tasks.len() > 0,
        0 <= cpu < slots.len(),
        slots_distinct(slots),
    ensures
        ({
            let w = woken(tasks, now);
            let oi = position_of(w, slots[cpu]);
            let pick = pick_from(w, slots, cpu, search_start(oi), 0);
            pick is Some && pick != oi ==> slots_distinct(slots.update(cpu, w[pick->0].id))
        }),
{
    let w = woken(tasks, now);
    let oi = position_of(w, slots[cpu]);
    let pick = pick_from(w, slots, cpu, search_start(oi), 0);
    lemma_pick_is_eligible(w, slots, cpu, search_start(oi), 0);
    if pick is Some && pick != oi {
        let id = w[pick->0].id;
        let ns = slots.update(cpu, id);
        assert forall|a: int, b: int|
            0 <= a < ns.len() && 0 <= b < ns.len() && a != b && #[trigger] ns[a] == #[trigger] ns[b]
            implies ns[a] == NO_TASK by {
            if a == cpu {
                assert(slots[b] == id);
            } else if b == cpu {
                assert(slots[a] == id);
            }
        }
    }
}

} // verus!
