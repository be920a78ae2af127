//! The task table of the teaching kernel: task states, round-robin choice of
//! the next task, program breaks and anonymous mappings, and reaping of
//! exited children.
use vstd::prelude::*;
use crate::frame_allocator::{StackFrameAllocator, round_up, round_up_spec};
use crate::loader::{APP_NUM, USER_HEAP_SIZE};
use crate::memory_set::MemorySet;

verus! {

/// How many tasks the table holds: one per user stack.
pub const MAX_TASKS: usize = 2;
/// Where anonymous mappings of a task start.
pub const MMAP_BASE: usize = 0x4000_0000;
/// The parent of a task that has none.
pub const NO_PARENT: usize = usize::MAX;
/// Bytes of a page.
pub const PAGE_BYTES: usize = 4096;

/// The state of a task.
#[derive(Clone, Copy, Debug, PartialEq, Eq, Structural)]
pub enum TaskStatus {
    Ready,
    Running,
    Exited,
}

/// The registers a context switch saves.
#[derive(Clone, Copy, Debug)]
pub struct TaskContext {
    pub ra: usize,
    pub sp: usize,
    pub s: [usize; 12],
}

impl TaskContext {
    /// A context of zeros.
    pub fn zero_init() -> (r: Self)
        ensures
            r.ra == 0 && r.sp == 0,
            forall|i: int| 0 <= i < 12 ==> r.s[i] == 0,
    {
        TaskContext { ra: 0, sp: 0, s: [0usize; 12] }
    }
}

/// One task of the table.
pub struct TaskControlBlock {
    pub status: TaskStatus,
    pub trap_cx_addr: usize,
    pub task_cx: TaskContext,
    pub memory_set: Option<MemorySet>,
    pub satp_token: u64,
    pub heap_bottom: usize,
    pub heap_end: usize,
    pub mmap_end: usize,
    pub parent: usize,
    pub exit_code: i32,
    pub waited: bool,
}

impl TaskControlBlock {
    /// An unused slot: exited and already reaped, with no address space.
    pub fn zero_init() -> (r: Self)
        ensures
            r.status == TaskStatus::Exited,
            r.trap_cx_addr == 0,
            r.memory_set is None,
            r.satp_token == 0,
            r.heap_bottom == 0 && r.heap_end == 0,
            r.mmap_end == MMAP_BASE,
            r.parent == NO_PARENT,
            r.exit_code == 0,
            r.waited,
    {
        TaskControlBlock {
            status: TaskStatus::Exited,
            trap_cx_addr: 0,
            task_cx: TaskContext::zero_init(),
            memory_set: None,
            satp_token: 0,
            heap_bottom: 0,
            heap_end: 0,
            mmap_end: MMAP_BASE,
            parent: NO_PARENT,
            exit_code: 0,
            waited: true,
        }
    }

    /// A task ready to run its program from the start.
    pub fn ready(trap_cx_addr: usize, memory_set: MemorySet, satp_token: u64, heap_bottom: usize) -> (r: Self)
        ensures
            r.status == TaskStatus::Ready,
            r.trap_cx_addr == trap_cx_addr,
            r.memory_set == Some(memory_set),
            r.satp_token == satp_token,
            r.heap_bottom == heap_bottom && r.heap_end == heap_bottom,
            r.mmap_end == MMAP_BASE,
            r.parent == NO_PARENT,
            r.exit_code == 0,
            r.waited,
    {
        TaskControlBlock {
            status: TaskStatus::Ready,
            trap_cx_addr,
            task_cx: TaskContext::zero_init(),
            memory_set: Some(memory_set),
            satp_token,
            heap_bottom,
            heap_end: heap_bottom,
            mmap_end: MMAP_BASE,
            parent: NO_PARENT,
            exit_code: 0,
            waited: true,
        }
    }
}

/// The slot `o` places after slot `c`, wrapping around.
pub open spec fn round_robin(c: int, o: int) -> int {
    (c + o) % (MAX_TASKS as int)
}

/// The process id of task slot `id`.
pub open spec fn pid_of(id: int) -> int {
    id + 1
}

/// The process id of task slot `task_id`.
pub fn task_pid(task_id: usize) -> (r: usize)
    requires
        task_id < MAX_TASKS,
    ensures
        r == pid_of(task_id as int),
{
    task_id + 1
}

/// The wait status of a child that exited with `code`: the code, negative
/// codes as 0, in bits 8 to 15.
pub open spec fn wait_status(code: i32) -> i32 {
    let c: int = if code < 0 { 0 } else { code as int };
    ((c % 256) * 256) as i32
}

/// The table of tasks and which one runs.
pub struct TaskTable {
    tasks: Vec<TaskControlBlock>,
    current: usize,
}

impl TaskTable {
    /// The task in slot `id`.
    pub closed spec fn task(&self, id: int) -> TaskControlBlock {
        self.tasks@[id]
    }

    /// The slot of the running task.
    pub closed spec fn current_spec(&self) -> usize {
        self.current
    }

    /// The table holds `MAX_TASKS` slots and the running slot is one of them.
    pub closed spec fn wf(&self) -> bool {
        &&& self.tasks@.len() == MAX_TASKS
        &&& self.current < MAX_TASKS
    }

    /// A table of unused slots, the first of them current.
    pub fn new() -> (r: Self)
        ensures
            r.wf(),
            r.current_spec() == 0,
            forall|i: int| 0 <= i < MAX_TASKS ==> #[trigger] r.task(i).status == TaskStatus::Exited && r.task(i).waited
                && r.task(i).parent == NO_PARENT,
    {
        let mut tasks: Vec<TaskControlBlock> = Vec::new();
        let mut i: usize = 0;
        while i < MAX_TASKS
            invariant
                i <= MAX_TASKS,
                tasks@.len() == i,
                forall|k: int| 0 <= k < i ==> #[trigger] tasks@[k].status == TaskStatus::Exited && tasks@[k].waited
                    && tasks@[k].parent == NO_PARENT,
            decreases MAX_TASKS - i,
        {
            tasks.push(TaskControlBlock::zero_init());
            i = i + 1;
        }
        TaskTable { tasks, current: 0 }
    }

    /// Puts a task into slot `id`.
    pub fn install(&mut self, id: usize, task: TaskControlBlock)
        requires
            old(self).wf(),
            id < MAX_TASKS,
        ensures
            final(self).wf(),
            final(self).current_spec() == old(self).current_spec(),
            final(self).task(id as int) == task,
            forall|i: int| 0 <= i < MAX_TASKS && i != id ==> #[trigger] final(self).task(i) == old(self).task(i),
    {
        self.tasks.set(id, task);
    }

    /// The slot of the running task.
    pub fn current_task_id(&self) -> (r: usize)
        requires
            self.wf(),
        ensures
            r == self.current_spec(),
    {
        self.current
    }

    /// The process id of the running task.
    pub fn current_pid(&self) -> (r: usize)
        requires
            self.wf(),
        ensures
            r == pid_of(self.current_spec() as int),
    {
        task_pid(self.current)
    }

    /// The process id of the running task's parent; 1 when it has none.
    pub fn current_ppid(&self) -> (r: usize)
        requires
            self.wf(),
            self.task(self.current_spec() as int).parent == NO_PARENT || self.task(
                self.current_spec() as int,
            ).parent < MAX_TASKS,
        ensures
            r == (if self.task(self.current_spec() as int).parent == NO_PARENT {
                1
            } else {
                pid_of(self.task(self.current_spec() as int).parent as int)
            }),
    {
        let parent = self.tasks[self.current].parent;
        if parent == NO_PARENT {
            1
        } else {
            task_pid(parent)
        }
    }

    /// The program break of the running task.
    pub fn current_brk(&self) -> (r: usize)
        requires
            self.wf(),
        ensures
            r == self.task(self.current_spec() as int).heap_end,
    {
        self.tasks[self.current].heap_end
    }

    /// The first slot after the running one, in round-robin order (the
    /// running one last), whose task is ready.
    pub fn find_next_ready(&self) -> (r: Option<usize>)
        requires
            self.wf(),
        ensures
            match r {
                Some(id) => {
                    &&& id < MAX_TASKS
                    &&& self.task(id as int).status == TaskStatus::Ready
                    &&& exists|off: int| 1 <= off <= MAX_TASKS && id == round_robin(self.current_spec() as int, off)
                        && forall|o: int| 1 <= o < off ==> self.task(#[trigger] round_robin(self.current_spec() as int, o)).status
                            != TaskStatus::Ready
                },
                None => forall|id: int| 0 <= id < MAX_TASKS ==> #[trigger] self.task(id).status != TaskStatus::Ready,
            },
    {
        let mut offset: usize = 1;
        while offset <= MAX_TASKS
            invariant
                self.wf(),
                1 <= offset <= MAX_TASKS + 1,
                forall|o: int| 1 <= o < offset ==> self.task(#[trigger] round_robin(self.current_spec() as int, o)).status
                    != TaskStatus::Ready,
            decreases MAX_TASKS + 1 - offset,
        {
            let id = (self.current + offset) % MAX_TASKS;
            if self.tasks[id].status == TaskStatus::Ready {
                assert(id == round_robin(self.current_spec() as int, offset as int));
                return Some(id);
            }
            offset = offset + 1;
        }
        proof {
            assert forall|id: int| 0 <= id < MAX_TASKS implies #[trigger] self.task(id).status != TaskStatus::Ready by {
                let c = self.current_spec() as int;
                let o: int = if id > c { id - c } else { id - c + MAX_TASKS };
                assert(round_robin(c, o) == id);
            }
        }
        None
    }

    /// The first slot that is free: exited and reaped.
    pub fn find_free_task(&self) -> (r: Option<usize>)
        requires
            self.wf(),
        ensures
            match r {
                Some(id) => id < MAX_TASKS && self.task(id as int).status == TaskStatus::Exited && self.task(
                    id as int,
                ).waited && forall|k: int| 0 <= k < id ==> !(#[trigger] self.task(k).status == TaskStatus::Exited
                    && self.task(k).waited),
                None => forall|k: int| 0 <= k < MAX_TASKS ==> !(#[trigger] self.task(k).status == TaskStatus::Exited
                    && self.task(k).waited),
            },
    {
        let mut id: usize = 0;
        while id < MAX_TASKS
            invariant
                self.wf(),
                id <= MAX_TASKS,
                forall|k: int| 0 <= k < id ==> !(#[trigger] self.task(k).status == TaskStatus::Exited
                    && self.task(k).waited),
            decreases MAX_TASKS - id,
        {
            if self.tasks[id].status == TaskStatus::Exited && self.tasks[id].waited {
                return Some(id);
            }
            id = id + 1;
        }
        None
    }

    /// Whether slot `id` holds a child of `parent` that has exited, has not
    /// been reaped, and matches `pid` (`usize::MAX` matches any child).
    pub open spec fn reapable(&self, id: int, parent: usize, pid: usize) -> bool {
        &&& self.task(id).parent == parent
        &&& self.task(id).status == TaskStatus::Exited
        &&& !self.task(id).waited
        &&& (pid == usize::MAX || pid_of(id) == pid)
    }

    /// Reaps the first exited, unreaped child of the running task that
    /// matches `pid` (`usize::MAX` for any): marks it reaped and gives its
    /// process id and wait status; `-1` when there is none.
    pub fn wait_child(&mut self, pid: usize) -> (r: (isize, Option<i32>))
        requires
            old(self).wf(),
        ensures
            final(self).wf(),
            final(self).current_spec() == old(self).current_spec(),
            match r.1 {
                Some(status) => {
                    let id = r.0 - 1;
                    &&& 0 <= id < MAX_TASKS
                    &&& old(self).reapable(id, old(self).current_spec(), pid)
                    &&& forall|k: int| 0 <= k < id ==> !old(self).reapable(k, old(self).current_spec(), pid)
                    &&& status == wait_status(old(self).task(id).exit_code)
                    &&& final(self).task(id).waited
                    &&& final(self).task(id).status == old(self).task(id).status
                    &&& final(self).task(id).parent == old(self).task(id).parent
                    &&& forall|k: int| 0 <= k < MAX_TASKS && k != id ==> #[trigger] final(self).task(k) == old(self).task(k)
                },
                None => {
                    &&& r.0 == -1
                    &&& forall|k: int| 0 <= k < MAX_TASKS ==> !old(self).reapable(k, old(self).current_spec(), pid)
                    &&& forall|k: int| 0 <= k < MAX_TASKS ==> #[trigger] final(self).task(k) == old(self).task(k)
                },
            },
    {
        let current = self.current;
        let wait_any = pid == usize::MAX;
        let mut id: usize = 0;
        while id < MAX_TASKS
            invariant
                self.wf(),
                self.tasks@ == old(self).tasks@,
                self.current == old(self).current,
                current == self.current_spec(),
                wait_any == (pid == usize::MAX),
                id <= MAX_TASKS,
                forall|k: int| 0 <= k < id ==> !old(self).reapable(k, current, pid),
            decreases MAX_TASKS - id,
        {
            let t = &self.tasks[id];
            if t.parent == current && t.status == TaskStatus::Exited && !t.waited && (wait_any || task_pid(id)
                == pid) {
                let code = t.exit_code;
                let clamped: i32 = if code < 0 { 0 } else { code };
                let status: i32 = (clamped % 256) * 256;
                let old_task = self.tasks.remove(id);
                let updated = TaskControlBlock { waited: true, ..old_task };
                self.tasks.insert(id, updated);
                proof {
                    assert(self.tasks@ =~= old(self).tasks@.update(id as int, self.tasks@[id as int]));
                }
                return (task_pid(id) as isize, Some(status));
            }
            id = id + 1;
        }
        (-1, None)
    }

    /// Whether the running task has a child, matching `pid` (`usize::MAX`
    /// for any), that has not exited.
    pub fn has_waitable_child(&self, pid: usize) -> (r: bool)
        requires
            self.wf(),
        ensures
            r == exists|k: int| 0 <= k < MAX_TASKS && #[trigger] self.task(k).parent == self.current_spec()
                && self.task(k).status != TaskStatus::Exited && (pid == usize::MAX || pid_of(k) == pid),
    {
        let current = self.current;
        let wait_any = pid == usize::MAX;
        let mut id: usize = 0;
        while id < MAX_TASKS
            invariant
                self.wf(),
                current == self.current_spec(),
                wait_any == (pid == usize::MAX),
                id <= MAX_TASKS,
                forall|k: int| 0 <= k < id ==> !(#[trigger] self.task(k).parent == current && self.task(k).status
                    != TaskStatus::Exited && (pid == usize::MAX || pid_of(k) == pid)),
            decreases MAX_TASKS - id,
        {
            let t = &self.tasks[id];
            if t.parent == current && t.status != TaskStatus::Exited && (wait_any || task_pid(id) == pid) {
                assert(self.task(id as int).parent == self.current_spec());
                return true;
            }
            id = id + 1;
        }
        false
    }

    /// Marks the running task ready again, remembering where its trap
    /// context lies.
    pub fn mark_current_ready(&mut self, trap_cx_addr: usize)
        requires
            old(self).wf(),
        ensures
            final(self).wf(),
            final(self).current_spec() == old(self).current_spec(),
            final(self).task(old(self).current_spec() as int).status == TaskStatus::Ready,
            final(self).task(old(self).current_spec() as int).trap_cx_addr == trap_cx_addr,
            forall|k: int| 0 <= k < MAX_TASKS && k != old(self).current_spec() ==> #[trigger] final(self).task(k) == old(self).task(k),
    {
        let cur = self.current;
        let old_task = self.tasks.remove(cur);
        let updated = TaskControlBlock { status: TaskStatus::Ready, trap_cx_addr, ..old_task };
        self.tasks.insert(cur, updated);
        proof {
            assert(self.tasks@ =~= old(self).tasks@.update(cur as int, self.tasks@[cur as int]));
        }
    }

    /// Marks the running task exited with `code`.
    #[verifier::rlimit(40)]
    pub fn mark_current_exited(&mut self, code: i32)
        requires
            old(self).wf(),
        ensures
            final(self).wf(),
            final(self).current_spec() == old(self).current_spec(),
            final(self).task(old(self).current_spec() as int).status == TaskStatus::Exited,
            final(self).task(old(self).current_spec() as int).exit_code == code,
            final(self).task(old(self).current_spec() as int).waited == old(self).task(
                old(self).current_spec() as int,
            ).waited,
            final(self).task(old(self).current_spec() as int).parent == old(self).task(
                old(self).current_spec() as int,
            ).parent,
            forall|k: int| 0 <= k < MAX_TASKS && k != old(self).current_spec() ==> #[trigger] final(self).task(k) == old(self).task(k),
    {
        let cur = self.current;
        let old_task = self.tasks.remove(cur);
        let updated = TaskControlBlock { status: TaskStatus::Exited, exit_code: code, ..old_task };
        self.tasks.insert(cur, updated);
        proof {
            assert(self.tasks@ =~= old(self).tasks@.update(cur as int, self.tasks@[cur as int]));
        }
    }

    /// Makes slot `id` the running task; gives its trap context address and
    /// address-space token for the switch.
    pub fn start_task(&mut self, id: usize) -> (r: (usize, u64))
        requires
            old(self).wf(),
            id < MAX_TASKS,
        ensures
            final(self).wf(),
            final(self).current_spec() == id,
            final(self).task(id as int).status == TaskStatus::Running,
            r == (old(self).task(id as int).trap_cx_addr, old(self).task(id as int).satp_token),
            forall|k: int| 0 <= k < MAX_TASKS && k != id ==> #[trigger] final(self).task(k) == old(self).task(k),
    {
        self.current = id;
        let old_task = self.tasks.remove(id);
        let r = (old_task.trap_cx_addr, old_task.satp_token);
        let updated = TaskControlBlock { status: TaskStatus::Running, ..old_task };
        self.tasks.insert(id, updated);
        proof {
            assert(self.tasks@ =~= old(self).tasks@.update(id as int, self.tasks@[id as int]));
        }
        r
    }

    /// Hands out the next page-aligned anonymous mapping of `len` bytes of
    /// the running task: it starts at the end of the last one, rounded up to
    /// a page, and the next one starts after it, rounded up to a page.
    pub fn alloc_current_mmap(&mut self, len: usize) -> (r: usize)
        requires
            old(self).wf(),
            old(self).task(old(self).current_spec() as int).mmap_end + len + 2 * PAGE_BYTES <= usize::MAX,
        ensures
            final(self).wf(),
            final(self).current_spec() == old(self).current_spec(),
            r == round_up_spec(old(self).task(old(self).current_spec() as int).mmap_end as int, PAGE_BYTES as int),
            final(self).task(old(self).current_spec() as int).mmap_end == round_up_spec(r + len, PAGE_BYTES as int),
            final(self).task(old(self).current_spec() as int) == (TaskControlBlock {
                mmap_end: final(self).task(old(self).current_spec() as int).mmap_end,
                ..old(self).task(old(self).current_spec() as int)
            }),
            forall|k: int| 0 <= k < MAX_TASKS && k != old(self).current_spec() ==> #[trigger] final(self).task(k) == old(self).task(k),
    {
        let cur = self.current;
        let old_task = self.tasks.remove(cur);
        proof {
            assert(old_task == old(self).task(cur as int));
        }
        let start = round_up(old_task.mmap_end, PAGE_BYTES);
        proof {
            assert(start <= old_task.mmap_end + 4095) by (nonlinear_arith)
                requires
                    start == ((old_task.mmap_end + 4095) / 4096) * 4096,
            ;
        }
        let end = round_up(start + len, PAGE_BYTES);
        let updated = TaskControlBlock { mmap_end: end, ..old_task };
        self.tasks.insert(cur, updated);
        proof {
            assert(self.tasks@ =~= old(self).tasks@.update(cur as int, self.tasks@[cur as int]));
        }
        start
    }
}

/// Consecutive anonymous mappings never overlap: the next one starts at or
/// after the end of the previous one.
pub proof fn lemma_mmap_disjoint(mmap_end: int, len: int)
    requires
        mmap_end >= 0,
        len >= 0,
    ensures
        round_up_spec(round_up_spec(round_up_spec(mmap_end, 4096) + len, 4096), 4096)
            >= round_up_spec(mmap_end, 4096) + len,
{
    let a = round_up_spec(mmap_end, 4096);
    let b = round_up_spec(a + len, 4096);
    assert(b >= a + len) by (nonlinear_arith)
        requires
            b == ((a + len + 4095) / 4096) * 4096,
            a + len >= 0,
    ;
    assert(round_up_spec(b, 4096) >= b) by (nonlinear_arith)
        requires
            round_up_spec(b, 4096) == ((b + 4095) / 4096) * 4096,
            b >= 0,
    ;
}

/// Whether an address space can be grown with frames from `frames`.
pub open spec fn space_ok(ms: Option<MemorySet>, frames: StackFrameAllocator) -> bool {
    &&& frames.end_spec() <= 0x1000_0000_0000
    &&& frames.current_spec() <= frames.end_spec()
    &&& match ms {
        Some(m) => m.wf() && m.table().frames_below(frames.current_spec()),
        None => true,
    }
}

/// What growing the break from `old_brk` to `new_brk` did to an address
/// space: every earlier mapping stays, and on success every page of the new
/// part of the heap is present.
pub open spec fn heap_grown(before: Option<MemorySet>, after: Option<MemorySet>, old_brk: usize, new_brk: usize, ok: bool) -> bool {
    match (before, after) {
        (Some(b), Some(a)) => {
            &&& crate::memory_set::keeps_mappings(b.table(), a.table())
            &&& ok ==> forall|k: int| old_brk as int / 4096 <= k < (new_brk as int + 4095) / 4096 ==> (#[trigger] a.table().walk(k)) is Some
        },
        (None, None) => !ok,
        _ => false,
    }
}

/// Maps zeroed pages over `[start, end)` in an optional address space.
fn grow_space(ms: &mut Option<MemorySet>, start: usize, end: usize, frames: &mut StackFrameAllocator) -> (r: bool)
    requires
        space_ok(*old(ms), *old(frames)),
        end <= usize::MAX - 4095,
        start < end,
    ensures
        space_ok(*final(ms), *final(frames)),
        heap_grown(*old(ms), *final(ms), start, end, r),
{
    match ms {
        Some(m) => m.map_user_zero_range(start, end, frames),
        None => false,
    }
}

impl TaskTable {
    /// Moves the program break of the running task to `new_brk`; gives the
    /// break afterwards, and whether the address space grew (so that the
    /// caller reloads it). A break of 0, or one outside the heap, only
    /// reports the current break; growing maps zeroed pages first and keeps
    /// the old break when that fails.
    #[verifier::rlimit(40)]
    pub fn set_current_brk(&mut self, new_brk: usize, frames: &mut StackFrameAllocator) -> (r: (usize, bool))
        requires
            old(self).wf(),
            space_ok(old(self).task(old(self).current_spec() as int).memory_set, *old(frames)),
            old(self).task(old(self).current_spec() as int).heap_bottom + USER_HEAP_SIZE <= usize::MAX - 4096,
        ensures
            final(self).wf(),
            final(self).current_spec() == old(self).current_spec(),
            space_ok(final(self).task(old(self).current_spec() as int).memory_set, *final(frames)),
            forall|k: int| 0 <= k < MAX_TASKS && k != old(self).current_spec() ==> #[trigger] final(self).task(k) == old(self).task(k),
            ({
                let t = old(self).task(old(self).current_spec() as int);
                let n = final(self).task(old(self).current_spec() as int);
                let top = t.heap_bottom + USER_HEAP_SIZE;
                &&& n.heap_bottom == t.heap_bottom
                &&& n.status == t.status && n.parent == t.parent && n.mmap_end == t.mmap_end
                &&& n.satp_token == t.satp_token
                &&& if new_brk == 0 || new_brk < t.heap_bottom || new_brk > top {
                    r == (t.heap_end, false) && n.heap_end == t.heap_end && n.memory_set == t.memory_set
                } else if new_brk > t.heap_end {
                    &&& heap_grown(t.memory_set, n.memory_set, t.heap_end, new_brk, r.1)
                    &&& r.1 ==> r.0 == new_brk && n.heap_end == new_brk
                    &&& !r.1 ==> r.0 == t.heap_end && n.heap_end == t.heap_end
                } else {
                    r == (new_brk, false) && n.heap_end == new_brk && n.memory_set == t.memory_set
                }
            }),
    {
        let cur = self.current;
        let mut t = self.tasks.remove(cur);
        proof {
            assert(t == old(self).task(cur as int));
        }
        let old_brk = t.heap_end;
        let heap_top = t.heap_bottom + USER_HEAP_SIZE;
        let result = if new_brk == 0 || new_brk < t.heap_bottom || new_brk > heap_top {
            (old_brk, false)
        } else if new_brk > old_brk {
            let mapped = grow_space(&mut t.memory_set, old_brk, new_brk, frames);
            if mapped {
                t.heap_end = new_brk;
                (new_brk, true)
            } else {
                (old_brk, false)
            }
        } else {
            t.heap_end = new_brk;
            (new_brk, false)
        };
        self.tasks.insert(cur, t);
        proof {
            assert(self.tasks@ =~= old(self).tasks@.update(cur as int, self.tasks@[cur as int]));
        }
        result
    }

    /// Maps zeroed pages over `[start, end)` in the running task's address
    /// space; `false` when it has none or the frames run out.
    pub fn map_current_user_range(&mut self, start: usize, end: usize, frames: &mut StackFrameAllocator) -> (r: bool)
        requires
            old(self).wf(),
            space_ok(old(self).task(old(self).current_spec() as int).memory_set, *old(frames)),
            end <= usize::MAX - 4095,
        ensures
            final(self).wf(),
            final(self).current_spec() == old(self).current_spec(),
            space_ok(final(self).task(old(self).current_spec() as int).memory_set, *final(frames)),
            forall|k: int| 0 <= k < MAX_TASKS && k != old(self).current_spec() ==> #[trigger] final(self).task(k) == old(self).task(k),
            start < end ==> heap_grown(
                old(self).task(old(self).current_spec() as int).memory_set,
                final(self).task(old(self).current_spec() as int).memory_set,
                start,
                end,
                r,
            ),
            start >= end ==> r == old(self).task(old(self).current_spec() as int).memory_set is Some,
            final(self).task(old(self).current_spec() as int) == (TaskControlBlock {
                memory_set: final(self).task(old(self).current_spec() as int).memory_set,
                ..old(self).task(old(self).current_spec() as int)
            }),
    {
        let cur = self.current;
        let mut t = self.tasks.remove(cur);
        proof {
            assert(t == old(self).task(cur as int));
        }
        let mapped = if start < end {
            grow_space(&mut t.memory_set, start, end, frames)
        } else {
            match &t.memory_set {
                Some(_) => true,
                None => false,
            }
        };
        self.tasks.insert(cur, t);
        proof {
            assert(self.tasks@ =~= old(self).tasks@.update(cur as int, self.tasks@[cur as int]));
        }
        mapped
    }
}

/// Whether `value` lies in the stack `[bottom, top)`.
pub open spec fn in_stack(value: usize, bottom: usize, top: usize) -> bool {
    bottom <= value < top
}

/// The registers of a trap frame (x1 to x31) that point into the parent's
/// stack moved by the same offset into the child's stack; the others, and
/// x0, as they were.
pub fn relocate_stack_registers(x: &mut [usize; 32], parent_bottom: usize, parent_top: usize, child_bottom: usize)
    requires
        parent_bottom <= parent_top,
        child_bottom + (parent_top - parent_bottom) <= usize::MAX,
    ensures
        final(x)[0] == old(x)[0],
        forall|i: int| 1 <= i < 32 ==> #[trigger] final(x)[i] == (if in_stack(old(x)[i], parent_bottom, parent_top) {
            (child_bottom + (old(x)[i] - parent_bottom)) as usize
        } else {
            old(x)[i]
        }),
{
    let mut index: usize = 1;
    while index < 32
        invariant
            1 <= index <= 32,
            parent_bottom <= parent_top,
            child_bottom + (parent_top - parent_bottom) <= usize::MAX,
            x[0] == old(x)[0],
            forall|i: int| 1 <= i < index ==> #[trigger] x[i] == (if in_stack(old(x)[i], parent_bottom, parent_top) {
                (child_bottom + (old(x)[i] - parent_bottom)) as usize
            } else {
                old(x)[i]
            }),
            forall|i: int| index <= i < 32 ==> #[trigger] x[i] == old(x)[i],
        decreases 32 - index,
    {
        let value = x[index];
        if value >= parent_bottom && value < parent_top {
            x[index] = child_bottom + (value - parent_bottom);
        }
        index = index + 1;
    }
}

/// The saved registers of a trap (RISC-V): the general registers, the status
/// register and the resume address.
#[derive(Clone, Copy, Debug)]
pub struct TrapContext {
    pub x: [usize; 32],
    pub sstatus: usize,
    pub sepc: usize,
}

/// The previous-privilege bit of `sstatus` (set: the trap came from supervisor mode).
pub const SSTATUS_SPP: usize = 0x100;
/// The previous-interrupt-enable bit of `sstatus`.
pub const SSTATUS_SPIE: usize = 0x20;

impl TrapContext {
    /// The context in which a program starts at `entry` with stack `sp`: the
    /// status `sstatus` with the return going to user mode with interrupts
    /// enabled, every other register zero.
    pub fn app_init_context(entry: usize, sp: usize, sstatus: usize) -> (r: Self)
        ensures
            r.sepc == entry,
            r.sstatus == ((sstatus & !SSTATUS_SPP) | SSTATUS_SPIE),
            r.x[2] == sp,
            forall|i: int| 0 <= i < 32 && i != 2 ==> #[trigger] r.x[i] == 0,
    {
        let status = (sstatus & !SSTATUS_SPP) | SSTATUS_SPIE;
        let mut x = [0usize; 32];
        x[2] = sp;
        TrapContext { x, sstatus: status, sepc: entry }
    }
}

} // verus!
