//! Task/process control blocks: per-task scheduling metadata, lifecycle, and
//! the address-space mutating operations (mmap / munmap / program break).

use vstd::prelude::*;

use crate::mem::{
    is_page_aligned, page_ceil, page_ceil_spec, page_floor, page_floor_spec, MemorySet,
    ProgramImage, PAGE_SIZE,
};
use crate::stride::{Stride, BIG_STRIDE};

verus! {

/// Number of distinct syscalls whose invocations are counted per task.
pub const MAX_SYSCALL_NUM: usize = 500;

/// Default priority of a fresh task.
pub const DEFAULT_PRIORITY: u64 = 16;

/// Smallest accepted priority. A priority below this would make the stride
/// increment `BIG_STRIDE / priority` degenerate, so such values are rejected.
pub const MIN_PRIORITY: u64 = 2;

/// A task's position in its life cycle.
#[derive(Debug, Clone, Copy, PartialEq, Eq, Structural)]
pub enum TaskStatus {
    /// Not yet initialized.
    UnInit,
    /// Ready to run.
    Ready,
    /// Currently running.
    Running,
    /// Parked on a primitive or a timer.
    Blocked,
    /// Exited; awaiting reaping by the parent.
    Zombie,
}

/// The register state restored when the task returns to user mode. Only the
/// values this core decides are modeled; the rest of the frame belongs to the
/// external trap path.
#[derive(Debug, Clone, Copy, PartialEq, Eq, Structural)]
pub struct TrapContext {
    /// User-mode program counter to resume at.
    pub entry: usize,
    /// User stack pointer.
    pub sp: usize,
    /// Top of the kernel stack the trap path runs on.
    pub kernel_sp: usize,
}

impl TrapContext {
    /// The initial user-mode frame for a freshly loaded program.
    pub fn app_init_context(entry: usize, sp: usize, kernel_sp: usize) -> (r: TrapContext)
        ensures
            r == (TrapContext { entry, sp, kernel_sp }),
    {
        TrapContext { entry, sp, kernel_sp }
    }
}

/// The kernel-side context a switch restores: the kernel stack pointer the
/// task resumes from.
#[derive(Debug, Clone, Copy, PartialEq, Eq, Structural)]
pub struct TaskContext {
    /// Saved kernel stack pointer.
    pub kstack_ptr: usize,
}

impl TaskContext {
    /// A context that resumes at the trap-return path on the given kernel
    /// stack.
    pub fn goto_trap_return(kstack_ptr: usize) -> (r: TaskContext)
        ensures
            r == (TaskContext { kstack_ptr }),
    {
        TaskContext { kstack_ptr }
    }
}

/// The mutable part of a task control block.
pub struct TaskControlBlockInner {
    /// Highest address the loaded program data reaches.
    pub base_size: usize,
    /// Saved kernel-side context.
    pub task_cx: TaskContext,
    /// Life-cycle status.
    pub task_status: TaskStatus,
    /// The task's address space.
    pub memory_set: MemorySet,
    /// User-mode frame restored on return to user mode.
    pub trap_cx: TrapContext,
    /// Pid of the parent, if any.
    pub parent: Option<usize>,
    /// Pids of the children.
    pub children: Vec<usize>,
    /// Exit code stored at exit.
    pub exit_code: i32,
    /// Lowest heap address.
    pub heap_bottom: usize,
    /// Current program break.
    pub program_brk: usize,
    /// Tick at which the task first ran.
    pub start_time: usize,
    /// Per-syscall invocation counts.
    pub syscall_times: Vec<u32>,
    /// Fairness counter.
    pub stride: Stride,
    /// Scheduling priority; at least `MIN_PRIORITY`.
    pub priority: u64,
}

impl TaskControlBlockInner {
    /// The block agrees with its address space about the heap, counts every
    /// syscall, and carries a non-degenerate priority.
    pub open spec fn wf(self) -> bool {
        &&& self.memory_set.wf()
        &&& self.heap_bottom == self.memory_set.heap_start
        &&& self.program_brk == self.memory_set.heap_end
        &&& self.priority >= MIN_PRIORITY
        &&& self.syscall_times@.len() == MAX_SYSCALL_NUM
    }

    /// The saved user-mode frame, for the external trap path to fill in.
    pub fn get_trap_cx(&mut self) -> (r: &mut TrapContext)
        ensures
            *r == old(self).trap_cx,
            *final(self) == (TaskControlBlockInner { trap_cx: *final(r), ..*old(self) }),
    {
        &mut self.trap_cx
    }

    /// Page-table token of the task's address space.
    pub fn get_user_token(&self) -> (r: usize)
        ensures
            r == self.memory_set.token,
    {
        self.memory_set.get_token()
    }

    /// Current life-cycle status.
    pub fn get_status(&self) -> (r: TaskStatus)
        ensures
            r == self.task_status,
    {
        self.task_status
    }

    /// Whether the task has exited and awaits reaping.
    pub fn is_zombie(&self) -> (r: bool)
        ensures
            r == (self.task_status == TaskStatus::Zombie),
    {
        self.get_status() == TaskStatus::Zombie
    }
}

/// A task control block: the immutable identity plus the mutable inner state.
pub struct TaskControlBlock {
    /// Process identifier, allocated externally.
    pub pid: usize,
    /// Top of the kernel stack allocated for this pid.
    pub kernel_stack: usize,
    /// The mutable state.
    pub inner: TaskControlBlockInner,
}

/// Everything of the inner block but the address space is equal.
pub open spec fn same_but_memory(a: TaskControlBlockInner, b: TaskControlBlockInner) -> bool {
    &&& a.base_size == b.base_size
    &&& a.task_cx == b.task_cx
    &&& a.task_status == b.task_status
    &&& a.trap_cx == b.trap_cx
    &&& a.parent == b.parent
    &&& a.children@ == b.children@
    &&& a.exit_code == b.exit_code
    &&& a.heap_bottom == b.heap_bottom
    &&& a.program_brk == b.program_brk
    &&& a.start_time == b.start_time
    &&& a.syscall_times@ == b.syscall_times@
    &&& a.stride == b.stride
    &&& a.priority == b.priority
}

/// The request is one `mmap` accepts: an aligned start, a permission word
/// that uses only (and at least one of) the low three bits, and a wholly
/// unmapped page range.
pub open spec fn mmap_valid(ms: MemorySet, start: usize, len: usize, port: usize) -> bool {
    &&& start as int % (PAGE_SIZE as int) == 0
    &&& 1 <= port <= 7
    &&& forall|vpn: int|
        page_floor_spec(start as int) <= vpn < page_ceil_spec(start + len) ==> !ms.mapped(vpn)
}

/// The request is one `munmap` accepts: an aligned start and a range whose
/// every page has a valid translation through a framed user region. A heap
/// page also has a valid translation, but the heap is one contiguous
/// interval owned by the program break: unmapping part of it would leave the
/// recorded break describing pages with no translation, a partially-applied
/// state the address-space invariant forbids. A range that touches the heap
/// is therefore a region conflict; the heap shrinks only through the break.
pub open spec fn munmap_valid(ms: MemorySet, start: usize, len: usize) -> bool {
    &&& start as int % (PAGE_SIZE as int) == 0
    &&& forall|vpn: int|
        page_floor_spec(start as int) <= vpn < page_ceil_spec(start + len) ==> ms.framed_at(vpn)
}

/// A zeroed syscall-count table.
pub fn zeroed_counters() -> (r: Vec<u32>)
    ensures
        r@.len() == MAX_SYSCALL_NUM,
        forall|i: int| 0 <= i < r@.len() ==> r@[i] == 0,
{
    let mut v: Vec<u32> = Vec::new();
    let mut i: usize = 0;
    while i < MAX_SYSCALL_NUM
        invariant
            0 <= i <= MAX_SYSCALL_NUM,
            v@.len() == i,
            forall|j: int| 0 <= j < v@.len() ==> v@[j] == 0,
        decreases MAX_SYSCALL_NUM - i,
    {
        v.push(0);
        i = i + 1;
    }
    v
}

impl TaskControlBlock {
    /// The whole block is well formed.
    pub open spec fn wf(self) -> bool {
        self.inner.wf()
    }

    /// Exclusive access to the mutable inner state. The single-owner
    /// exclusive-access cell of the original design is the `&mut` borrow
    /// itself here.
    pub fn inner_exclusive_access(&mut self) -> (r: &mut TaskControlBlockInner)
        ensures
            *r == old(self).inner,
            *final(self) == (TaskControlBlock { inner: *final(r), ..*old(self) }),
    {
        &mut self.inner
    }

    /// Page-table token of the task's address space.
    pub fn get_user_token(&self) -> (r: usize)
        ensures
            r == self.inner.memory_set.token,
    {
        self.inner.get_user_token()
    }

    /// The observable record: status, per-syscall invocation
    /// counts, and the tick it started running.
    pub fn task_info(&self) -> (r: (TaskStatus, Vec<u32>, usize))
        ensures
            r.0 == self.inner.task_status,
            r.1@ == self.inner.syscall_times@,
            r.2 == self.inner.start_time,
    {
        let mut counts: Vec<u32> = Vec::new();
        let mut i: usize = 0;
        while i < self.inner.syscall_times.len()
            invariant
                0 <= i <= self.inner.syscall_times@.len(),
                counts@ == self.inner.syscall_times@.take(i as int),
            decreases self.inner.syscall_times@.len() - i,
        {
            counts.push(self.inner.syscall_times[i]);
            assert(self.inner.syscall_times@.take(i + 1) == self.inner.syscall_times@.take(
                i as int,
            ).push(self.inner.syscall_times@[i as int]));
            i = i + 1;
        }
        assert(self.inner.syscall_times@.take(self.inner.syscall_times@.len() as int)
            == self.inner.syscall_times@);
        (self.inner.task_status, counts, self.inner.start_time)
    }

    /// Map the pages covering `[start, start + len)` as a new user region with
    /// permission word `port`. Returns 0 on success and -1 when the start is
    /// unaligned, the permission word is zero or uses bits above the low
    /// three, or any page in the range is already mapped; failure changes
    /// nothing.
    pub fn mmap(&mut self, start: usize, len: usize, port: usize) -> (r: isize)
        requires
            old(self).wf(),
            start + len <= usize::MAX,
        ensures
            final(self).wf(),
            r == 0 || r == -1,
            (r == 0) == mmap_valid(old(self).inner.memory_set, start, len, port),
            r == -1 ==> *final(self) == *old(self),
            final(self).pid == old(self).pid,
            final(self).kernel_stack == old(self).kernel_stack,
            same_but_memory(final(self).inner, old(self).inner),
            final(self).inner.memory_set.token == old(self).inner.memory_set.token,
            final(self).inner.memory_set.heap_start == old(self).inner.memory_set.heap_start,
            final(self).inner.memory_set.heap_end == old(self).inner.memory_set.heap_end,
            r == 0 ==> forall|vpn: int|
                final(self).inner.memory_set.mapped(vpn) == (old(self).inner.memory_set.mapped(vpn)
                    || page_floor_spec(start as int) <= vpn < page_ceil_spec(start + len)),
            r == 0 ==> forall|vpn: int|
                page_floor_spec(start as int) <= vpn < page_ceil_spec(start + len) ==> final(self).inner.memory_set.framed_with(vpn, port),
    {
        if !is_page_aligned(start) {
            return -1;
        }
        let high = port & !0x7;
        let low = port & 0x7;
        proof {
            assert((port & !0x7usize == 0) == (port <= 7)) by (bit_vector);
            assert(port & !0x7usize == 0 ==> (port & 0x7usize == port)) by (bit_vector);
        }
        if high != 0 {
            return -1;
        }
        if low == 0 {
            return -1;
        }
        let svpn = page_floor(start);
        let evpn = page_ceil(start + len);
        proof {
            crate::mem::lemma_page_bounds(start as int, start + len);
            assert(page_floor_spec(start as int) == page_ceil_spec(start as int))
                by (nonlinear_arith)
                requires
                    start as int % (PAGE_SIZE as int) == 0,
                    PAGE_SIZE == 4096,
            ;
        }
        let mut vpn: usize = svpn;
        while vpn < evpn
            invariant
                old(self).wf(),
                svpn <= vpn <= evpn,
                svpn == page_floor_spec(start as int),
                evpn == page_ceil_spec(start + len),
                forall|v: int| svpn <= v < vpn ==> !(#[trigger] self.inner.memory_set.mapped(v)),
                *self == *old(self),
            decreases evpn - vpn,
        {
            if self.inner.memory_set.translate(vpn).is_some() {
                proof {
                    assert(old(self).inner.memory_set.mapped(vpn as int));
                }
                return -1;
            }
            vpn = vpn + 1;
        }
        if svpn < evpn {
            self.inner.memory_set.insert_framed_area(svpn, evpn, port);
        }
        0
    }

    /// Unmap every page covering `[start, start + len)`. Returns 0 on success
    /// and -1 when the start is unaligned or any page in the range is not
    /// part of a framed user region — a never-mapped page and a heap page
    /// alike abort the whole call (see `munmap_valid`); failure changes
    /// nothing.
    pub fn munmap(&mut self, start: usize, len: usize) -> (r: isize)
        requires
            old(self).wf(),
            start + len <= usize::MAX,
        ensures
            final(self).wf(),
            r == 0 || r == -1,
            (r == 0) == munmap_valid(old(self).inner.memory_set, start, len),
            r == -1 ==> *final(self) == *old(self),
            final(self).pid == old(self).pid,
            final(self).kernel_stack == old(self).kernel_stack,
            same_but_memory(final(self).inner, old(self).inner),
            final(self).inner.memory_set.token == old(self).inner.memory_set.token,
            final(self).inner.memory_set.heap_start == old(self).inner.memory_set.heap_start,
            final(self).inner.memory_set.heap_end == old(self).inner.memory_set.heap_end,
            r == 0 ==> forall|vpn: int|
                final(self).inner.memory_set.mapped(vpn) == (old(self).inner.memory_set.mapped(vpn)
                    && !(page_floor_spec(start as int) <= vpn < page_ceil_spec(start + len))),
    {
        if !is_page_aligned(start) {
            return -1;
        }
        let svpn = page_floor(start);
        let evpn = page_ceil(start + len);
        proof {
            crate::mem::lemma_page_bounds(start as int, start + len);
            assert(page_floor_spec(start as int) == page_ceil_spec(start as int))
                by (nonlinear_arith)
                requires
                    start as int % (PAGE_SIZE as int) == 0,
                    PAGE_SIZE == 4096,
            ;
        }
        let mut vpn: usize = svpn;
        while vpn < evpn
            invariant
                old(self).wf(),
                svpn <= vpn <= evpn,
                svpn == page_floor_spec(start as int),
                evpn == page_ceil_spec(start + len),
                forall|v: int|
                    svpn <= v < vpn ==> (#[trigger] self.inner.memory_set.framed_at(v)),
                *self == *old(self),
            decreases evpn - vpn,
        {
            if !self.inner.memory_set.is_framed(vpn) {
                return -1;
            }
            vpn = vpn + 1;
        }
        self.inner.memory_set.remove_framed_range(svpn, evpn);
        proof {
            assert forall|vpn: int|
                self.inner.memory_set.mapped(vpn) == (old(self).inner.memory_set.mapped(vpn) && !(
                svpn <= vpn < evpn)) by {
                if svpn <= vpn < evpn {
                    assert(old(self).inner.memory_set.framed_at(vpn));
                    assert(!old(self).inner.memory_set.heap_at(vpn));
                    assert(!self.inner.memory_set.heap_at(vpn));
                }
            }
        }
        0
    }

    /// Count one more invocation of `syscall_id`.
    pub fn update_syscall_times(&mut self, syscall_id: usize)
        requires
            old(self).wf(),
            syscall_id < MAX_SYSCALL_NUM,
            old(self).inner.syscall_times@[syscall_id as int] < u32::MAX,
        ensures
            final(self).wf(),
            final(self).inner.syscall_times@ == old(self).inner.syscall_times@.update(
                syscall_id as int,
                (old(self).inner.syscall_times@[syscall_id as int] + 1) as u32,
            ),
            *final(self) == (TaskControlBlock {
                inner: TaskControlBlockInner {
                    syscall_times: final(self).inner.syscall_times,
                    ..old(self).inner
                },
                ..*old(self)
            }),
    {
        let n = self.inner.syscall_times[syscall_id];
        self.inner.syscall_times.set(syscall_id, n + 1);
    }

    /// Advance the stride by one run's pass: exactly `BIG_STRIDE / priority`,
    /// modulo the counter's wrap-around.
    pub fn add_pass(&mut self)
        requires
            old(self).wf(),
        ensures
            final(self).wf(),
            final(self).inner.stride.0 == ((old(self).inner.stride.0 + BIG_STRIDE / old(self).inner.priority) % 0x1_0000_0000_0000_0000),
            *final(self) == (TaskControlBlock {
                inner: TaskControlBlockInner { stride: final(self).inner.stride, ..old(self).inner },
                ..*old(self)
            }),
    {
        let pass = BIG_STRIDE / self.inner.priority;
        let next = self.inner.stride.0.wrapping_add(pass);
        self.inner.stride = Stride(next);
    }

    /// The task's current stride.
    pub fn stride(&self) -> (r: Stride)
        ensures
            r == self.inner.stride,
    {
        self.inner.stride
    }

    /// Set the scheduling priority. Returns 0 and installs the value when it
    /// is at least `MIN_PRIORITY`; returns -1 and changes nothing for the
    /// degenerate values below that.
    pub fn set_priority(&mut self, priority: u64) -> (r: isize)
        requires
            old(self).wf(),
        ensures
            final(self).wf(),
            r == 0 || r == -1,
            (r == 0) == (priority >= MIN_PRIORITY),
            r == -1 ==> *final(self) == *old(self),
            r == 0 ==> *final(self) == (TaskControlBlock {
                inner: TaskControlBlockInner { priority, ..old(self).inner },
                ..*old(self)
            }),
    {
        if priority < MIN_PRIORITY {
            return -1;
        }
        self.inner.priority = priority;
        0
    }

    /// The task's pid.
    pub fn getpid(&self) -> (r: usize)
        ensures
            r == self.pid,
    {
        self.pid
    }

    /// A fresh task for a loaded program image. The pid, the kernel stack top
    /// and the page-table token come from the external allocators.
    pub fn new(image: &ProgramImage, pid: usize, kernel_stack_top: usize, token: usize) -> (r:
        TaskControlBlock)
        requires
            image.wf(),
        ensures
            r.wf(),
            r.pid == pid,
            r.kernel_stack == kernel_stack_top,
            r.inner.task_status == TaskStatus::Ready,
            r.inner.stride == (Stride(0)),
            r.inner.priority == DEFAULT_PRIORITY,
            r.inner.base_size == image.user_sp,
            r.inner.heap_bottom == image.user_sp,
            r.inner.program_brk == image.user_sp,
            r.inner.parent == Option::<usize>::None,
            r.inner.children@.len() == 0,
            r.inner.exit_code == 0,
            r.inner.start_time == 0,
            forall|i: int| 0 <= i < r.inner.syscall_times@.len() ==> r.inner.syscall_times@[i] == 0,
            r.inner.memory_set.token == token,
            r.inner.memory_set.areas@ == image.segments@,
            r.inner.trap_cx == (TrapContext {
                entry: image.entry_point,
                sp: image.user_sp,
                kernel_sp: kernel_stack_top,
            }),
            r.inner.task_cx == (TaskContext { kstack_ptr: kernel_stack_top }),
    {
        let memory_set = MemorySet::from_image(image, token);
        TaskControlBlock {
            pid,
            kernel_stack: kernel_stack_top,
            inner: TaskControlBlockInner {
                base_size: image.user_sp,
                task_cx: TaskContext::goto_trap_return(kernel_stack_top),
                task_status: TaskStatus::Ready,
                memory_set,
                trap_cx: TrapContext::app_init_context(
                    image.entry_point,
                    image.user_sp,
                    kernel_stack_top,
                ),
                parent: None,
                children: Vec::new(),
                exit_code: 0,
                heap_bottom: image.user_sp,
                program_brk: image.user_sp,
                start_time: 0,
                syscall_times: zeroed_counters(),
                stride: Stride(0),
                priority: DEFAULT_PRIORITY,
            },
        }
    }

    /// Replace the owning address space in place with one built from a new
    /// program image; same task, same pid. The heap bottom and program break
    /// reset to the new image's initial stack pointer.
    pub fn exec(&mut self, image: &ProgramImage, token: usize)
        requires
            old(self).wf(),
            image.wf(),
        ensures
            final(self).wf(),
            final(self).pid == old(self).pid,
            final(self).kernel_stack == old(self).kernel_stack,
            final(self).inner.base_size == image.user_sp,
            final(self).inner.heap_bottom == image.user_sp,
            final(self).inner.program_brk == image.user_sp,
            final(self).inner.memory_set.token == token,
            final(self).inner.memory_set.areas@ == image.segments@,
            final(self).inner.trap_cx == (TrapContext {
                entry: image.entry_point,
                sp: image.user_sp,
                kernel_sp: old(self).kernel_stack,
            }),
            final(self).inner.task_status == old(self).inner.task_status,
            final(self).inner.stride == old(self).inner.stride,
            final(self).inner.priority == old(self).inner.priority,
            final(self).inner.parent == old(self).inner.parent,
            final(self).inner.children@ == old(self).inner.children@,
            final(self).inner.exit_code == old(self).inner.exit_code,
            final(self).inner.start_time == old(self).inner.start_time,
            final(self).inner.syscall_times@ == old(self).inner.syscall_times@,
            final(self).inner.task_cx == old(self).inner.task_cx,
    {
        let memory_set = MemorySet::from_image(image, token);
        self.inner.memory_set = memory_set;
        self.inner.base_size = image.user_sp;
        self.inner.heap_bottom = image.user_sp;
        self.inner.program_brk = image.user_sp;
        let kernel_sp = self.kernel_stack;
        self.inner.trap_cx = TrapContext::app_init_context(
            image.entry_point,
            image.user_sp,
            kernel_sp,
        );
    }

    /// Duplicate the caller into a child: a full copy of the address space,
    /// inherited heap bounds, default scheduling state, and a back-reference
    /// to the caller. The child's pid is recorded in the caller's children.
    pub fn fork(&mut self, pid: usize, kernel_stack_top: usize, token: usize) -> (r:
        TaskControlBlock)
        requires
            old(self).wf(),
        ensures
            final(self).wf(),
            r.wf(),
            r.pid == pid,
            r.kernel_stack == kernel_stack_top,
            r.inner.task_status == TaskStatus::Ready,
            r.inner.stride == (Stride(0)),
            r.inner.priority == DEFAULT_PRIORITY,
            r.inner.base_size == old(self).inner.base_size,
            r.inner.heap_bottom == old(self).inner.heap_bottom,
            r.inner.program_brk == old(self).inner.program_brk,
            r.inner.parent == Some(old(self).pid),
            r.inner.children@.len() == 0,
            r.inner.exit_code == 0,
            r.inner.start_time == 0,
            forall|i: int| 0 <= i < r.inner.syscall_times@.len() ==> r.inner.syscall_times@[i] == 0,
            r.inner.memory_set.token == token,
            forall|vpn: int|
                r.inner.memory_set.mapped(vpn) == old(self).inner.memory_set.mapped(vpn),
            r.inner.trap_cx == (TrapContext { kernel_sp: kernel_stack_top, ..old(self).inner.trap_cx }),
            final(self).pid == old(self).pid,
            final(self).kernel_stack == old(self).kernel_stack,
            final(self).inner.children@ == old(self).inner.children@.push(pid),
            *final(self) == (TaskControlBlock {
                inner: TaskControlBlockInner {
                    children: final(self).inner.children,
                    ..old(self).inner
                },
                ..*old(self)
            }),
    {
        let memory_set = MemorySet::from_existed_user(&self.inner.memory_set, token);
        let child = TaskControlBlock {
            pid,
            kernel_stack: kernel_stack_top,
            inner: TaskControlBlockInner {
                base_size: self.inner.base_size,
                task_cx: TaskContext::goto_trap_return(kernel_stack_top),
                task_status: TaskStatus::Ready,
                memory_set,
                trap_cx: TrapContext {
                    entry: self.inner.trap_cx.entry,
                    sp: self.inner.trap_cx.sp,
                    kernel_sp: kernel_stack_top,
                },
                parent: Some(self.pid),
                children: Vec::new(),
                exit_code: 0,
                heap_bottom: self.inner.heap_bottom,
                program_brk: self.inner.program_brk,
                start_time: 0,
                syscall_times: zeroed_counters(),
                stride: Stride(0),
                priority: DEFAULT_PRIORITY,
            },
        };
        self.inner.children.push(pid);
        child
    }

    /// Create a child directly from a new program image: like fork followed by
    /// exec, but without duplicating the caller's memory. The child's pid is
    /// recorded in the caller's children.
    pub fn spawn(&mut self, image: &ProgramImage, pid: usize, kernel_stack_top: usize, token: usize)
        -> (r: TaskControlBlock)
        requires
            old(self).wf(),
            image.wf(),
        ensures
            final(self).wf(),
            r.wf(),
            r.pid == pid,
            r.kernel_stack == kernel_stack_top,
            r.inner.task_status == TaskStatus::Ready,
            r.inner.stride == (Stride(0)),
            r.inner.priority == DEFAULT_PRIORITY,
            r.inner.base_size == image.user_sp,
            r.inner.heap_bottom == image.user_sp,
            r.inner.program_brk == image.user_sp,
            r.inner.parent == Some(old(self).pid),
            r.inner.children@.len() == 0,
            r.inner.exit_code == 0,
            r.inner.start_time == 0,
            forall|i: int| 0 <= i < r.inner.syscall_times@.len() ==> r.inner.syscall_times@[i] == 0,
            r.inner.memory_set.token == token,
            r.inner.memory_set.areas@ == image.segments@,
            r.inner.trap_cx == (TrapContext {
                entry: image.entry_point,
                sp: image.user_sp,
                kernel_sp: kernel_stack_top,
            }),
            final(self).pid == old(self).pid,
            final(self).kernel_stack == old(self).kernel_stack,
            final(self).inner.children@ == old(self).inner.children@.push(pid),
            *final(self) == (TaskControlBlock {
                inner: TaskControlBlockInner {
                    children: final(self).inner.children,
                    ..old(self).inner
                },
                ..*old(self)
            }),
    {
        let mut child = TaskControlBlock::new(image, pid, kernel_stack_top, token);
        child.inner.parent = Some(self.pid);
        self.inner.children.push(pid);
        child
    }

    /// Adjust the program break by `size` bytes. On success the previous
    /// break is returned. Returns `None`, changing nothing, when the new
    /// break would fall below the heap bottom or when growth collides with a
    /// framed region.
    pub fn change_program_brk(&mut self, size: i32) -> (r: Option<usize>)
        requires
            old(self).wf(),
            old(self).inner.program_brk + size <= usize::MAX,
        ensures
            final(self).wf(),
            r.is_none() ==> *final(self) == *old(self),
            ({
                let nb = old(self).inner.program_brk + size;
                &&& (nb < old(self).inner.heap_bottom ==> r.is_none())
                &&& (size <= 0 && nb >= old(self).inner.heap_bottom ==> r == Some(
                    old(self).inner.program_brk,
                ))
                &&& (size > 0 ==> (r.is_some() == (forall|vpn: int|
                    old(self).inner.memory_set.heap_hi() <= vpn < old(self).inner.memory_set.heap_hi_if(nb as usize) ==> !old(self).inner.memory_set.framed_at(vpn))))
                &&& (r == Some(old(self).inner.program_brk) || r.is_none())
                &&& (r.is_some() ==> final(self).inner.program_brk == nb
                    && final(self).inner.memory_set.heap_end == nb && final(self).inner.heap_bottom == old(self).inner.heap_bottom && final(self).inner.memory_set.heap_start == old(self).inner.memory_set.heap_start && final(self).inner.memory_set.areas@ == old(self).inner.memory_set.areas@ && final(self).inner.memory_set.token == old(self).inner.memory_set.token && final(self).pid
                    == old(self).pid && final(self).kernel_stack == old(self).kernel_stack
                    && same_but_heap(final(self).inner, old(self).inner))
            }),
    {
        let heap_bottom = self.inner.heap_bottom;
        let old_break = self.inner.program_brk;
        let grow = size >= 0;
        let new_brk: usize = if size >= 0 {
            old_break + (size as usize)
        } else {
            let dec = (-(size as i64)) as usize;
            if old_break < dec {
                return None;
            }
            old_break - dec
        };
        if new_brk < heap_bottom {
            return None;
        }
        let result = if !grow {
            self.inner.memory_set.shrink_to(new_brk)
        } else {
            self.inner.memory_set.append_to(new_brk)
        };
        if result {
            self.inner.program_brk = new_brk;
            Some(old_break)
        } else {
            None
        }
    }
}

/// Everything of the inner block but the address space, the program break and
/// the heap bottom is equal.
pub open spec fn same_but_heap(a: TaskControlBlockInner, b: TaskControlBlockInner) -> bool {
    &&& a.base_size == b.base_size
    &&& a.task_cx == b.task_cx
    &&& a.task_status == b.task_status
    &&& a.trap_cx == b.trap_cx
    &&& a.parent == b.parent
    &&& a.children@ == b.children@
    &&& a.exit_code == b.exit_code
    &&& a.start_time == b.start_time
    &&& a.syscall_times@ == b.syscall_times@
    &&& a.stride == b.stride
    &&& a.priority == b.priority
}

} // verus!
