use vstd::prelude::*;

verus! {

/// Most threads the registry records.
pub const MAX_THREADS: usize = 256;

/// Number of worker slots.
pub const MAX_WORKERS: usize = 16;

/// Stack size of a worker thread.
pub const WORKER_STACK: usize = 131072;

/// Stack size of the listener thread.
pub const LISTENER_STACK: usize = 524288;

/// Kernel thread ids recorded at spawn time, in order, for the shutdown sweep.
pub struct ThreadRegistry {
    tids: Vec<i32>,
}

impl ThreadRegistry {
    pub closed spec fn view(&self) -> Seq<i32> {
        self.tids@
    }

    pub open spec fn wf(&self) -> bool {
        self@.len() <= MAX_THREADS
    }

    /// An empty registry.
    pub fn new() -> (r: Self)
        ensures
            r.wf(),
            r@.len() == 0,
    {
        ThreadRegistry { tids: Vec::new() }
    }
}

/// Records `tid`; fails, changing nothing, when 256 threads are already recorded.
pub fn register_thread(reg: &mut ThreadRegistry, tid: i32) -> (r: bool)
    requires
        old(reg).wf(),
    ensures
        final(reg).wf(),
        r == (old(reg)@.len() < MAX_THREADS),
        r ==> final(reg)@ == old(reg)@.push(tid),
        !r ==> final(reg)@ == old(reg)@,
{
    if reg.tids.len() >= MAX_THREADS {
        return false;
    }
    reg.tids.push(tid);
    true
}

/// The number of recorded threads and the registry's capacity.
pub fn get_thread_stats(reg: &ThreadRegistry) -> (r: (usize, usize))
    requires
        reg.wf(),
    ensures
        r == (reg@.len() as usize, MAX_THREADS),
{
    (reg.tids.len(), MAX_THREADS)
}

/// The recorded ids that name a thread (positive), in order.
pub open spec fn live_tids(s: Seq<i32>) -> Seq<i32>
    decreases s.len(),
{
    if s.len() == 0 {
        seq![]
    } else if s.last() > 0 {
        live_tids(s.drop_last()).push(s.last())
    } else {
        live_tids(s.drop_last())
    }
}

/// Empties the registry and returns the ids to send the terminating signal to.
pub fn cleanup_threads(reg: &mut ThreadRegistry) -> (r: Vec<i32>)
    requires
        old(reg).wf(),
    ensures
        final(reg).wf(),
        final(reg)@.len() == 0,
        r@ == live_tids(old(reg)@),
{
    let mut out: Vec<i32> = Vec::new();
    let mut i: usize = 0;
    while i < reg.tids.len()
        invariant
            reg@ == old(reg)@,
            i <= reg@.len(),
            out@ == live_tids(reg@.take(i as int)),
        decreases reg@.len() - i,
    {
        proof {
            assert(reg@.take(i + 1).drop_last() =~= reg@.take(i as int));
        }
        if reg.tids[i] > 0 {
            out.push(reg.tids[i]);
        }
        i += 1;
    }
    proof {
        assert(reg@.take(i as int) =~= reg@);
    }
    reg.tids = Vec::new();
    out
}

/// A thread stack: an anonymous mapping made once, on first use.
pub struct ThreadStack {
    base: usize,
    size: usize,
}

impl ThreadStack {
    /// Start address of the mapping; zero while none is made.
    pub closed spec fn base_spec(&self) -> nat {
        self.base as nat
    }

    pub closed spec fn size_spec(&self) -> nat {
        self.size as nat
    }

    pub closed spec fn wf(&self) -> bool {
        self.base + self.size <= usize::MAX
    }

    /// A worker stack of 128 KiB, not yet mapped.
    pub fn new() -> (r: Self)
        ensures
            r.wf(),
            r.base_spec() == 0,
            r.size_spec() == WORKER_STACK,
    {
        ThreadStack { base: 0, size: WORKER_STACK }
    }

    /// A listener stack of 512 KiB, not yet mapped.
    pub fn new_large() -> (r: Self)
        ensures
            r.wf(),
            r.base_spec() == 0,
            r.size_spec() == LISTENER_STACK,
    {
        ThreadStack { base: 0, size: LISTENER_STACK }
    }

    pub fn size(&self) -> (r: usize)
        ensures
            r == self.size_spec(),
    {
        self.size
    }

    pub fn is_allocated(&self) -> (r: bool)
        ensures
            r == (self.base_spec() != 0),
    {
        self.base != 0
    }

    /// Takes the result of mapping `size` bytes. Keeps an existing mapping (and succeeds);
    /// otherwise accepts a non-null address whose region does not wrap the address space.
    pub fn allocate(&mut self, mapping: Option<usize>) -> (r: bool)
        requires
            old(self).wf(),
        ensures
            final(self).wf(),
            final(self).size_spec() == old(self).size_spec(),
            old(self).base_spec() != 0 ==> r && final(self).base_spec() == old(self).base_spec(),
            old(self).base_spec() == 0 ==> match mapping {
                Some(a) => {
                    &&& r == (a != 0 && a + old(self).size_spec() <= usize::MAX)
                    &&& final(self).base_spec() == if r {
                        a as nat
                    } else {
                        0
                    }
                },
                None => !r && final(self).base_spec() == 0,
            },
    {
        if self.base != 0 {
            return true;
        }
        match mapping {
            Some(a) => {
                if a != 0 && a <= usize::MAX - self.size {
                    self.base = a;
                    true
                } else {
                    false
                }
            },
            None => false,
        }
    }

    /// The top of the stack rounded down to 16 bytes, or zero while unmapped.
    pub fn get_stack_top(&self) -> (r: usize)
        requires
            self.wf(),
        ensures
            self.base_spec() == 0 ==> r == 0,
            self.base_spec() != 0 ==> r == (self.base_spec() + self.size_spec()) - (
            self.base_spec() + self.size_spec()) % 16,
            self.base_spec() != 0 ==> r == ((self.base_spec() + self.size_spec()) as usize) & !15usize,
    {
        if self.base == 0 {
            return 0;
        }
        let top = self.base + self.size;
        let r = top - top % 16;
        assert(top - top % 16 == top & !15usize) by (bit_vector);
        r
    }
}

/// The worker slots: which are taken and the client socket each serves.
pub struct WorkerSlots {
    active: Vec<bool>,
    fds: Vec<i32>,
}

impl WorkerSlots {
    pub closed spec fn active_spec(&self) -> Seq<bool> {
        self.active@
    }

    pub closed spec fn fds_spec(&self) -> Seq<i32> {
        self.fds@
    }

    pub open spec fn wf(&self) -> bool {
        self.active_spec().len() == MAX_WORKERS && self.fds_spec().len() == MAX_WORKERS
    }

    /// All slots free.
    pub fn new() -> (r: Self)
        ensures
            r.wf(),
            forall|i: int| 0 <= i < MAX_WORKERS ==> !(#[trigger] r.active_spec()[i]),
    {
        let mut active: Vec<bool> = Vec::new();
        let mut fds: Vec<i32> = Vec::new();
        let mut i: usize = 0;
        while i < MAX_WORKERS
            invariant
                i <= MAX_WORKERS,
                active@.len() == i,
                fds@.len() == i,
                forall|k: int| 0 <= k < i ==> !(#[trigger] active@[k]),
            decreases MAX_WORKERS - i,
        {
            active.push(false);
            fds.push(0);
            i += 1;
        }
        WorkerSlots { active, fds }
    }

    /// Whether slot `idx` is taken.
    pub fn is_active(&self, idx: usize) -> (r: bool)
        requires
            self.wf(),
            idx < MAX_WORKERS,
        ensures
            r == self.active_spec()[idx as int],
    {
        self.active[idx]
    }

    /// The client socket of slot `idx`.
    pub fn client_fd(&self, idx: usize) -> (r: i32)
        requires
            self.wf(),
            idx < MAX_WORKERS,
        ensures
            r == self.fds_spec()[idx as int],
    {
        self.fds[idx]
    }
}

/// Index of the first free slot at or after `from`.
pub open spec fn first_free_slot(a: Seq<bool>, from: int) -> Option<int>
    decreases a.len() - from,
{
    if from < 0 || from >= a.len() {
        None
    } else if !a[from] {
        Some(from)
    } else {
        first_free_slot(a, from + 1)
    }
}

/// Number of taken slots among the first `n`.
pub open spec fn count_active(a: Seq<bool>, n: int) -> nat
    decreases n,
{
    if n <= 0 {
        0
    } else {
        count_active(a, n - 1) + if a[n - 1] {
            1nat
        } else {
            0nat
        }
    }
}

/// Takes the first free slot for a new worker serving `fd`, before its thread is spawned.
/// `None` when every slot is taken.
pub fn reserve_worker_slot(slots: &mut WorkerSlots, fd: i32) -> (r: Option<usize>)
    requires
        old(slots).wf(),
    ensures
        final(slots).wf(),
        r == match first_free_slot(old(slots).active_spec(), 0) {
            Some(i) => Some(i as usize),
            None => None::<usize>,
        },
        match r {
            Some(i) => {
                &&& final(slots).active_spec() == old(slots).active_spec().update(i as int, true)
                &&& final(slots).fds_spec() == old(slots).fds_spec().update(i as int, fd)
            },
            None => {
                &&& final(slots).active_spec() == old(slots).active_spec()
                &&& final(slots).fds_spec() == old(slots).fds_spec()
            },
        },
{
    let mut i: usize = 0;
    while i < MAX_WORKERS
        invariant
            slots.wf(),
            slots.active_spec() == old(slots).active_spec(),
            slots.fds_spec() == old(slots).fds_spec(),
            i <= MAX_WORKERS,
            first_free_slot(slots.active_spec(), 0) == first_free_slot(slots.active_spec(), i as int),
        decreases MAX_WORKERS - i,
    {
        if !slots.active[i] {
            slots.active.set(i, true);
            slots.fds.set(i, fd);
            return Some(i);
        }
        i += 1;
    }
    None
}

/// Frees slot `idx` once its worker is done (or its thread could not be started).
pub fn release_worker_slot(slots: &mut WorkerSlots, idx: usize)
    requires
        old(slots).wf(),
        idx < MAX_WORKERS,
    ensures
        final(slots).wf(),
        final(slots).active_spec() == old(slots).active_spec().update(idx as int, false),
        final(slots).fds_spec() == old(slots).fds_spec().update(idx as int, 0),
{
    slots.active.set(idx, false);
    slots.fds.set(idx, 0);
}

proof fn lemma_count_update(a: Seq<bool>, i: int, v: bool, n: int)
    requires
        0 <= i < a.len(),
        0 <= n <= a.len(),
    ensures
        count_active(a.update(i, v), n) + (if i < n && a[i] {
            1nat
        } else {
            0nat
        }) == count_active(a, n) + (if i < n && v {
            1nat
        } else {
            0nat
        }),
    decreases n,
{
    if n > 0 {
        lemma_count_update(a, i, v, n - 1);
    }
}

proof fn lemma_first_free_at_most(a: Seq<bool>, from: int, i: int)
    requires
        0 <= from <= i < a.len(),
        !a[i],
    ensures
        first_free_slot(a, from) matches Some(j) && from <= j <= i,
    decreases i - from,
{
    if a[from] {
        lemma_first_free_at_most(a, from + 1, i);
    }
}

/// Slots follow their workers: taking a slot for a new worker adds exactly one taken slot,
/// releasing a taken slot removes exactly one, and a released slot is free for the very
/// next scan (which takes it or an earlier free one).
pub proof fn lemma_worker_slot_lifecycle(a: Seq<bool>, i: int)
    requires
        a.len() == MAX_WORKERS,
        0 <= i < MAX_WORKERS,
    ensures
        !a[i] ==> count_active(a.update(i, true), MAX_WORKERS as int) == count_active(
            a,
            MAX_WORKERS as int,
        ) + 1,
        a[i] ==> count_active(a.update(i, false), MAX_WORKERS as int) + 1 == count_active(
            a,
            MAX_WORKERS as int,
        ),
        first_free_slot(a.update(i, false), 0) matches Some(j) && j <= i,
{
    lemma_count_update(a, i, true, MAX_WORKERS as int);
    lemma_count_update(a, i, false, MAX_WORKERS as int);
    lemma_first_free_at_most(a.update(i, false), 0, i);
}

} // verus!
