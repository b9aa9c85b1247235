//! Per-CPU identity and the layout of the per-CPU copies of the thread-local segment.

use vstd::prelude::*;

verus! {

/// Bytes of a machine word: the TCB self pointer at the end of each per-CPU copy.
pub const WORD_BYTES: usize = 8;

/// The id of one CPU, kept per CPU.
#[derive(Clone, Copy, Debug, PartialEq, Eq, Structural)]
pub struct ThisCpu {
    this_cpu_id: usize,
}

impl ThisCpu {
    /// The id this CPU registered under.
    pub closed spec fn id(&self) -> usize {
        self.this_cpu_id
    }

    /// A CPU that has not registered yet: id 0.
    pub fn new() -> (r: ThisCpu)
        ensures
            r.id() == 0,
    {
        ThisCpu { this_cpu_id: 0 }
    }
}

/// The number of CPUs that registered, shared by all CPUs.
pub struct ActiveCpus {
    active_cpu_count: usize,
}

impl ActiveCpus {
    /// The number of CPUs that registered.
    pub closed spec fn count(&self) -> usize {
        self.active_cpu_count
    }

    /// No CPU registered yet.
    pub fn new() -> (r: ActiveCpus)
        ensures
            r.count() == 0,
    {
        ActiveCpus { active_cpu_count: 0 }
    }
}

/// Registers the CPU whose own id is `this` under `id`, which must be the number of CPUs
/// registered before it, and counts it in the shared count.
pub fn set_cpuid(this: &mut ThisCpu, active: &mut ActiveCpus, id: usize)
    requires
        id == old(active).count(),
    ensures
        final(this).id() == id,
        final(active).count() == old(active).count().wrapping_add(1),
{
    this.this_cpu_id = id;
    active.active_cpu_count = active.active_cpu_count.wrapping_add(1);
}

/// The id of this CPU.
pub fn cpuid(this: &ThisCpu) -> (r: usize)
    ensures
        r == this.id(),
{
    this.this_cpu_id
}

/// The number of CPUs that registered.
pub fn active_cpus(active: &ActiveCpus) -> (r: usize)
    ensures
        r == active.count(),
{
    active.active_cpu_count
}

/// CPUs registered one after the other get the ids 0, 1, 2, ...: after `n` CPUs
/// registered, the next one must take id `n`, and the count is `n + 1` after it.
pub proof fn law_ids_in_order(count_before: usize, id: usize, count_after: usize)
    requires
        id == count_before,
        count_after == count_before.wrapping_add(1),
        count_before < usize::MAX,
    ensures
        count_after == id + 1,
{
}

/// Step `k` of the run of shared counts `states` is one registration: `set_cpuid` ran
/// once between them.
pub open spec fn registered_between(states: Seq<ActiveCpus>, k: int) -> bool {
    states[k + 1].count() == states[k].count().wrapping_add(1)
}

/// After `n` CPUs registered, one `set_cpuid` each and starting from a fresh count,
/// `active_cpus` reads `n`; the count never goes down from one call to a later one.
pub proof fn law_count_after_registrations(states: Seq<ActiveCpus>)
    requires
        states.len() > 0,
        states.len() - 1 <= usize::MAX,
        states[0].count() == 0,
        forall|k: int| 0 <= k < states.len() - 1 ==> #[trigger] registered_between(states, k),
    ensures
        forall|k: int| 0 <= k < states.len() ==> #[trigger] states[k].count() == k,
        forall|i: int, j: int|
            0 <= i <= j < states.len() ==> #[trigger] states[i].count() <= #[trigger] states[j].count(),
    decreases states.len(),
{
    if states.len() > 1 {
        let shorter = states.drop_last();
        assert forall|k: int| 0 <= k < shorter.len() - 1 implies #[trigger] registered_between(
            shorter,
            k,
        ) by {
            assert(registered_between(states, k));
        }
        law_count_after_registrations(shorter);
        let last = states.len() - 1;
        assert(registered_between(states, last - 1));
        assert(states[last - 1] == shorter[last - 1]);
        assert forall|k: int| 0 <= k < states.len() implies #[trigger] states[k].count() == k by {
            if k < last {
                assert(states[k] == shorter[k]);
            }
        }
    }
}

/// Where the per-CPU copies of the thread-local segment live: `size` bytes for each CPU,
/// one after the other from `base`.
#[derive(Clone, Copy, Debug, PartialEq, Eq, Structural)]
pub struct PerCpuArea {
    pub base: usize,
    pub size: usize,
}

/// The size of one per-CPU copy and the bytes to allocate for `max_cpus` of them.
#[derive(Clone, Copy, Debug, PartialEq, Eq, Structural)]
pub struct PerCpuAreaSize {
    pub size: usize,
    pub total: usize,
}

/// Sizes the per-CPU area from the bounds of the thread-local segment, which runs from
/// the start of its data part to the end of its zeroed part.
pub fn init_per_cpu_area(tdata_start: usize, tbss_end: usize, max_cpus: u32) -> (r: PerCpuAreaSize)
    requires
        tdata_start <= tbss_end,
        (tbss_end - tdata_start) * max_cpus <= usize::MAX,
    ensures
        r.size == tbss_end - tdata_start,
        r.total == r.size * max_cpus,
{
    let size = tbss_end - tdata_start;
    let total = size * (max_cpus as usize);
    PerCpuAreaSize { size, total }
}

/// What to do to set up one CPU's copy: copy `data_len` bytes of initial data to
/// `start`, zero the `bss_len` bytes from `bss_start`, and store `end` at `tcb_offset`,
/// the last word of the copy, which is what the thread pointer points to.
#[derive(Clone, Copy, Debug, PartialEq, Eq, Structural)]
pub struct PerCpuVars {
    pub start: usize,
    pub end: usize,
    pub data_len: usize,
    pub bss_start: usize,
    pub bss_len: usize,
    pub tcb_offset: usize,
}

/// The first byte of the copy of CPU `cpu_id`.
pub open spec fn copy_start(area: PerCpuArea, cpu_id: int) -> int {
    area.base + area.size * cpu_id
}

/// The layout of CPU `cpu_id`'s copy of the thread-local segment, whose data part runs
/// from `tdata_start` to `tbss_start`.
pub fn init_per_cpu_vars(area: PerCpuArea, tdata_start: usize, tbss_start: usize, cpu_id: u32) -> (r:
    PerCpuVars)
    requires
        tdata_start <= tbss_start,
        tbss_start - tdata_start <= area.size,
        area.size >= WORD_BYTES,
        area.base + area.size * (cpu_id + 1) <= usize::MAX,
    ensures
        r.start == copy_start(area, cpu_id as int),
        r.end == r.start + area.size,
        r.data_len == tbss_start - tdata_start,
        r.bss_start == r.start + r.data_len,
        r.bss_len == area.size - r.data_len,
        r.tcb_offset == r.end - WORD_BYTES,
{
    let data_len = tbss_start - tdata_start;
    proof {
        assert(area.size * cpu_id <= area.size * (cpu_id + 1)) by (nonlinear_arith);
        assert(area.size * (cpu_id + 1) == area.size * cpu_id + area.size) by (nonlinear_arith);
    }
    let start = area.base + area.size * (cpu_id as usize);
    let end = start + area.size;
    let tcb_offset = end - WORD_BYTES;
    PerCpuVars {
        start,
        end,
        data_len,
        bss_start: start + data_len,
        bss_len: area.size - data_len,
        tcb_offset,
    }
}

/// The copies of two different CPUs do not overlap, and the copy of a CPU below
/// `max_cpus` lies within the `size * max_cpus` bytes allocated from `base`.
pub proof fn law_per_cpu_copies_disjoint(area: PerCpuArea, i: nat, j: nat, max_cpus: nat)
    requires
        i != j,
        i < max_cpus,
        j < max_cpus,
    ensures
        copy_start(area, i as int) + area.size <= copy_start(area, j as int) || copy_start(
            area,
            j as int,
        ) + area.size <= copy_start(area, i as int),
        area.base <= copy_start(area, i as int),
        copy_start(area, i as int) + area.size <= area.base + area.size * max_cpus,
{
    let s = area.size as int;
    if i < j {
        assert(s * i + s <= s * j) by (nonlinear_arith)
            requires
                i < j,
                s >= 0,
        ;
    } else {
        assert(s * j + s <= s * i) by (nonlinear_arith)
            requires
                j < i,
                s >= 0,
        ;
    }
    assert(0 <= s * i) by (nonlinear_arith)
        requires
            s >= 0,
    ;
    assert(s * i + s <= s * max_cpus) by (nonlinear_arith)
        requires
            i < max_cpus,
            s >= 0,
    ;
}

} // verus!
