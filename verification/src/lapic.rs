//! The local APIC: where its registers are and what bringing it up writes to them.

use vstd::prelude::*;

verus! {

pub const LAPIC_ID: u32 = 0x0020;
pub const LAPIC_VER: u32 = 0x0030;
pub const LAPIC_TPR: u32 = 0x0080;
pub const LAPIC_EOI: u32 = 0x00b0;
pub const LAPIC_SVR: u32 = 0x00f0;
pub const LAPIC_ESR: u32 = 0x0280;
pub const LAPIC_TIMER: u32 = 0x0320;
pub const LAPIC_PCINT: u32 = 0x0340;
pub const LAPIC_LINT0: u32 = 0x0350;
pub const LAPIC_LINT1: u32 = 0x0360;
pub const LAPIC_ERROR: u32 = 0x0370;
pub const LAPIC_TICR: u32 = 0x0380;
pub const LAPIC_TDCR: u32 = 0x03e0;

pub const LAPIC_SVR_ENABLE: u32 = 0x0100;
pub const LAPIC_TDCR_X1: u32 = 0x0000000b;
pub const LAPIC_TIMER_PERIODIC: u32 = 0x00020000;
pub const LAPIC_MASKED: u32 = 0x00010000;
pub const IRQ_SPURIOUS: u32 = 31;
/// Initial count of the timer.
pub const TIMER_INITIAL_COUNT: u32 = 10000000;
/// Mask of the base address bits of the APIC base MSR that are kept.
pub const LAPIC_BASE_MASK: u32 = 0xffff0000;

/// The interrupt vectors the APIC is programmed with.
#[derive(Clone, Copy, Debug, PartialEq, Eq, Structural)]
pub struct LapicVectors {
    /// First vector of the external interrupts.
    pub irq_offset: u32,
    /// Vector of the timer interrupt.
    pub timer: u32,
    /// Vector of the APIC error interrupt.
    pub apic_error: u32,
}

/// One write of `value` to the APIC register at byte offset `offset`.
#[derive(Clone, Copy, Debug, PartialEq, Eq, Structural)]
pub struct LapicWrite {
    pub offset: u32,
    pub value: u32,
}

/// The base address of the APIC registers, taken from the value of the APIC base MSR.
pub fn probe_apic(msr27: u64) -> (r: u32)
    ensures
        r == (msr27 as u32) & LAPIC_BASE_MASK,
        r & 0xffff == 0,
{
    let low: u32 = msr27 as u32;
    let r = low & LAPIC_BASE_MASK;
    assert(low & 0xffff0000u32 & 0xffffu32 == 0) by (bit_vector);
    r
}

/// The address of the register at `offset` of the APIC at `base`.
pub fn lapic_register(base: u32, offset: u32) -> (r: u32)
    requires
        base + offset <= u32::MAX,
    ensures
        r == base + offset,
{
    base + offset
}

/// Whether the performance counter overflow interrupt is there to mask: the maximum
/// LVT entry field (bits 16 to 23 of the version register) is at least 4.
pub open spec fn has_pcint(version: u32) -> bool {
    (version >> 16u32) & 0xffu32 >= 4
}

/// The writes that bring up the APIC before its version register is read: enable it
/// with the spurious vector, start the timer periodic, and mask the logical interrupt
/// lines.
pub open spec fn enable_writes(v: LapicVectors) -> Seq<LapicWrite> {
    seq![
        LapicWrite { offset: LAPIC_SVR, value: LAPIC_SVR_ENABLE | ((v.irq_offset + IRQ_SPURIOUS) as u32) },
        LapicWrite { offset: LAPIC_TDCR, value: LAPIC_TDCR_X1 },
        LapicWrite { offset: LAPIC_TIMER, value: LAPIC_TIMER_PERIODIC | v.timer },
        LapicWrite { offset: LAPIC_TICR, value: TIMER_INITIAL_COUNT },
        LapicWrite { offset: LAPIC_LINT0, value: LAPIC_MASKED },
        LapicWrite { offset: LAPIC_LINT1, value: LAPIC_MASKED },
    ]
}

/// The writes that finish bringing up the APIC, given its version register: mask the
/// performance counter interrupt where there is one, route errors, clear the error
/// status, acknowledge what is outstanding and accept every priority.
pub open spec fn finish_writes(version: u32, v: LapicVectors) -> Seq<LapicWrite> {
    let pc = if has_pcint(version) {
        seq![LapicWrite { offset: LAPIC_PCINT, value: LAPIC_MASKED }]
    } else {
        Seq::empty()
    };
    pc + seq![
        LapicWrite { offset: LAPIC_ERROR, value: v.apic_error },
        LapicWrite { offset: LAPIC_ESR, value: 0 },
        LapicWrite { offset: LAPIC_ESR, value: 0 },
        LapicWrite { offset: LAPIC_EOI, value: 0 },
        LapicWrite { offset: LAPIC_TPR, value: 0 },
    ]
}

/// The writes that bring up the APIC, in order, given its version register.
pub open spec fn init_writes(version: u32, v: LapicVectors) -> Seq<LapicWrite> {
    enable_writes(v) + finish_writes(version, v)
}

/// The write `w` sets the bits `bits` of its register.
pub open spec fn sets_bits(w: LapicWrite, offset: u32, bits: u32) -> bool {
    w.offset == offset && w.value & bits == bits
}

/// Bringing up the APIC masks both logical interrupt lines, and the performance counter
/// interrupt where the version register shows one: each of them is written, and every
/// write to them sets the mask bit. It also sets the enable bit of the spurious vector
/// register, starts the timer periodic on the timer vector, routes errors to the error
/// vector, and ends by accepting every priority.
pub proof fn law_init_masks_lines(version: u32, v: LapicVectors)
    requires
        v.irq_offset + IRQ_SPURIOUS <= u32::MAX,
    ensures
        ({
            let w = init_writes(version, v);
            &&& exists|i: int| 0 <= i < w.len() && #[trigger] sets_bits(w[i], LAPIC_LINT0, LAPIC_MASKED)
            &&& exists|i: int| 0 <= i < w.len() && #[trigger] sets_bits(w[i], LAPIC_LINT1, LAPIC_MASKED)
            &&& forall|i: int|
                0 <= i < w.len() && (#[trigger] w[i]).offset == LAPIC_LINT0 ==> w[i].value & LAPIC_MASKED
                    == LAPIC_MASKED
            &&& forall|i: int|
                0 <= i < w.len() && (#[trigger] w[i]).offset == LAPIC_LINT1 ==> w[i].value & LAPIC_MASKED
                    == LAPIC_MASKED
            &&& has_pcint(version) ==> exists|i: int|
                0 <= i < w.len() && #[trigger] sets_bits(w[i], LAPIC_PCINT, LAPIC_MASKED)
            &&& exists|i: int| 0 <= i < w.len() && #[trigger] sets_bits(w[i], LAPIC_SVR, LAPIC_SVR_ENABLE)
            &&& exists|i: int|
                0 <= i < w.len() && #[trigger] sets_bits(w[i], LAPIC_TIMER, LAPIC_TIMER_PERIODIC)
                    && w[i].value & 0xff == v.timer & 0xff
            &&& exists|i: int|
                0 <= i < w.len() && #[trigger] w[i] == (LapicWrite { offset: LAPIC_ERROR, value: v.apic_error })
            &&& w.len() > 0 && w.last() == (LapicWrite { offset: LAPIC_TPR, value: 0 })
        }),
{
    let w = init_writes(version, v);
    let e = enable_writes(v);
    let f = finish_writes(version, v);
    assert(w == e + f);
    let spur: u32 = (v.irq_offset + IRQ_SPURIOUS) as u32;
    let t: u32 = v.timer;
    assert(0x0001_0000u32 & 0x0001_0000u32 == 0x0001_0000u32) by (bit_vector);
    assert((0x0100u32 | spur) & 0x0100u32 == 0x0100u32) by (bit_vector);
    assert((0x0002_0000u32 | t) & 0x0002_0000u32 == 0x0002_0000u32) by (bit_vector);
    assert((0x0002_0000u32 | t) & 0xffu32 == t & 0xffu32) by (bit_vector);
    assert(w[0] == e[0]);
    assert(w[2] == e[2]);
    assert(w[4] == e[4]);
    assert(w[5] == e[5]);
    assert(sets_bits(w[4], LAPIC_LINT0, LAPIC_MASKED));
    assert(sets_bits(w[5], LAPIC_LINT1, LAPIC_MASKED));
    assert(sets_bits(w[0], LAPIC_SVR, LAPIC_SVR_ENABLE));
    assert(sets_bits(w[2], LAPIC_TIMER, LAPIC_TIMER_PERIODIC));
    let k = f.len() - 5;
    assert(w[6 + k] == f[k]);
    assert(w.last() == f.last());
    if has_pcint(version) {
        assert(w[6] == f[0]);
        assert(sets_bits(w[6], LAPIC_PCINT, LAPIC_MASKED));
    }
    assert forall|i: int|
        0 <= i < w.len() && (#[trigger] w[i]).offset == LAPIC_LINT0 implies w[i].value & LAPIC_MASKED
            == LAPIC_MASKED by {
        if i < 6 {
            assert(w[i] == e[i]);
        } else {
            assert(w[i] == f[i - 6]);
        }
    }
    assert forall|i: int|
        0 <= i < w.len() && (#[trigger] w[i]).offset == LAPIC_LINT1 implies w[i].value & LAPIC_MASKED
            == LAPIC_MASKED by {
        if i < 6 {
            assert(w[i] == e[i]);
        } else {
            assert(w[i] == f[i - 6]);
        }
    }
}

/// The writes made before the version register is read.
pub fn init_lapic_enable(vectors: LapicVectors) -> (r: Vec<LapicWrite>)
    requires
        vectors.irq_offset + IRQ_SPURIOUS <= u32::MAX,
    ensures
        r@ == enable_writes(vectors),
{
    let mut w: Vec<LapicWrite> = Vec::new();
    w.push(LapicWrite { offset: LAPIC_SVR, value: LAPIC_SVR_ENABLE | (vectors.irq_offset + IRQ_SPURIOUS) });
    w.push(LapicWrite { offset: LAPIC_TDCR, value: LAPIC_TDCR_X1 });
    w.push(LapicWrite { offset: LAPIC_TIMER, value: LAPIC_TIMER_PERIODIC | vectors.timer });
    w.push(LapicWrite { offset: LAPIC_TICR, value: TIMER_INITIAL_COUNT });
    w.push(LapicWrite { offset: LAPIC_LINT0, value: LAPIC_MASKED });
    w.push(LapicWrite { offset: LAPIC_LINT1, value: LAPIC_MASKED });
    assert(w@ =~= enable_writes(vectors));
    w
}

/// The writes made after the version register was read, given its value.
pub fn init_lapic_finish(version: u32, vectors: LapicVectors) -> (r: Vec<LapicWrite>)
    ensures
        r@ == finish_writes(version, vectors),
{
    let mut w: Vec<LapicWrite> = Vec::new();
    if ((version >> 16u32) & 0xff) >= 4 {
        w.push(LapicWrite { offset: LAPIC_PCINT, value: LAPIC_MASKED });
    }
    w.push(LapicWrite { offset: LAPIC_ERROR, value: vectors.apic_error });
    w.push(LapicWrite { offset: LAPIC_ESR, value: 0 });
    w.push(LapicWrite { offset: LAPIC_ESR, value: 0 });
    w.push(LapicWrite { offset: LAPIC_EOI, value: 0 });
    w.push(LapicWrite { offset: LAPIC_TPR, value: 0 });
    assert(w@ =~= finish_writes(version, vectors));
    w
}

/// The writes that bring up the APIC: enable it with the spurious vector, start the
/// timer periodic, mask the logical interrupt lines and, where the version register
/// shows one, the performance counter interrupt, route errors, clear the error status,
/// acknowledge what is outstanding and accept every priority.
pub fn init_lapic(version: u32, vectors: LapicVectors) -> (r: Vec<LapicWrite>)
    requires
        vectors.irq_offset + IRQ_SPURIOUS <= u32::MAX,
    ensures
        r@ == init_writes(version, vectors),
{
    let mut w = init_lapic_enable(vectors);
    let mut rest = init_lapic_finish(version, vectors);
    w.append(&mut rest);
    w
}

/// The write that acknowledges the interrupt being served.
pub fn end_of_interrupt() -> (r: LapicWrite)
    ensures
        r == (LapicWrite { offset: LAPIC_EOI, value: 0 }),
{
    LapicWrite { offset: LAPIC_EOI, value: 0 }
}

/// What bringing up the APIC does: its base address and the writes to its registers.
#[derive(Debug)]
pub struct LapicInit {
    pub base: u32,
    pub writes: Vec<LapicWrite>,
}

/// Brings up the APIC whose base MSR holds `msr27` and whose version register holds
/// `version`: its base and the writes, in order.
pub fn init(msr27: u64, version: u32, vectors: LapicVectors) -> (r: LapicInit)
    requires
        vectors.irq_offset + IRQ_SPURIOUS <= u32::MAX,
    ensures
        r.base == (msr27 as u32) & LAPIC_BASE_MASK,
        r.writes@ == init_writes(version, vectors),
{
    let base = probe_apic(msr27);
    let writes = init_lapic(version, vectors);
    LapicInit { base, writes }
}

} // verus!
