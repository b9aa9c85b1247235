use redleaf::lapic::{
    end_of_interrupt, init, init_lapic, lapic_register, probe_apic, LapicVectors, LapicWrite,
    LAPIC_EOI, LAPIC_ERROR, LAPIC_PCINT, LAPIC_SVR, LAPIC_TIMER, LAPIC_TPR,
};

fn vectors() -> LapicVectors {
    LapicVectors { irq_offset: 32, timer: 32, apic_error: 51 }
}

#[test]
fn probe_keeps_base_bits() {
    assert_eq!(probe_apic(0x1_fee0_0900), 0xfee0_0000);
    assert_eq!(probe_apic(0xffff), 0);
}

#[test]
fn register_address() {
    assert_eq!(lapic_register(0xfee0_0000, LAPIC_EOI), 0xfee0_00b0);
}

#[test]
fn init_masks_pcint_on_newer_apic() {
    let w = init_lapic(0x0005_0014, vectors());
    assert_eq!(w.len(), 12);
    assert_eq!(w[0], LapicWrite { offset: LAPIC_SVR, value: 0x100 | 63 });
    assert_eq!(w[2], LapicWrite { offset: LAPIC_TIMER, value: 0x20000 | 32 });
    assert_eq!(w[6], LapicWrite { offset: LAPIC_PCINT, value: 0x10000 });
    assert_eq!(w[7], LapicWrite { offset: LAPIC_ERROR, value: 51 });
    assert_eq!(w[11], LapicWrite { offset: LAPIC_TPR, value: 0 });
}

#[test]
fn init_skips_pcint_on_older_apic() {
    let w = init_lapic(0x0003_0014, vectors());
    assert_eq!(w.len(), 11);
    assert!(w.iter().all(|x| x.offset != LAPIC_PCINT));
    assert_eq!(w[6], LapicWrite { offset: LAPIC_ERROR, value: 51 });
}

#[test]
fn init_gives_base_and_writes() {
    let r = init(0xfee0_0900, 0x0004_0000, vectors());
    assert_eq!(r.base, 0xfee0_0000);
    assert_eq!(r.writes.len(), 12);
}

#[test]
fn init_in_two_parts() {
    let head = redleaf::lapic::init_lapic_enable(vectors());
    let tail = redleaf::lapic::init_lapic_finish(0x0005_0014, vectors());
    assert_eq!(head.len(), 6);
    assert_eq!(tail.len(), 6);
    assert_eq!(tail[0], LapicWrite { offset: LAPIC_PCINT, value: 0x10000 });
    let mut all = head.clone();
    all.extend(tail);
    assert_eq!(all, init_lapic(0x0005_0014, vectors()));
    assert_eq!(redleaf::lapic::init_lapic_finish(0, vectors()).len(), 5);
}

#[test]
fn eoi_write() {
    assert_eq!(end_of_interrupt(), LapicWrite { offset: LAPIC_EOI, value: 0 });
}
