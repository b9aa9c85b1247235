use redleaf::tls::{
    active_cpus, cpuid, init_per_cpu_area, init_per_cpu_vars, set_cpuid, ActiveCpus, PerCpuArea,
    ThisCpu,
};

#[test]
fn cpus_register_in_order() {
    let mut active = ActiveCpus::new();
    let mut cpu0 = ThisCpu::new();
    let mut cpu1 = ThisCpu::new();
    assert_eq!(active_cpus(&active), 0);
    set_cpuid(&mut cpu0, &mut active, 0);
    assert_eq!(cpuid(&cpu0), 0);
    assert_eq!(active_cpus(&active), 1);
    set_cpuid(&mut cpu1, &mut active, 1);
    assert_eq!(cpuid(&cpu1), 1);
    assert_eq!(cpuid(&cpu0), 0);
    assert_eq!(active_cpus(&active), 2);
}

#[test]
fn per_cpu_area_size() {
    let s = init_per_cpu_area(0x1000, 0x1400, 4);
    assert_eq!(s.size, 0x400);
    assert_eq!(s.total, 0x1000);
}

#[test]
fn per_cpu_vars_layout() {
    let area = PerCpuArea { base: 0x10000, size: 0x400 };
    let v = init_per_cpu_vars(area, 0x1000, 0x1100, 2);
    assert_eq!(v.start, 0x10800);
    assert_eq!(v.end, 0x10c00);
    assert_eq!(v.data_len, 0x100);
    assert_eq!(v.bss_start, 0x10900);
    assert_eq!(v.bss_len, 0x300);
    assert_eq!(v.tcb_offset, 0x10bf8);
}

#[test]
fn per_cpu_copies_do_not_overlap() {
    let area = PerCpuArea { base: 0x20000, size: 0x80 };
    let a = init_per_cpu_vars(area, 0, 0x10, 0);
    let b = init_per_cpu_vars(area, 0, 0x10, 1);
    assert!(a.end <= b.start);
    assert_eq!(a.start, 0x20000);
}

#[test]
fn count_after_n_registrations() {
    let mut active = ActiveCpus::new();
    let mut last = active_cpus(&active);
    for n in 0..6usize {
        let mut cpu = ThisCpu::new();
        set_cpuid(&mut cpu, &mut active, n);
        assert_eq!(cpuid(&cpu), n);
        let now = active_cpus(&active);
        assert_eq!(now, n + 1);
        assert!(now >= last);
        last = now;
    }
    assert_eq!(active_cpus(&active), 6);
}
