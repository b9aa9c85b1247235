use redleaf::dom_c::{DomC as DomCApi, RawPtr};
use redleaf::dom_c_domain::DomC;
use redleaf::load_domain::{binary_len, domain_entry_point, gdb_notify_new_domain_loaded};
use redleaf::rref::{CustomCleanup, RRefable};

#[test]
fn one_arg_adds_one() {
    let c = DomC::new();
    assert!(c.one_arg(12321).unwrap() == 12321 + 1);
}

#[test]
fn other_calls() {
    let c = DomC::new();
    assert_eq!(c.no_arg(), Ok(()));
    assert_eq!(c.one_rref(41), 42);
    assert_eq!(*c.rref_as_return_value(), (0, 0));
    let other = DomC::new();
    assert_eq!(c.init_dom_c(&other), Ok(()));
    c.rref_as_arguement(&RawPtr { value: 3 });
}

#[test]
fn raw_pointer_reads_value() {
    let p = RawPtr { value: -7 };
    assert_eq!(*p.get_raw_pointer(), -7);
}

struct Counter {
    cleaned: u32,
}

impl RRefable for Counter {}

impl CustomCleanup for Counter {
    fn cleanup(&mut self) {
        self.cleaned += 1;
    }
}

#[test]
fn cleanup_reaches_contents() {
    let mut o = Some(Counter { cleaned: 0 });
    o.cleanup();
    assert_eq!(o.as_ref().unwrap().cleaned, 1);
    let mut n: Option<Counter> = None;
    n.cleanup();
    assert!(n.is_none());
    let mut a = [Counter { cleaned: 0 }, Counter { cleaned: 5 }];
    a.cleanup();
    assert_eq!(a[0].cleaned, 1);
    assert_eq!(a[1].cleaned, 6);
}

#[test]
fn load_arithmetic() {
    assert_eq!(binary_len(0x1000, 0x5000), 0x4000);
    assert_eq!(domain_entry_point(0x4000_0000, 0x1234), 0x4000_1234);
    gdb_notify_new_domain_loaded();
}

#[test]
fn entry_point_edges() {
    assert_eq!(binary_len(0x2000, 0x2000), 0);
    assert_eq!(domain_entry_point(0, 0x20), 0x20);
    assert_eq!(domain_entry_point(u64::MAX - 0x10, 0x10), u64::MAX);
}
