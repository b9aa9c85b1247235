use std::cell::Cell;
use std::rc::Rc;

use redleaf::sched::{RpcError, RpcResult};
use redleaf::shared_cache::{BDev, BufferCache};

struct Disk {
    reads: Rc<Cell<u32>>,
    fail: bool,
}

impl BDev for Disk {
    fn read(&mut self, sector: u32) -> RpcResult<Vec<u8>> {
        self.reads.set(self.reads.get() + 1);
        if self.fail {
            Err(RpcError::Unwind)
        } else {
            Ok(vec![(sector & 0xff) as u8; 4])
        }
    }
}

#[test]
fn miss_then_hit() {
    let reads = Rc::new(Cell::new(0));
    let mut c = BufferCache::new(Disk { reads: reads.clone(), fail: false });
    let mut slot = Vec::new();
    assert_eq!(c.read(1, 3, &mut slot), Ok(()));
    assert_eq!(slot, vec![24u8; 4]);
    let mut slot2 = vec![9u8];
    assert_eq!(c.read(1, 3, &mut slot2), Ok(()));
    assert_eq!(slot2, vec![24u8; 4]);
    assert_eq!(reads.get(), 1);
    let mut slot3 = Vec::new();
    assert_eq!(c.read(2, 3, &mut slot3), Ok(()));
    assert_eq!(slot3, vec![24u8; 4]);
    assert_eq!(reads.get(), 2);
}

#[test]
fn miss_asks_first_sector_of_block() {
    let reads = Rc::new(Cell::new(0));
    let mut c = BufferCache::new(Disk { reads: reads.clone(), fail: false });
    let mut slot = Vec::new();
    assert_eq!(c.read(0, 5, &mut slot), Ok(()));
    assert_eq!(slot, vec![40u8; 4]);
    assert_eq!(reads.get(), 1);
}

#[test]
fn device_error_leaves_slot() {
    let mut c = BufferCache::new(Disk { reads: Rc::new(Cell::new(0)), fail: true });
    let mut slot = vec![1u8, 2];
    assert_eq!(c.read(0, 1, &mut slot), Err(RpcError::Unwind));
    assert_eq!(slot, vec![1u8, 2]);
}

#[test]
fn write_is_accepted() {
    let mut c = BufferCache::new(Disk { reads: Rc::new(Cell::new(0)), fail: false });
    assert_eq!(c.write(0, 1, vec![0u8; 4]), Ok(()));
}
