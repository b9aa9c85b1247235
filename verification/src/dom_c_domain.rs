//! The test domain C.

use vstd::prelude::*;
use crate::dom_c::RawPtr;
use crate::sched::{RpcError, RpcResult};

verus! {

/// The test domain C: it keeps a pair of numbers that callers borrow.
pub struct DomC {
    test_data: (i32, i32),
}

impl DomC {
    /// The pair the domain keeps.
    pub closed spec fn data(&self) -> (i32, i32) {
        self.test_data
    }

    /// A domain whose pair is zero.
    pub fn new() -> (r: DomC)
        ensures
            r.data() == (0i32, 0i32),
    {
        DomC { test_data: (0i32, 0i32) }
    }
}

impl crate::dom_c::DomC for DomC {
    /// Succeeds.
    fn no_arg(&self) -> (r: RpcResult<()>)
        ensures
            r == Ok::<(), RpcError>(()),
    {
        Ok(())
    }

    /// Answers `x + 1`.
    fn one_arg(&self, x: usize) -> (r: RpcResult<usize>)
        ensures
            r == Ok::<usize, RpcError>((x + 1) as usize),
    {
        Ok(x + 1)
    }

    /// Hands back `x + 1`.
    fn one_rref(&self, x: usize) -> (r: usize)
        ensures
            r == x + 1,
    {
        let mut x = x;
        x = x + 1;
        x
    }

    /// Succeeds.
    fn init_dom_c(&self, c: &DomC) -> (r: RpcResult<()>)
        ensures
            r == Ok::<(), RpcError>(()),
    {
        Ok(())
    }

    /// Reads the value it is lent and changes nothing.
    fn rref_as_arguement(&self, ptr: &RawPtr) {
        let _ = ptr.get_raw_pointer();
    }

    /// The pair the domain keeps.
    fn rref_as_return_value(&self) -> (r: &(i32, i32))
        ensures
            *r == self.data(),
    {
        &self.test_data
    }
}

} // verus!
