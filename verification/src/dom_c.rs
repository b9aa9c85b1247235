//! The interface of the test domain C.

use vstd::prelude::*;
use crate::sched::RpcResult;

verus! {

/// A value whose address a caller asks for.
#[derive(Clone, Copy, Debug, PartialEq, Eq, Structural)]
pub struct RawPtr {
    pub value: i32,
}

impl RawPtr {
    /// The value, by reference.
    pub fn get_raw_pointer(&self) -> (r: &i32)
        ensures
            *r == self.value,
    {
        &self.value
    }
}

/// Calls the test domain C answers.
pub trait DomC {
    /// Answers nothing.
    fn no_arg(&self) -> RpcResult<()>;

    /// Answers from a number.
    fn one_arg(&self, x: usize) -> RpcResult<usize>
        requires
            x < usize::MAX,
    ;

    /// Answers from a number handed over.
    fn one_rref(&self, x: usize) -> usize
        requires
            x < usize::MAX,
    ;

    /// Takes another instance of the domain.
    fn init_dom_c(&self, c: &Self) -> RpcResult<()>;

    /// Reads a value it is lent.
    fn rref_as_arguement(&self, ptr: &RawPtr);

    /// Lends out the pair it keeps.
    fn rref_as_return_value(&self) -> &(i32, i32);
}

} // verus!
