//! Host functions that emitted code can call.

use vstd::prelude::*;

verus! {

/// A host function of `NARGS` arguments that emitted code can call by its
/// address.
pub trait Callable<const NARGS: usize, A: Sized, O> {
    /// The address of the function's code.
    spec fn address(&self) -> usize;

    fn addr(&self) -> (a: usize)
        ensures
            a == self.address(),
    ;

    /// The number of arguments the function takes.
    fn nargs(&self) -> (n: usize)
        ensures
            n == NARGS,
    {
        NARGS
    }
}

/// The address of a host function that takes `NARGS` integer arguments.
#[derive(Debug, Clone, Copy)]
pub struct FunctionAddress<const NARGS: usize> {
    pub addr: usize,
}

impl<const NARGS: usize> FunctionAddress<NARGS> {
    pub fn new(addr: usize) -> (f: Self)
        ensures
            f.addr == addr,
    {
        FunctionAddress { addr }
    }
}

impl<const NARGS: usize> Callable<NARGS, (), ()> for FunctionAddress<NARGS> {
    open spec fn address(&self) -> usize {
        self.addr
    }

    fn addr(&self) -> (a: usize) {
        self.addr
    }
}

} // verus!
