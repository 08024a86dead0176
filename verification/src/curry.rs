//! Adapters that turn a function of one tuple into a callable value that
//! takes the tuple's fields as its arguments.

use std::marker::PhantomData;
use vstd::prelude::*;

verus! {

/// A function `f` of one tuple `Args`, to be called with the tuple as its
/// argument list as many times as needed.
#[verifier::reject_recursive_types(R)]
#[verifier::reject_recursive_types(Args)]
pub struct FuncWithArgs<F: Fn(Args) -> R, R, Args: Sized> {
    pub f: F,
    pub marker: PhantomData<(Args, R)>,
}

impl<F: Fn(Args) -> R, R, Args: Sized> FuncWithArgs<F, R, Args> {
    /// Calls `f` with `args`; the result is whatever `f` gives for them.
    pub fn call(&self, args: Args) -> (r: R)
        requires
            call_requires(self.f, (args,)),
        ensures
            call_ensures(self.f, (args,), r),
    {
        (self.f)(args)
    }

    /// Calls `f` with `args`, as `call` does; `f` is left as it was.
    pub fn call_mut(&mut self, args: Args) -> (r: R)
        requires
            call_requires(old(self).f, (args,)),
        ensures
            call_ensures(old(self).f, (args,), r),
            final(self).f == old(self).f,
    {
        (self.f)(args)
    }

    /// Calls `f` with `args` and gives the adapter up.
    pub fn call_once(self, args: Args) -> (r: R)
        requires
            call_requires(self.f, (args,)),
        ensures
            call_ensures(self.f, (args,), r),
    {
        (self.f)(args)
    }
}

impl<F: Fn(Args) -> R + Clone, R, Args: Sized> Clone for FuncWithArgs<F, R, Args> {
    /// A copy whose function is a clone of `f`.
    fn clone(&self) -> (copy: Self)
        ensures
            cloned(self.f, copy.f),
    {
        FuncWithArgs { f: self.f.clone(), marker: PhantomData }
    }
}

/// A function `f` of one tuple `Args`, to be called once with the tuple as
/// its argument list.
#[verifier::reject_recursive_types(R)]
#[verifier::reject_recursive_types(Args)]
pub struct FuncOnceWithArgs<F: FnOnce(Args) -> R, R, Args: Sized> {
    pub f: F,
    pub marker: PhantomData<(Args, R)>,
}

impl<F: FnOnce(Args) -> R, R, Args: Sized> FuncOnceWithArgs<F, R, Args> {
    /// Calls `f` with `args` and gives the adapter up.
    pub fn call_once(self, args: Args) -> (r: R)
        requires
            call_requires(self.f, (args,)),
        ensures
            call_ensures(self.f, (args,), r),
    {
        (self.f)(args)
    }
}

} // verus!
