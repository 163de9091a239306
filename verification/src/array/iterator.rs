//! Iterator-shaped expressions over device data.
//!
//! A [`GpuIterator`] value denotes a scalar expression of the kernel
//! language; writing it produces the expression's source text, and mapping
//! a [`Functor`] over it wraps the text in one more function application.
//! The text each expression denotes is its specification, so the emitted
//! kernel source is pinned exactly.

use vstd::prelude::*;
use core::marker::PhantomData;
use crate::command_queue::CommandQueue;

verus! {

/// A compile-time description of one device-side scalar function: its name
/// in the kernel language and how many arguments it takes.
pub trait Functor<T> {
    /// The result type of the function.
    type Output;

    /// The name of the function in the kernel language.
    spec fn spec_name() -> Seq<char>;

    /// The name of the function in the kernel language.
    fn name() -> (r: &'static str)
        ensures
            r@ == Self::spec_name(),
    ;

    /// How many arguments the function takes.
    fn arity() -> usize;
}

/// An expression over device data, written out as kernel source text.
pub trait GpuIterator: Sized {
    /// The element type of the expression.
    type Item;

    /// The source text the expression denotes.
    spec fn text(&self) -> Seq<char>;

    /// Append the expression's source text to `w`.
    fn write(&self, w: &mut String)
        ensures
            final(w)@ == old(w)@ + self.text(),
    ;

    /// Wrap the expression in one more function application.
    fn map<F: Functor<Self::Item>>(self, f: F) -> (r: Mapped<Self, F>)
        ensures
            r.iter == self,
    {
        Mapped { iter: self, f }
    }
}

/// Conversion of host data into a device expression bound to a command
/// queue.
pub trait IntoGpuIterator {
    /// The element type of the data.
    type Item;

    /// The expression the data becomes.
    type Iterator;

    /// Bind the data to a queue, yielding the device expression.
    fn into_iter(self, queue: CommandQueue) -> Self::Iterator;
}

/// Collection of a finished device expression back into host data.
pub trait FromIterator<A>: Sized {
    /// Collect the expression `iter`, scheduled on `queue`.
    fn from_iter<T: IntoGpuIterator<Item = A>>(iter: T, queue: CommandQueue) -> Self;
}

/// One function application wrapped around an inner expression.
pub struct Mapped<I, F> {
    /// The inner expression.
    pub iter: I,
    /// The function applied to it.
    pub f: F,
}

impl<I: GpuIterator, F: Functor<<I as GpuIterator>::Item>> GpuIterator for Mapped<I, F> {
    type Item = <F as Functor<<I as GpuIterator>::Item>>::Output;

    open spec fn text(&self) -> Seq<char> {
        F::spec_name() + "("@ + self.iter.text() + ")"@
    }

    fn write(&self, w: &mut String) {
        w.append(F::name());
        w.append("(");
        self.iter.write(w);
        w.append(")");
        proof {
            assert(w@ =~= old(w)@ + self.text());
        }
    }
}

/// The cosine function of the kernel language.
#[allow(non_camel_case_types)]
pub struct cos;

impl<T> Functor<T> for cos {
    type Output = T;

    open spec fn spec_name() -> Seq<char> {
        "cos"@
    }

    fn name() -> (r: &'static str) {
        "cos"
    }

    fn arity() -> usize {
        1
    }
}

/// The sine function of the kernel language.
#[allow(non_camel_case_types)]
pub struct sin;

impl<T> Functor<T> for sin {
    type Output = T;

    open spec fn spec_name() -> Seq<char> {
        "sin"@
    }

    fn name() -> (r: &'static str) {
        "sin"
    }

    fn arity() -> usize {
        1
    }
}

/// The input expression: one element of the kernel's input buffer.
pub struct IntoIter<T> {
    /// Carries the element type.
    pub _marker: PhantomData<T>,
}

impl<T> GpuIterator for IntoIter<T> {
    type Item = T;

    open spec fn text(&self) -> Seq<char> {
        "input[get_global_id(0)]"@
    }

    fn write(&self, w: &mut String) {
        w.append("input[get_global_id(0)]");
    }
}

} // verus!
