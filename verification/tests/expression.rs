//! The kernel-source expression builder.

use core::marker::PhantomData;
use gprust::array::iterator::{GpuIterator, IntoIter, cos, sin};

#[test]
fn test_test() {
    let a = IntoIter::<f32> { _marker: PhantomData };
    let mut s = String::new();
    a.map(cos).map(sin).map(cos).map(sin).write(&mut s);
    println!("{}", s);
}

#[test]
fn expression_text_is_exact() {
    let a = IntoIter::<f32> { _marker: PhantomData };
    let mut s = String::new();
    a.map(cos).map(sin).write(&mut s);
    assert_eq!(s, "sin(cos(input[get_global_id(0)]))");
}
