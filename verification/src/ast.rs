use vstd::prelude::*;

verus! {

/// An expression that evaluates to a value of type `T`. `value` is the
/// mathematical result, `valid` says when evaluation stays inside the
/// machine type, and `eval` computes exactly `value`.
pub trait Expr<T> {
    spec fn value(&self) -> T;

    spec fn valid(&self) -> bool;

    fn eval(&self) -> (r: T)
        requires
            self.valid(),
        ensures
            r == self.value(),
    ;
}

/// A literal integer expression.
pub struct Integer(pub i32);

impl Expr<i32> for Integer {
    open spec fn value(&self) -> i32 {
        self.0
    }

    open spec fn valid(&self) -> bool {
        true
    }

    fn eval(&self) -> (r: i32) {
        self.0
    }
}

/// The sum of two integer expressions; valid only where the sum fits an
/// `i32`.
pub struct Add(pub Box<dyn Expr<i32>>, pub Box<dyn Expr<i32>>);

impl Expr<i32> for Add {
    open spec fn value(&self) -> i32 {
        ((self.0.value() + self.1.value()) as i32)
    }

    open spec fn valid(&self) -> bool {
        &&& self.0.valid()
        &&& self.1.valid()
        &&& i32::MIN <= self.0.value() + self.1.value() <= i32::MAX
    }

    fn eval(&self) -> (r: i32) {
        self.0.eval() + self.1.eval()
    }
}

} // verus!
