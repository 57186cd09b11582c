use vstd::prelude::*;
use vstd::std_specs::cmp::PartialOrdIs;
use vstd::std_specs::cmp::PartialOrdSpec;

verus! {

/// What `unwrap_gt_or` yields: the held value when there is one and it is
/// strictly greater than `val`, the fallback otherwise.
pub open spec fn gt_or<T: PartialOrd>(held: Option<T>, val: T, default: T) -> T {
    match held {
        Some(v) => if v.is_gt(&val) {
            v
        } else {
            default
        },
        None => default,
    }
}

/// An optional number that falls back to a default unless it exceeds a bound.
pub trait NumOption<T: PartialOrd> {
    fn unwrap_gt_or(self, val: T, default: T) -> T;
}

impl<T: PartialOrd> NumOption<T> for Option<T> {
    fn unwrap_gt_or(self, val: T, default: T) -> (out: T)
        ensures
            self is None ==> out == default,
            self is Some ==> out == self->Some_0 || out == default,
            T::obeys_partial_cmp_spec() ==> out == gt_or(self, val, default),
    {
        match self {
            Some(v) => {
                if v > val {
                    v
                } else {
                    default
                }
            },
            None => default,
        }
    }
}

} // verus!
