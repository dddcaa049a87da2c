use vstd::prelude::*;

verus! {

/// Classifies a result for diagnostic reporting: the caller supplies the
/// message for each outcome, and the embedding application decides how the
/// chosen message is surfaced. The error itself is collapsed to a unit.
#[allow(unused_variables)]
pub fn dlog<T, E>(res: Result<T, E>, ok_msg: &str, err_msg: &str) -> (r: Result<T, ()>)
    ensures
        match res {
            Ok(t) => r == Result::<T, ()>::Ok(t),
            Err(_) => r == Result::<T, ()>::Err(()),
        },
{
    match res {
        Ok(t) => Ok(t),
        Err(_) => Err(()),
    }
}

} // verus!
