use vstd::prelude::*;

verus! {

/// The value inside a `Result` that is known to be `Ok`.
pub fn unwrap_result<T, E>(result: Result<T, E>) -> (r: T)
    requires
        result is Ok,
    ensures
        result == Ok::<T, E>(r),
{
    match result {
        Ok(v) => v,
        Err(_) => unreached(),
    }
}

/// The value inside an `Option` that is known to be `Some`. `user_string`
/// says, for a reader of the call, what the value is.
pub fn unwrap_option<T>(option: Option<T>, user_string: &str) -> (r: T)
    requires
        option is Some,
    ensures
        option == Some(r),
{
    match option {
        Some(v) => v,
        None => unreached(),
    }
}

} // verus!
