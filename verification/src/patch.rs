//! The partial-update protocol's field combinators.
//!
//! An update carries two independent channels: a sparse patch (per field
//! either absent, meaning "leave untouched", or present, meaning "set to
//! this value") and a removal list drawn from a closed enumeration of
//! removable field names (meaning "reset to unset"). The repository
//! applies the patch first and the removals second, so a removal always
//! wins over a simultaneous patch of the same field.
use vstd::prelude::*;

verus! {

/// Patch application for a field the record always carries: a present
/// patch value overwrites, an absent one leaves the field untouched.
pub open spec fn patch_req<T>(cur: T, p: Option<T>) -> T {
    match p {
        Some(v) => v,
        None => cur,
    }
}

/// Patch application for an optional field: a present patch value sets
/// the field, an absent one leaves it untouched. A patch can never
/// clear an optional field; clearing goes through the removal list.
pub open spec fn patch_opt<T>(cur: Option<T>, p: Option<T>) -> Option<T> {
    match p {
        Some(v) => Some(v),
        None => cur,
    }
}

/// Removal application for an optional field: reset to unset when the
/// removal list names the field.
pub open spec fn unset_if<T>(remove: bool, v: Option<T>) -> Option<T> {
    if remove {
        None
    } else {
        v
    }
}

/// Executable form of [`patch_req`].
pub fn patch_req_exec<T>(cur: T, p: Option<T>) -> (r: T)
    ensures
        r == patch_req(cur, p),
{
    match p {
        Some(v) => v,
        None => cur,
    }
}

/// Executable form of [`patch_opt`].
pub fn patch_opt_exec<T>(cur: Option<T>, p: Option<T>) -> (r: Option<T>)
    ensures
        r == patch_opt(cur, p),
{
    match p {
        Some(v) => Some(v),
        None => cur,
    }
}

/// Executable form of [`unset_if`].
pub fn unset_if_exec<T>(remove: bool, v: Option<T>) -> (r: Option<T>)
    ensures
        r == unset_if(remove, v),
{
    if remove {
        None
    } else {
        v
    }
}

/// String comparison between an owned field and a borrowed id.
pub fn str_eq(a: &String, b: &str) -> (r: bool)
    ensures
        r == (a@ == b@),
{
    let bs = String::from_str(b);
    *a == bs
}

/// String comparison between two borrowed strings.
pub fn str_eq_str(a: &str, b: &str) -> (r: bool)
    ensures
        r == (a@ == b@),
{
    let aa = String::from_str(a);
    let bs = String::from_str(b);
    aa == bs
}

} // verus!
