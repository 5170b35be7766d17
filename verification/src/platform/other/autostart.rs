//! No mechanism to start at login is known here.

use vstd::prelude::*;

verus! {

pub const UNSUPPORTED: &'static str = "autostart is not supported on this platform";

pub fn is_enabled() -> (r: Result<bool, &'static str>)
    ensures
        r == Err::<bool, &'static str>(UNSUPPORTED),
{
    Err(UNSUPPORTED)
}

pub fn enable() -> (r: Result<(), &'static str>)
    ensures
        r == Err::<(), &'static str>(UNSUPPORTED),
{
    Err(UNSUPPORTED)
}

pub fn disable() -> (r: Result<(), &'static str>)
    ensures
        r == Err::<(), &'static str>(UNSUPPORTED),
{
    Err(UNSUPPORTED)
}

} // verus!
