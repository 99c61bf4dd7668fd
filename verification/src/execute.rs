use vstd::prelude::*;

verus! {

/// Whether a file's permission bits let someone execute it: any of the
/// owner, group or other execute bits (`0o111`) is set.
pub fn is_exec(mode: u32) -> (res: bool)
    ensures
        res == (mode & 0o111u32 != 0),
{
    mode & 0o111 != 0
}

} // verus!
