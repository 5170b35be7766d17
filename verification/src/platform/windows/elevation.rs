//! Whether injected input reaches the foreground window. Windows drops input
//! for a window of a process of higher integrity, without an error.

use vstd::prelude::*;

verus! {

/// How many words of eight bytes hold `needed` bytes; `None` for none.
pub fn label_words(needed: u32) -> (r: Option<u32>)
    ensures
        match r {
            Some(words) => needed > 0 && (words - 1) * 8 < needed <= words * 8,
            None => needed == 0,
        },
{
    if needed == 0 {
        None
    } else {
        Some((needed - 1) / 8 + 1)
    }
}

/// The index of the sub-authority that holds the integrity level, which is the
/// last; `None` where there is none.
pub fn level_index(sub_authorities: u8) -> (r: Option<u32>)
    ensures
        match r {
            Some(i) => i == sub_authorities - 1,
            None => sub_authorities == 0,
        },
{
    if sub_authorities == 0 {
        None
    } else {
        Some((sub_authorities - 1) as u32)
    }
}

/// Whether input for the foreground window is dropped. `window` is the thread
/// and the process that it belongs to, both 0 where that is not known; `own` and
/// `other` are the integrity levels of this process and of that one. Where the
/// other's cannot be read, that it cannot be is itself a sign; where our own
/// cannot be, there is no telling.
pub fn foreground_input_blocked(
    window: Option<(u32, u32)>,
    own_pid: u32,
    own: Option<u32>,
    other: Option<u32>,
) -> (r: bool)
    ensures
        r == match (window, own) {
            (Some((thread, pid)), Some(level)) => thread != 0 && pid != 0 && pid != own_pid
                && match other {
                Some(l) => l > level,
                None => true,
            },
            _ => false,
        },
{
    match window {
        None => false,
        Some((thread, pid)) => {
            if thread == 0 || pid == 0 || pid == own_pid {
                return false;
            }
            match own {
                None => false,
                Some(level) => match other {
                    Some(l) => l > level,
                    None => true,
                },
            }
        },
    }
}

} // verus!
