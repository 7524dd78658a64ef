//! Which filesystem notifications mean that the settings file changed.
//!
//! The watch is on the settings file's directory, because editors save by
//! renaming a temporary file over the file itself. An event counts when it
//! names the settings file, and also when it names nothing: a queue
//! overflow carries no name, and the file may have changed unseen.

use vstd::prelude::*;

verus! {

/// Whether two byte strings are equal.
fn same_bytes(left: &[u8], right: &[u8]) -> (same: bool)
    ensures
        same == (left@ == right@),
{
    if left.len() != right.len() {
        return false;
    }
    let mut i: usize = 0;
    while i < left.len()
        invariant
            left@.len() == right@.len(),
            i <= left@.len(),
            forall|j: int| 0 <= j < i ==> left@[j] == right@[j],
        decreases left@.len() - i,
    {
        if left[i] != right[i] {
            return false;
        }
        i = i + 1;
    }
    assert(left@ =~= right@);
    true
}

/// Whether a notification in the settings directory calls for reloading
/// the settings file named `file_name`.
pub fn settings_event_relevant(event_name: Option<&[u8]>, file_name: &[u8]) -> (relevant: bool)
    ensures
        relevant == match event_name {
            Some(name) => name@ == file_name@,
            None => true,
        },
{
    match event_name {
        Some(name) => same_bytes(name, file_name),
        None => true,
    }
}

} // verus!
