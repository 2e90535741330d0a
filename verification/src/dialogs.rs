//! The outcome of the common file dialogs.
use vstd::prelude::*;
use crate::util::{is_nul_prefix, until_nul};

verus! {

/// The file name that a file dialog chose: none where the dialog returned
/// `FALSE`, else the name in its buffer up to the terminating zero.
pub fn chosen_file_name(dialog_result: i32, buf: &[u16]) -> (name: Option<Vec<u16>>)
    ensures
        dialog_result == 0 ==> name is None,
        dialog_result != 0 ==> (name matches Some(n) && is_nul_prefix(buf@, n@)),
{
    if dialog_result == 0 {
        None
    } else {
        Some(until_nul(buf))
    }
}

} // verus!
