//! The single-instance lock.
use vstd::prelude::*;

use crate::config::{app_dir, config_file};
use crate::text::path_join;

verus! {

/// The lock file that the running instance holds, in the configuration
/// directory.
pub fn lock_path() -> (r: String)
    ensures
        exists|base: Option<Seq<char>>| r@ == path_join(app_dir(base), "ainv-helper.lock"@),
{
    config_file("ainv-helper.lock")
}

} // verus!
