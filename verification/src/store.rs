//! The persisted slot for the last observed value.
//!
//! One file under the owner's home directory holds, as plain text, the last
//! value the watcher has seen and already acted on. The binary does the
//! reading and writing; what is decided here is the slot's location, derived
//! once from the home directory. A missing file means the slot was never
//! initialized, which the watch loop treats as "no baseline yet" (see the
//! `Loaded` event of the watch machine).

use vstd::prelude::*;
use vstd::string::StringExecFns;

verus! {

/// The slot's location under the given home directory.
pub fn price_file_path(home: &str) -> (r: String)
    ensures
        r@ == home@ + "/tui-watcher-last-price.txt"@,
{
    let mut r = home.to_owned();
    r.append("/tui-watcher-last-price.txt");
    r
}

} // verus!
