//! The commands the loading page may invoke.

use vstd::prelude::*;
use crate::paths::{is_repo_root, root_answer};

verus! {

/// The refusal of a directory that is not a checkout.
pub open spec fn not_a_checkout_message(path: Seq<char>) -> Seq<char> {
    path + " is not a DeepSeek Harness checkout (no pnpm-workspace.yaml)"@
}

/// Accepts `path` as the checkout when `is_root` says it is one, and
/// refuses it with [`not_a_checkout_message`] otherwise.
pub fn checked_repo_dir(path: String, is_root: bool) -> (r: Result<String, String>)
    ensures
        is_root ==> r == Ok::<String, String>(path),
        !is_root ==> (r matches Err(m) && m@ == not_a_checkout_message(path@)),
{
    if is_root {
        Ok(path)
    } else {
        let mut m = String::from_str(path.as_str());
        m.append(" is not a DeepSeek Harness checkout (no pnpm-workspace.yaml)");
        Err(m)
    }
}

/// Checks the checkout path chosen on the startup error screen for layouts
/// no heuristic can detect: the path itself when [`is_repo_root`] confirms
/// it, the refusal when it does not (decided by [`checked_repo_dir`]). The
/// caller persists an accepted path and restarts the boot sequence.
pub fn set_repo_dir(path: String) -> (r: Result<String, String>)
    ensures
        r matches Ok(p) ==> p@ == path@ && root_answer(path@, true),
        r matches Err(m) ==> m@ == not_a_checkout_message(path@) && root_answer(path@, false),
{
    let p = path.as_str();
    let is_root = is_repo_root(p);
    assert(call_ensures(is_repo_root, (p,), is_root));
    checked_repo_dir(path, is_root)
}

} // verus!
