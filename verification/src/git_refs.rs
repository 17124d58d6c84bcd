//! Branch names: which prefixes and names git accepts for a branch, as
//! libgit2 (through `git2`) decides it.
use vstd::prelude::*;
use crate::text::{chars_of, copy_str, find_char, index_of_char, is_blank, trim};

verus! {

/// What `git2::Branch::name_is_valid` answers for a name: whether libgit2
/// accepts it as a branch name, or `None` where the call fails.
pub uninterp spec fn branch_name_check(name: Seq<char>) -> Option<bool>;

/// Calls `git2::Branch::name_is_valid`; its answer depends on the name alone
/// and is named `branch_name_check`. A name holding a NUL character cannot
/// be handed to libgit2, and the call fails on it.
#[verifier::external_body]
fn branch_name_is_valid(name: &str) -> (r: Option<bool>)
    ensures
        r == branch_name_check(name@),
        name@.contains('\0') ==> r is None,
{
    match git2::Branch::name_is_valid(name) {
        Ok(v) => Some(v),
        Err(_) => None,
    }
}

/// Whether libgit2 accepts a branch name (a failed check counts as no).
pub open spec fn git_accepts(name: Seq<char>) -> bool {
    branch_name_check(name) == Some(true)
}

/// Whether a branch prefix is valid: empty, or free of `/` and such that
/// `<prefix>/x` is a valid branch name.
pub open spec fn valid_branch_prefix(prefix: Seq<char>) -> bool {
    prefix.len() == 0 || (index_of_char(prefix, '/') is None && git_accepts(prefix + "/x"@))
}

/// Whether a branch name is valid: not blank, and accepted by libgit2.
pub open spec fn valid_branch_name(name: Seq<char>) -> bool {
    trim(name).len() > 0 && git_accepts(name)
}

/// Whether `prefix` may start branch names (`<prefix>/<name>`).
pub fn is_valid_branch_prefix(prefix: &str) -> (r: bool)
    ensures
        r == valid_branch_prefix(prefix@),
{
    let v = chars_of(prefix);
    if v.len() == 0 {
        return true;
    }
    if find_char(&v, '/').is_some() {
        return false;
    }
    let mut probe = copy_str(prefix);
    probe.append("/x");
    match branch_name_is_valid(probe.as_str()) {
        Some(ok) => ok,
        None => false,
    }
}

/// Whether `name` is a valid branch name.
pub fn is_valid_branch_name(name: &str) -> (r: bool)
    ensures
        r == valid_branch_name(name@),
{
    if is_blank(name) {
        return false;
    }
    match branch_name_is_valid(name) {
        Some(ok) => ok,
        None => false,
    }
}

} // verus!
