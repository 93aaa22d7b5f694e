use vstd::prelude::*;

verus! {

/// `nix::unistd::geteuid`, read as the raw user id. It depends on the
/// process, so nothing is stated of it.
#[verifier::external_body]
fn effective_user_id() -> (r: u32) {
    nix::unistd::geteuid().as_raw()
}

/// Whether the user id `uid` is the superuser's: 0.
pub fn is_root_id(uid: u32) -> (r: bool)
    ensures
        r == (uid == 0),
{
    uid == 0
}

/// Whether the process runs as the superuser: its effective user id is
/// the superuser's (see `is_root_id`).
pub fn is_user_admin() -> (r: bool) {
    let uid = effective_user_id();
    is_root_id(uid)
}

} // verus!
