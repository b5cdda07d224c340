//! Whom a job's files are handed to.
use vstd::prelude::*;

verus! {

/// Relies on users::get_user_by_name, User::uid and User::primary_group_id:
/// the user's id and primary group id, if the system knows the user; the
/// answer depends on the system's user database.
#[verifier::external_body]
fn lookup_user(name: &str) -> Option<(u32, u32)> {
    users::get_user_by_name(name).map(|u| (u.uid(), u.primary_group_id()))
}

/// Relies on users::get_group_by_name and Group::gid: the group's id, if the
/// system knows the group; the answer depends on the system's group database.
#[verifier::external_body]
fn lookup_group(name: &str) -> Option<u32> {
    users::get_group_by_name(name).map(|g| g.gid())
}

/// The owner and group a file is given: a known user brings its id and, unless
/// a known group is named too, its primary group; without a known user the
/// file keeps its owner, and takes the named group if it is known.
pub open spec fn owner_ids(current: (u32, u32), user: Option<(u32, u32)>, group: Option<u32>) -> (u32, u32) {
    match user {
        Some(u) => match group {
            Some(g) => (u.0, g),
            None => u,
        },
        None => match group {
            Some(g) => (current.0, g),
            None => current,
        },
    }
}

/// The owner and group a file is given, from the ids the user and group
/// names resolve to.
pub fn resolve_owner(current_uid: u32, current_gid: u32, user: Option<(u32, u32)>, group: Option<u32>) -> (r: (u32, u32))
    ensures
        r == owner_ids((current_uid, current_gid), user, group),
{
    match user {
        Some(u) => match group {
            Some(g) => (u.0, g),
            None => u,
        },
        None => match group {
            Some(g) => (current_uid, g),
            None => (current_uid, current_gid),
        },
    }
}

/// The owner and group a file currently owned by `(current_uid, current_gid)`
/// is given, resolving the names with the system. With no name it keeps both.
pub fn get_user_group_pair_id(
    current_uid: u32,
    current_gid: u32,
    username: &Option<String>,
    group_name: &Option<String>,
) -> (r: (u32, u32))
    ensures
        username is None && group_name is None ==> r == (current_uid, current_gid),
        username is None ==> r.0 == current_uid,
        exists|user: Option<(u32, u32)>, group: Option<u32>|
            (username is None ==> user is None) && (group_name is None ==> group is None) && r
                == #[trigger] owner_ids((current_uid, current_gid), user, group),
{
    let user = match username {
        Some(name) => lookup_user(name.as_str()),
        None => None,
    };
    let group = match group_name {
        Some(name) => lookup_group(name.as_str()),
        None => None,
    };
    resolve_owner(current_uid, current_gid, user, group)
}

} // verus!
