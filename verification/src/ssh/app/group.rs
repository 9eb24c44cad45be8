//! Creating and listing groups.
use vstd::prelude::*;
use crate::ids::{is_v4_id, new_random_id};
use crate::ssh::domain::Group;
use crate::ssh::dtos::CreateGroupDto;

verus! {

/// The identifier of the group to look under, if any.
pub open spec fn parent_id_of(parent_group: Option<Group>) -> Option<u128> {
    match parent_group {
        Some(g) => Some(g.id),
        None => None,
    }
}

/// The parent identifier under which groups are listed or created.
pub fn parent_id(parent_group: &Option<Group>) -> (res: Option<u128>)
    ensures
        res == parent_id_of(*parent_group),
{
    match parent_group {
        Some(g) => Some(g.id),
        None => None,
    }
}

/// The record for a new group named `name` under `parent_group`, with a new
/// random identifier.
pub fn new_group_request(name: &str, parent_group: &Option<Group>) -> (res: CreateGroupDto)
    ensures
        res.name@ == name@,
        res.parent_id == parent_id_of(*parent_group),
        is_v4_id(res.id),
{
    let parent_id = parent_id(parent_group);
    let id = new_random_id();
    CreateGroupDto { id, parent_id, name: String::from_str(name) }
}

} // verus!
