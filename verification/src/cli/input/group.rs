//! How groups are named in plain-text lists.
use vstd::prelude::*;
use crate::ids::{id_to_string, uuid_text};
use crate::ssh::domain::Group;

verus! {

/// A group's plain label: its identifier's text, a hyphen, and its name.
pub open spec fn plain_group_label(id: u128, name: Seq<char>) -> Seq<char> {
    uuid_text(id) + "-"@ + name
}

/// A group's plain label.
pub fn group_as_str(group: &Group) -> (res: String)
    ensures
        res@ == plain_group_label(group.id, group.name@),
{
    id_to_string(group.id).concat("-").concat(group.name.as_str())
}

/// The plain labels of groups, in order.
pub fn groups_as_vec(groups: &Vec<Group>) -> (res: Vec<String>)
    ensures
        res@.len() == groups@.len(),
        forall|i: int|
            0 <= i < groups@.len() ==> (#[trigger] res@[i])@ == plain_group_label(groups@[i].id, groups@[i].name@),
{
    let mut out: Vec<String> = Vec::new();
    let mut i: usize = 0;
    while i < groups.len()
        invariant
            i <= groups.len(),
            out@.len() == i,
            forall|j: int| 0 <= j < i ==> (#[trigger] out@[j])@ == plain_group_label(groups@[j].id, groups@[j].name@),
        decreases groups.len() - i,
    {
        out.push(group_as_str(&groups[i]));
        i = i + 1;
    }
    out
}

} // verus!
