//! How groups are listed in the group menu.
use vstd::prelude::*;
use crate::cli::prompt::group::options::option_of_label;
use crate::ssh::domain::Group;

verus! {

/// The menu label of a group: a group sign, a space, and its name.
pub open spec fn group_label(name: Seq<char>) -> Seq<char> {
    "☖ "@ + name
}

/// The menu label of a group.
pub fn group_as_str(group: &Group) -> (res: String)
    ensures
        res@ == group_label(group.name@),
{
    String::from_str("☖ ").concat(group.name.as_str())
}

/// The menu labels of groups, in order.
pub fn groups_as_vec(groups: &Vec<Group>) -> (res: Vec<String>)
    ensures
        res@.len() == groups@.len(),
        forall|i: int| 0 <= i < groups@.len() ==> (#[trigger] res@[i])@ == group_label(groups@[i].name@),
{
    let mut out: Vec<String> = Vec::new();
    let mut i: usize = 0;
    while i < groups.len()
        invariant
            i <= groups.len(),
            out@.len() == i,
            forall|j: int| 0 <= j < i ==> (#[trigger] out@[j])@ == group_label(groups@[j].name@),
        decreases groups.len() - i,
    {
        out.push(group_as_str(&groups[i]));
        i = i + 1;
    }
    out
}

/// No group's label reads as a fixed entry of the group menu, whatever the
/// group's name.
pub proof fn lemma_group_label_not_option(name: Seq<char>)
    ensures
        option_of_label(group_label(name)) is None,
{
    reveal_strlit("☖ ");
    reveal_strlit("« Back");
    reveal_strlit("[☉] Add server");
    reveal_strlit("[+] Create group");
    reveal_strlit("[.] Edit this group");
    reveal_strlit("[-] Delete this group");
    assert(group_label(name)[0] == '☖');
}

} // verus!
