//! How servers are listed in the group menu.
use vstd::prelude::*;
use crate::cli::prompt::group::options::option_of_label;
use crate::cli::prompt::group::transform::group_label;
use crate::ssh::domain::Server;

verus! {

/// The menu label of a server: a server sign, a space, and its name.
pub open spec fn server_label(name: Seq<char>) -> Seq<char> {
    "☍ "@ + name
}

/// The menu label of a server.
pub fn sever_as_str(server: &Server) -> (res: String)
    ensures
        res@ == server_label(server.name@),
{
    String::from_str("☍ ").concat(server.name.as_str())
}

/// The menu labels of servers, in order.
pub fn server_as_vec(servers: &Vec<Server>) -> (res: Vec<String>)
    ensures
        res@.len() == servers@.len(),
        forall|i: int| 0 <= i < servers@.len() ==> (#[trigger] res@[i])@ == server_label(servers@[i].name@),
{
    let mut out: Vec<String> = Vec::new();
    let mut i: usize = 0;
    while i < servers.len()
        invariant
            i <= servers.len(),
            out@.len() == i,
            forall|j: int| 0 <= j < i ==> (#[trigger] out@[j])@ == server_label(servers@[j].name@),
        decreases servers.len() - i,
    {
        out.push(sever_as_str(&servers[i]));
        i = i + 1;
    }
    out
}

/// In the group menu a server's label never reads as a fixed entry, and never
/// equals a group's label, whatever the names.
pub proof fn lemma_server_label_distinct(name: Seq<char>, group_name: Seq<char>)
    ensures
        option_of_label(server_label(name)) is None,
        server_label(name) != group_label(group_name),
{
    reveal_strlit("☍ ");
    reveal_strlit("☖ ");
    reveal_strlit("« Back");
    reveal_strlit("[☉] Add server");
    reveal_strlit("[+] Create group");
    reveal_strlit("[.] Edit this group");
    reveal_strlit("[-] Delete this group");
    assert(server_label(name)[0] == '☍');
    assert(group_label(group_name)[0] == '☖');
}

} // verus!
