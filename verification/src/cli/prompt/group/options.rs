//! The fixed entries of the group menu.
use vstd::prelude::*;

verus! {

/// A fixed entry of the group menu.
#[derive(Debug, Clone, Copy, PartialEq, Eq, Structural)]
pub enum ExtraOptions {
    PreviuosGroup,
    AddServer,
    CreateGroup,
    EditGroup,
    DeleteGroup,
}

/// The label shown for an entry.
pub open spec fn option_label(o: ExtraOptions) -> Seq<char> {
    match o {
        ExtraOptions::PreviuosGroup => "« Back"@,
        ExtraOptions::AddServer => "[☉] Add server"@,
        ExtraOptions::CreateGroup => "[+] Create group"@,
        ExtraOptions::EditGroup => "[.] Edit this group"@,
        ExtraOptions::DeleteGroup => "[-] Delete this group"@,
    }
}

/// The entry whose label is `s`, if any.
pub open spec fn option_of_label(s: Seq<char>) -> Option<ExtraOptions> {
    if s == option_label(ExtraOptions::PreviuosGroup) {
        Some(ExtraOptions::PreviuosGroup)
    } else if s == option_label(ExtraOptions::AddServer) {
        Some(ExtraOptions::AddServer)
    } else if s == option_label(ExtraOptions::CreateGroup) {
        Some(ExtraOptions::CreateGroup)
    } else if s == option_label(ExtraOptions::EditGroup) {
        Some(ExtraOptions::EditGroup)
    } else if s == option_label(ExtraOptions::DeleteGroup) {
        Some(ExtraOptions::DeleteGroup)
    } else {
        None
    }
}

impl ExtraOptions {
    /// The label shown for this entry.
    pub fn to_string(&self) -> (res: String)
        ensures
            res@ == option_label(*self),
    {
        match self {
            ExtraOptions::PreviuosGroup => String::from_str("« Back"),
            ExtraOptions::AddServer => String::from_str("[☉] Add server"),
            ExtraOptions::CreateGroup => String::from_str("[+] Create group"),
            ExtraOptions::EditGroup => String::from_str("[.] Edit this group"),
            ExtraOptions::DeleteGroup => String::from_str("[-] Delete this group"),
        }
    }

    /// The entry whose label is exactly `s`, if any.
    pub fn from_str(s: &str) -> (res: Option<ExtraOptions>)
        ensures
            res == option_of_label(s@),
    {
        let t = String::from_str(s);
        if t == ExtraOptions::PreviuosGroup.to_string() {
            Some(ExtraOptions::PreviuosGroup)
        } else if t == ExtraOptions::AddServer.to_string() {
            Some(ExtraOptions::AddServer)
        } else if t == ExtraOptions::CreateGroup.to_string() {
            Some(ExtraOptions::CreateGroup)
        } else if t == ExtraOptions::EditGroup.to_string() {
            Some(ExtraOptions::EditGroup)
        } else if t == ExtraOptions::DeleteGroup.to_string() {
            Some(ExtraOptions::DeleteGroup)
        } else {
            None
        }
    }
}

/// The entries offered at the top level, where there is no current group.
pub fn root_opts() -> (res: Vec<ExtraOptions>)
    ensures
        res@ == seq![ExtraOptions::CreateGroup],
{
    let mut v: Vec<ExtraOptions> = Vec::new();
    v.push(ExtraOptions::CreateGroup);
    assert(v@ =~= seq![ExtraOptions::CreateGroup]);
    v
}

/// The entries offered inside a group, in menu order.
pub fn opts() -> (res: Vec<ExtraOptions>)
    ensures
        res@ == seq![
            ExtraOptions::PreviuosGroup,
            ExtraOptions::AddServer,
            ExtraOptions::CreateGroup,
            ExtraOptions::EditGroup,
            ExtraOptions::DeleteGroup,
        ],
{
    let mut v: Vec<ExtraOptions> = Vec::new();
    v.push(ExtraOptions::PreviuosGroup);
    v.push(ExtraOptions::AddServer);
    v.push(ExtraOptions::CreateGroup);
    v.push(ExtraOptions::EditGroup);
    v.push(ExtraOptions::DeleteGroup);
    assert(v@ =~= seq![
        ExtraOptions::PreviuosGroup,
        ExtraOptions::AddServer,
        ExtraOptions::CreateGroup,
        ExtraOptions::EditGroup,
        ExtraOptions::DeleteGroup,
    ]);
    v
}

/// Reading an entry's label gives the entry back.
pub proof fn lemma_label_roundtrip(o: ExtraOptions)
    ensures
        option_of_label(option_label(o)) == Some(o),
{
    reveal_strlit("« Back");
    reveal_strlit("[☉] Add server");
    reveal_strlit("[+] Create group");
    reveal_strlit("[.] Edit this group");
    reveal_strlit("[-] Delete this group");
    assert(option_label(ExtraOptions::PreviuosGroup).len() == 6);
    assert(option_label(ExtraOptions::AddServer).len() == 14);
    assert(option_label(ExtraOptions::CreateGroup).len() == 16);
    assert(option_label(ExtraOptions::EditGroup).len() == 19);
    assert(option_label(ExtraOptions::DeleteGroup).len() == 21);
}

/// A text that reads as an entry is that entry's label.
pub proof fn lemma_label_exact(s: Seq<char>)
    ensures
        option_of_label(s) matches Some(o) ==> s == option_label(o),
{
}

} // verus!
