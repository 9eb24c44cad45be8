//! The fixed entries of the server menu.
use vstd::prelude::*;

verus! {

/// A fixed entry of the server menu.
#[derive(Debug, Clone, Copy, PartialEq, Eq, Structural)]
pub enum ExtraOptions {
    EditServer,
    Connect,
    Execute,
    DeleteServer,
    Back,
}

/// The label shown for an entry.
pub open spec fn option_label(o: ExtraOptions) -> Seq<char> {
    match o {
        ExtraOptions::EditServer => "[∙] Edit this server"@,
        ExtraOptions::Connect => "[■] Connect"@,
        ExtraOptions::Execute => "[ƒ] Execute"@,
        ExtraOptions::DeleteServer => "[-] Delete this server"@,
        ExtraOptions::Back => "[«] Back"@,
    }
}

/// The entry whose label is `s`, if any.
pub open spec fn option_of_label(s: Seq<char>) -> Option<ExtraOptions> {
    if s == option_label(ExtraOptions::EditServer) {
        Some(ExtraOptions::EditServer)
    } else if s == option_label(ExtraOptions::Connect) {
        Some(ExtraOptions::Connect)
    } else if s == option_label(ExtraOptions::Execute) {
        Some(ExtraOptions::Execute)
    } else if s == option_label(ExtraOptions::DeleteServer) {
        Some(ExtraOptions::DeleteServer)
    } else if s == option_label(ExtraOptions::Back) {
        Some(ExtraOptions::Back)
    } else {
        None
    }
}

impl ExtraOptions {
    /// The label shown for this entry.
    pub fn to_string(&self) -> (res: String)
        ensures
            res@ == option_label(*self),
    {
        match self {
            ExtraOptions::EditServer => String::from_str("[∙] Edit this server"),
            ExtraOptions::Connect => String::from_str("[■] Connect"),
            ExtraOptions::Execute => String::from_str("[ƒ] Execute"),
            ExtraOptions::DeleteServer => String::from_str("[-] Delete this server"),
            ExtraOptions::Back => String::from_str("[«] Back"),
        }
    }

    /// The entry whose label is exactly `s`, if any.
    pub fn from_str(s: &str) -> (res: Option<ExtraOptions>)
        ensures
            res == option_of_label(s@),
    {
        let t = String::from_str(s);
        if t == ExtraOptions::EditServer.to_string() {
            Some(ExtraOptions::EditServer)
        } else if t == ExtraOptions::Connect.to_string() {
            Some(ExtraOptions::Connect)
        } else if t == ExtraOptions::Execute.to_string() {
            Some(ExtraOptions::Execute)
        } else if t == ExtraOptions::DeleteServer.to_string() {
            Some(ExtraOptions::DeleteServer)
        } else if t == ExtraOptions::Back.to_string() {
            Some(ExtraOptions::Back)
        } else {
            None
        }
    }
}

/// The entries of the server menu, in menu order.
pub fn opts() -> (res: Vec<ExtraOptions>)
    ensures
        res@ == seq![
            ExtraOptions::Back,
            ExtraOptions::Connect,
            ExtraOptions::Execute,
            ExtraOptions::EditServer,
            ExtraOptions::DeleteServer,
        ],
{
    let mut v: Vec<ExtraOptions> = Vec::new();
    v.push(ExtraOptions::Back);
    v.push(ExtraOptions::Connect);
    v.push(ExtraOptions::Execute);
    v.push(ExtraOptions::EditServer);
    v.push(ExtraOptions::DeleteServer);
    assert(v@ =~= seq![
        ExtraOptions::Back,
        ExtraOptions::Connect,
        ExtraOptions::Execute,
        ExtraOptions::EditServer,
        ExtraOptions::DeleteServer,
    ]);
    v
}

/// Reading an entry's label gives the entry back.
pub proof fn lemma_label_roundtrip(o: ExtraOptions)
    ensures
        option_of_label(option_label(o)) == Some(o),
{
    reveal_strlit("[∙] Edit this server");
    reveal_strlit("[■] Connect");
    reveal_strlit("[ƒ] Execute");
    reveal_strlit("[-] Delete this server");
    reveal_strlit("[«] Back");
    assert(option_label(ExtraOptions::EditServer).len() == 20);
    assert(option_label(ExtraOptions::Connect).len() == 11);
    assert(option_label(ExtraOptions::Execute).len() == 11);
    assert(option_label(ExtraOptions::DeleteServer).len() == 22);
    assert(option_label(ExtraOptions::Back).len() == 8);
    assert(option_label(ExtraOptions::Connect)[4] != option_label(ExtraOptions::Execute)[4]);
}

} // verus!
