//! The records the manager keeps: servers, the groups that hold them, and the
//! credentials used to log into a server.
use vstd::prelude::*;

verus! {

/// A server that can be reached over SSH.
pub struct Server {
    pub id: u128,
    pub group_id: u128,
    pub name: String,
    pub hostname: String,
    pub port: u32,
}

/// A server as plain values.
pub struct ServerView {
    pub id: u128,
    pub group_id: u128,
    pub name: Seq<char>,
    pub hostname: Seq<char>,
    pub port: u32,
}

impl View for Server {
    type V = ServerView;

    open spec fn view(&self) -> ServerView {
        ServerView {
            id: self.id,
            group_id: self.group_id,
            name: self.name@,
            hostname: self.hostname@,
            port: self.port,
        }
    }
}

/// The views of a list of servers.
pub open spec fn server_views(s: Seq<Server>) -> Seq<ServerView> {
    s.map_values(|x: Server| x@)
}

/// A named group of servers; a group may sit inside a parent group.
pub struct Group {
    pub id: u128,
    pub parent_id: Option<u128>,
    pub name: String,
    pub group: Option<Vec<Group>>,
    pub servers: Vec<Server>,
}

/// A group as plain values.
pub struct GroupView {
    pub id: u128,
    pub parent_id: Option<u128>,
    pub name: Seq<char>,
    pub group: Option<Seq<Group>>,
    pub servers: Seq<ServerView>,
}

impl View for Group {
    type V = GroupView;

    open spec fn view(&self) -> GroupView {
        GroupView {
            id: self.id,
            parent_id: self.parent_id,
            name: self.name@,
            group: match self.group {
                Some(v) => Some(v@),
                None => None,
            },
            servers: server_views(self.servers@),
        }
    }
}

/// The views of a list of groups.
pub open spec fn group_views(s: Seq<Group>) -> Seq<GroupView> {
    s.map_values(|x: Group| x@)
}

/// A key pair and the user it logs in as.
pub struct Credentials {
    pub id: u128,
    pub name: String,
    pub user: String,
    pub public: String,
    pub private: String,
}

/// Credentials as plain values.
pub struct CredentialsView {
    pub id: u128,
    pub name: Seq<char>,
    pub user: Seq<char>,
    pub public: Seq<char>,
    pub private: Seq<char>,
}

impl View for Credentials {
    type V = CredentialsView;

    open spec fn view(&self) -> CredentialsView {
        CredentialsView {
            id: self.id,
            name: self.name@,
            user: self.user@,
            public: self.public@,
            private: self.private@,
        }
    }
}

/// The views of a list of credentials.
pub open spec fn credentials_views(s: Seq<Credentials>) -> Seq<CredentialsView> {
    s.map_values(|x: Credentials| x@)
}

impl Group {
    /// The empty group with the nil identifier (`Group::default`).
    pub fn empty() -> (res: Group)
        ensures
            res@ == (GroupView { id: 0, parent_id: None, name: seq![], group: None, servers: seq![] }),
    {
        let res = Group { id: 0, parent_id: None, name: String::new(), group: None, servers: Vec::new() };
        assert(res@.servers =~= seq![]);
        res
    }
}

} // verus!
