use sshy::cli::input::group as plain;
use sshy::cli::prompt::credentials::{credential_as_str, credentials_as_vec};
use sshy::cli::prompt::group::options::{opts, root_opts, ExtraOptions};
use sshy::cli::prompt::group::transform::{group_as_str, groups_as_vec};
use sshy::cli::prompt::server::options as server_options;
use sshy::cli::prompt::server::options::ExtraOptions as S;
use sshy::cli::prompt::server::transform::{server_as_vec, sever_as_str};
use sshy::ssh::domain::{Credentials, Group, Server};

fn group(id: u128, name: &str) -> Group {
    Group { id, parent_id: None, name: name.to_string(), group: None, servers: vec![] }
}

fn server(name: &str) -> Server {
    Server { id: 1, group_id: 2, name: name.to_string(), hostname: "h".into(), port: 22 }
}

#[test]
fn group_menu_labels_read_back() {
    let all = [
        ExtraOptions::PreviuosGroup,
        ExtraOptions::AddServer,
        ExtraOptions::CreateGroup,
        ExtraOptions::EditGroup,
        ExtraOptions::DeleteGroup,
    ];
    for o in all {
        assert_eq!(ExtraOptions::from_str(&o.to_string()), Some(o));
    }
    assert_eq!(ExtraOptions::PreviuosGroup.to_string(), "« Back");
    assert_eq!(ExtraOptions::AddServer.to_string(), "[☉] Add server");
    assert_eq!(ExtraOptions::CreateGroup.to_string(), "[+] Create group");
    assert_eq!(ExtraOptions::EditGroup.to_string(), "[.] Edit this group");
    assert_eq!(ExtraOptions::DeleteGroup.to_string(), "[-] Delete this group");
    assert_eq!(ExtraOptions::from_str("[+] create group"), None);
    assert_eq!(ExtraOptions::from_str(""), None);
}

#[test]
fn group_menu_entries() {
    assert_eq!(root_opts(), vec![ExtraOptions::CreateGroup]);
    assert_eq!(
        opts(),
        vec![
            ExtraOptions::PreviuosGroup,
            ExtraOptions::AddServer,
            ExtraOptions::CreateGroup,
            ExtraOptions::EditGroup,
            ExtraOptions::DeleteGroup
        ]
    );
}

#[test]
fn server_menu_labels_read_back() {
    for o in server_options::opts() {
        assert_eq!(S::from_str(&o.to_string()), Some(o));
    }
    assert_eq!(server_options::opts(), vec![S::Back, S::Connect, S::Execute, S::EditServer, S::DeleteServer]);
    assert_eq!(S::Back.to_string(), "[«] Back");
    assert_eq!(S::Connect.to_string(), "[■] Connect");
    assert_eq!(S::Execute.to_string(), "[ƒ] Execute");
    assert_eq!(S::EditServer.to_string(), "[∙] Edit this server");
    assert_eq!(S::DeleteServer.to_string(), "[-] Delete this server");
    assert_eq!(S::from_str("Connect"), None);
}

#[test]
fn group_and_server_labels() {
    assert_eq!(group_as_str(&group(5, "prod")), "☖ prod");
    assert_eq!(groups_as_vec(&vec![group(1, "a"), group(2, "b")]), vec!["☖ a", "☖ b"]);
    assert_eq!(sever_as_str(&server("web")), "☍ web");
    assert_eq!(server_as_vec(&vec![server("x"), server("y")]), vec!["☍ x", "☍ y"]);
    let named_like_entry = group(3, "[+] Create group");
    assert_eq!(ExtraOptions::from_str(&group_as_str(&named_like_entry)), None);
    assert_eq!(ExtraOptions::from_str(&sever_as_str(&server("« Back"))), None);
}

#[test]
fn credential_labels() {
    let c = Credentials { id: 1, name: "default".into(), user: "root".into(), public: "".into(), private: "".into() };
    assert_eq!(credential_as_str(&c), "• default (root)");
    assert_eq!(credentials_as_vec(&vec![c]), vec!["• default (root)"]);
}

#[test]
fn plain_group_labels_carry_the_id() {
    let g = group(0x550e8400e29b41d4a716446655440000, "prod");
    assert_eq!(plain::group_as_str(&g), "550e8400-e29b-41d4-a716-446655440000-prod");
    assert_eq!(plain::groups_as_vec(&vec![group(0, "z")]), vec!["00000000-0000-0000-0000-000000000000-z"]);
}

#[test]
fn distinct_ids_have_distinct_plain_labels() {
    let a = plain::group_as_str(&group(1, "same"));
    let b = plain::group_as_str(&group(1 << 100, "same"));
    assert_ne!(a, b);
    assert_eq!(a, "00000000-0000-0000-0000-000000000001-same");
    assert_eq!(b, "00000010-0000-0000-0000-000000000000-same");
}
