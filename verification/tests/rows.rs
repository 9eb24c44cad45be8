use sshy::ssh::dtos::{CreateCredentialsDto, CreateGroupDto, CreateServerDto};
use sshy::ssh::infra::repository::credentials::{credentials_insert_binds, try_credentials_from_row, try_credentials_from_rows, CredentialsRow};
use sshy::ssh::infra::repository::group::first_group;
use sshy::ssh::infra::repository::group::{
    group_insert_binds, groups_query, try_group_from_row, try_groups_servers_from_rows, GroupRow, GroupServerRow,
    GROUPS_WITH_SERVERS_QUERY,
};
use sshy::ssh::infra::repository::server::{server_insert_binds, try_server_from_row, try_servers_from_rows, ServerRow};
use sshy::ssh::infra::repository::{creation_result, needs_creation, DBCreateResutl};
use sshy::error::Error;

const G1: &str = "11111111-1111-4111-8111-111111111111";
const G2: &str = "22222222-2222-4222-8222-222222222222";
const S1: &str = "aaaaaaaa-aaaa-4aaa-8aaa-aaaaaaaaaaaa";
const S2: &str = "bbbbbbbb-bbbb-4bbb-8bbb-bbbbbbbbbbbb";
const S3: &str = "cccccccc-cccc-4ccc-8ccc-cccccccccccc";
const NIL: &str = "00000000-0000-0000-0000-000000000000";

fn id(s: &str) -> u128 {
    u128::from_str_radix(&s.replace('-', ""), 16).unwrap()
}

fn row(g: &str, parent: Option<&str>, name: &str, s: &str, sname: &str, host: &str, port: u32) -> GroupServerRow {
    GroupServerRow {
        group: GroupRow { id: g.to_string(), parent_id: parent.map(|p| p.to_string()), name: name.to_string() },
        server_id: s.to_string(),
        server_name: sname.to_string(),
        hostname: host.to_string(),
        port,
    }
}

#[test]
fn join_rows_fold_into_groups_with_servers() {
    let rows = vec![
        row(G1, None, "prod", S1, "web", "10.0.0.1", 22),
        row(G1, None, "prod", S2, "db", "10.0.0.2", 2222),
        row(G2, Some(G1), "staging", "", "", "", 0),
    ];
    let groups = try_groups_servers_from_rows(&rows).unwrap();
    assert_eq!(groups.len(), 2);
    assert_eq!(groups[0].id, id(G1));
    assert_eq!(groups[0].parent_id, None);
    assert_eq!(groups[0].name, "prod");
    assert_eq!(groups[0].servers.len(), 2);
    assert_eq!(groups[0].servers[0].id, id(S1));
    assert_eq!(groups[0].servers[0].group_id, id(G1));
    assert_eq!(groups[0].servers[1].name, "db");
    assert_eq!(groups[0].servers[1].hostname, "10.0.0.2");
    assert_eq!(groups[0].servers[1].port, 2222);
    assert_eq!(groups[1].id, id(G2));
    assert_eq!(groups[1].parent_id, Some(id(G1)));
    assert_eq!(groups[1].name, "staging");
    assert!(groups[1].servers.is_empty());
    assert!(groups[1].group.is_none());
}

#[test]
fn no_rows_no_groups() {
    assert!(try_groups_servers_from_rows(&vec![]).unwrap().is_empty());
}

#[test]
fn non_adjacent_rows_of_a_group_make_two_groups() {
    let rows = vec![
        row(G1, None, "a", S1, "x", "h1", 22),
        row(G2, None, "b", "", "", "", 0),
        row(G1, None, "a", S2, "y", "h2", 22),
    ];
    let groups = try_groups_servers_from_rows(&rows).unwrap();
    assert_eq!(groups.len(), 3);
    assert_eq!(groups[0].servers.len(), 1);
    assert_eq!(groups[2].id, id(G1));
    assert_eq!(groups[2].servers[0].id, id(S2));
}

#[test]
fn upper_case_ids_start_a_group_on_every_row() {
    let upper = S3.to_uppercase();
    let rows = vec![row(&upper, None, "a", S1, "x", "h", 22), row(&upper, None, "a", S2, "y", "h", 22)];
    let groups = try_groups_servers_from_rows(&rows).unwrap();
    assert_eq!(groups.len(), 2);
    assert_eq!(groups[0].id, groups[1].id);
    assert_eq!(groups[0].servers.len(), 1);
    assert_eq!(groups[1].servers.len(), 1);
}

#[test]
fn nil_group_rows_pass_their_servers_on() {
    let rows = vec![row(NIL, None, "nil", S1, "x", "h", 22), row(G1, None, "a", S2, "y", "h", 22)];
    let groups = try_groups_servers_from_rows(&rows).unwrap();
    assert_eq!(groups.len(), 1);
    assert_eq!(groups[0].id, id(G1));
    assert_eq!(groups[0].servers.len(), 2);
    assert_eq!(groups[0].servers[0].group_id, 0);
    assert_eq!(groups[0].servers[1].group_id, id(G1));
}

#[test]
fn invalid_ids_are_refused() {
    let rows = vec![row("not-an-id", None, "a", "", "", "", 0)];
    assert!(try_groups_servers_from_rows(&rows).is_none());
    let rows = vec![row(G1, Some("zz"), "a", "", "", "", 0)];
    assert!(try_groups_servers_from_rows(&rows).is_none());
    let rows = vec![row(G1, None, "a", "bad", "x", "h", 22)];
    assert!(try_groups_servers_from_rows(&rows).is_none());
}

#[test]
fn group_row_decoding() {
    let g = try_group_from_row(&GroupRow { id: G2.into(), parent_id: Some(G1.into()), name: "n".into() }).unwrap();
    assert_eq!(g.id, id(G2));
    assert_eq!(g.parent_id, Some(id(G1)));
    assert_eq!(g.name, "n");
    let simple = G2.replace('-', "");
    assert_eq!(try_group_from_row(&GroupRow { id: simple, parent_id: None, name: "n".into() }).unwrap().id, id(G2));
    assert!(try_group_from_row(&GroupRow { id: "".into(), parent_id: None, name: "n".into() }).is_none());
}

#[test]
fn group_query_by_parent() {
    let (q, bind) = groups_query(&Some(id(G1)));
    assert_eq!(q, format!("{}= ?", GROUPS_WITH_SERVERS_QUERY));
    assert_eq!(bind.unwrap(), G1);
    let (q, bind) = groups_query(&None);
    assert_eq!(q, format!("{} IS NULL", GROUPS_WITH_SERVERS_QUERY));
    assert!(bind.is_none());
    assert!(GROUPS_WITH_SERVERS_QUERY.trim_end().ends_with("WHERE g.parent_id"));
}

#[test]
fn stored_group_reads_back() {
    let dto = CreateGroupDto { id: id(G2), parent_id: Some(id(G1)), name: "team".into() };
    let r = group_insert_binds(&dto);
    assert_eq!(r.id, G2);
    assert_eq!(r.parent_id.as_deref(), Some(G1));
    let g = try_group_from_row(&r).unwrap();
    assert_eq!((g.id, g.parent_id, g.name.as_str()), (dto.id, dto.parent_id, "team"));
    let top = group_insert_binds(&CreateGroupDto { id: id(G1), parent_id: None, name: "top".into() });
    assert!(top.parent_id.is_none());
}

#[test]
fn stored_server_reads_back() {
    let dto = CreateServerDto { id: id(S1), group_id: id(G1), name: "web".into(), host: "example.org".into(), port: 2200 };
    let r = server_insert_binds(&dto);
    assert_eq!(r.id, S1);
    assert_eq!(r.group_id, G1);
    let s = try_server_from_row(&r).unwrap();
    assert_eq!((s.id, s.group_id, s.name.as_str(), s.hostname.as_str(), s.port), (id(S1), id(G1), "web", "example.org", 2200));
    let many = try_servers_from_rows(&vec![r, server_insert_binds(&dto)]).unwrap();
    assert_eq!(many.len(), 2);
    let bad = ServerRow { id: S1.into(), group_id: "x".into(), name: "".into(), hostname: "".into(), port: 0 };
    assert!(try_server_from_row(&bad).is_none());
    assert!(try_servers_from_rows(&vec![bad]).is_none());
}

#[test]
fn stored_credentials_read_back() {
    let dto = CreateCredentialsDto {
        id: id(S3),
        name: "default".into(),
        server_id: id(S1),
        user: "root".into(),
        public: "ssh-ed25519 AAAA".into(),
        private: "-----BEGIN-----".into(),
    };
    let (r, link) = credentials_insert_binds(&dto);
    assert_eq!(link, (S1.to_string(), S3.to_string()));
    let c = try_credentials_from_row(&r).unwrap();
    assert_eq!(c.id, id(S3));
    assert_eq!(c.user, "root");
    assert_eq!(c.public, "ssh-ed25519 AAAA");
    assert_eq!(c.private, "-----BEGIN-----");
    let all = try_credentials_from_rows(&vec![r]).unwrap();
    assert_eq!(all[0].name, "default");
    let bad = CredentialsRow { id: "?".into(), name: "".into(), user: "".into(), public_key: "".into(), private_key: "".into() };
    assert!(try_credentials_from_row(&bad).is_none());
    assert!(try_credentials_from_rows(&vec![bad]).is_none());
}

#[test]
fn database_creation_outcomes() {
    assert!(!needs_creation(Some(true)));
    assert!(needs_creation(Some(false)));
    assert!(needs_creation(None));
    assert!(matches!(creation_result(None), Ok(DBCreateResutl::Existed)));
    assert!(matches!(creation_result(Some(Ok(()))), Ok(DBCreateResutl::Created)));
    match creation_result(Some(Err("disk full".into()))) {
        Err(Error::DB(m)) => assert_eq!(m, "disk full"),
        _ => panic!("expected a database error"),
    }
}

#[test]
fn group_lookup_takes_the_first_group() {
    let rows = vec![row(G2, Some(G1), "b", S1, "x", "h", 22), row(G1, None, "a", "", "", "", 0)];
    let g = first_group(try_groups_servers_from_rows(&rows).unwrap()).unwrap();
    assert_eq!(g.id, id(G2));
    assert_eq!(g.servers.len(), 1);
    assert!(first_group(vec![]).is_none());
}

#[test]
fn folding_concatenated_rows_concatenates_groups() {
    let r1 = vec![row(G1, None, "a", S1, "x", "h", 22), row(G1, None, "a", S2, "y", "h", 22)];
    let r2 = vec![row(G2, None, "b", S3, "z", "h", 22)];
    let both: Vec<GroupServerRow> = vec![
        row(G1, None, "a", S1, "x", "h", 22),
        row(G1, None, "a", S2, "y", "h", 22),
        row(G2, None, "b", S3, "z", "h", 22),
    ];
    let g1 = try_groups_servers_from_rows(&r1).unwrap();
    let g2 = try_groups_servers_from_rows(&r2).unwrap();
    let g = try_groups_servers_from_rows(&both).unwrap();
    assert_eq!(g.len(), g1.len() + g2.len());
    assert_eq!(g[0].id, g1[0].id);
    assert_eq!(g[0].servers.len(), g1[0].servers.len());
    assert_eq!(g[1].id, g2[0].id);
    assert_eq!(g[1].servers[0].id, g2[0].servers[0].id);
}

#[test]
fn adjacent_rows_give_distinct_groups() {
    let rows = vec![
        row(G1, None, "a", S1, "x", "h", 22),
        row(G1, None, "a", "", "", "", 0),
        row(G2, None, "b", S2, "y", "h", 22),
        row(G2, None, "b", S3, "z", "h", 22),
    ];
    let g = try_groups_servers_from_rows(&rows).unwrap();
    assert_eq!(g.len(), 2);
    assert_ne!(g[0].id, g[1].id);
    assert_eq!(g[0].servers.len(), 1);
    assert_eq!(g[1].servers.len(), 2);
    assert_eq!(g[1].servers[1].id, id(S3));
}
