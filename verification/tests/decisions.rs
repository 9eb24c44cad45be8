use sshy::error::Error;
use sshy::ssh::app::credentials::{
    credentials_request, keygen_outcome, plan_credentials, provided_keys, register_key_variables, AppCredentialsDto,
};
use sshy::ssh::app::group::{new_group_request, parent_id};
use sshy::ssh::app::server::{connect_args, connect_outcome, remote_args, remote_outcome, server_request, CreateServerDto};
use sshy::ssh::domain::{Credentials, Group, Server};

fn is_v4(id: u128) -> bool {
    (id >> 76) & 0xf == 4 && (id >> 62) & 0x3 == 2
}

fn srv() -> Server {
    Server { id: 1, group_id: 2, name: "web".into(), hostname: "example.org".into(), port: 2222 }
}

fn app_dto(public: Option<&str>, private: Option<&str>) -> AppCredentialsDto {
    AppCredentialsDto {
        name: "default".into(),
        user: "root".into(),
        server_id: 9,
        private_key: private.map(|s| s.to_string()),
        public_key: public.map(|s| s.to_string()),
    }
}

#[test]
fn new_groups_get_fresh_ids_under_their_parent() {
    let parent = Some(Group { id: 77, parent_id: None, name: "p".into(), group: None, servers: vec![] });
    let a = new_group_request("child", &parent);
    assert_eq!(a.name, "child");
    assert_eq!(a.parent_id, Some(77));
    assert!(is_v4(a.id));
    let b = new_group_request("top", &None);
    assert_eq!(b.parent_id, None);
    assert_ne!(a.id, b.id);
    assert_eq!(parent_id(&parent), Some(77));
    assert_eq!(parent_id(&None), None);
}

#[test]
fn server_needs_an_existing_group() {
    let data = CreateServerDto { name: "web".into(), group_id: 0x550e8400e29b41d4a716446655440000, host: "h".into(), port: 22 };
    match server_request(false, data) {
        Err(Error::Integrity(m)) => assert_eq!(m, "Group 550e8400-e29b-41d4-a716-446655440000 does not exists"),
        _ => panic!("expected an integrity error"),
    }
    let data = CreateServerDto { name: "web".into(), group_id: 5, host: "h".into(), port: 2200 };
    let dto = server_request(true, data).unwrap();
    assert_eq!((dto.name.as_str(), dto.group_id, dto.host.as_str(), dto.port), ("web", 5, "h", 2200));
    assert!(is_v4(dto.id));
}

#[test]
fn ssh_session_arguments() {
    let c = Credentials { id: 3, name: "n".into(), user: "deploy".into(), public: "".into(), private: "".into() };
    let args = connect_args(&srv(), &c, "  /home/u/.ssh/sshy_keys/k \n");
    assert_eq!(args, vec!["deploy@example.org", "-p", "2222", "-i", "/home/u/.ssh/sshy_keys/k"]);
}

#[test]
fn remote_script_arguments() {
    let vars = Some(vec!["A=1".to_string(), "B=2 ".to_string()]);
    assert_eq!(remote_args(&srv(), "root", &vars), vec!["root@example.org", "-p", "2222", "A=1 B=2 bash -s"]);
    assert_eq!(remote_args(&srv(), "root", &None), vec!["root@example.org", "-p", "2222", " bash -s"]);
}

#[test]
fn ssh_outcomes() {
    assert!(connect_outcome(true, "ignored").is_ok());
    match connect_outcome(false, "refused") {
        Err(Error::Command { bin, message }) => {
            assert_eq!(bin, "ssh");
            assert_eq!(message, "stderr of remote connection is refused");
        },
        _ => panic!("expected a command error"),
    }
    assert_eq!(remote_outcome(true, "done\n", "").unwrap(), "done\n");
    match remote_outcome(false, "", "no route") {
        Err(e) => assert_eq!(e.describe(), "[command error] ssh: stderr of remote execution is no route"),
        Ok(_) => panic!("expected a command error"),
    }
    assert!(keygen_outcome(true, "").is_ok());
    match keygen_outcome(false, "bad passphrase") {
        Err(Error::Command { bin, message }) => {
            assert_eq!(bin, "ssh-key");
            assert_eq!(message, "bad passphrase");
        },
        _ => panic!("expected a command error"),
    }
}

#[test]
fn keys_are_generated_unless_both_given() {
    assert!(provided_keys(&app_dto(None, None)).is_none());
    assert!(provided_keys(&app_dto(Some("pub"), None)).is_none());
    assert!(provided_keys(&app_dto(Some(""), Some("priv"))).is_none());
    assert_eq!(provided_keys(&app_dto(Some("pub"), Some("priv"))), Some(("pub".to_string(), "priv".to_string())));
    let plan = plan_credentials(&app_dto(Some("pub"), Some("priv")));
    assert!(is_v4(plan.id));
    assert_eq!(plan.keys, Some(("pub".to_string(), "priv".to_string())));
}

#[test]
fn credentials_record_and_registration() {
    let d = app_dto(None, None);
    let r = credentials_request(42, &d, "P".into(), "Q".into());
    assert_eq!((r.id, r.server_id, r.name.as_str(), r.user.as_str(), r.public.as_str(), r.private.as_str()), (42, 9, "default", "root", "P", "Q"));
    assert_eq!(register_key_variables("ssh-ed25519 AAAA me@host\n"), vec!["PUBKEY='ssh-ed25519 AAAA me@host'"]);
}
