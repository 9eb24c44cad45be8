use sshy::cli::menu::{credentials_menu, group_menu, on_group_choice, pick_credentials, GroupMenuAction};
use sshy::error::Error;
use sshy::path::FsPath;
use sshy::ssh::app::credentials::{
    credentials_after_keys, credentials_after_register, credentials_start, keygen_args, AppCredentialsDto,
    CredentialsStep,
};
use sshy::ssh::domain::{Credentials, Group, Server};
use sshy::ssh::dtos::CreateCredentialsDto;

fn server(name: &str) -> Server {
    Server { id: 1, group_id: 7, name: name.into(), hostname: "h".into(), port: 22 }
}

fn group(id: u128, parent: Option<u128>, name: &str, servers: Vec<Server>) -> Group {
    Group { id, parent_id: parent, name: name.into(), group: None, servers }
}

fn creds(name: &str, user: &str) -> Credentials {
    Credentials { id: 3, name: name.into(), user: user.into(), public: "".into(), private: "".into() }
}

fn is_v4(id: u128) -> bool {
    (id >> 76) & 0xf == 4 && (id >> 62) & 0x3 == 2
}

fn dto(public: Option<&str>, private: Option<&str>) -> AppCredentialsDto {
    AppCredentialsDto {
        name: "default".into(),
        user: "root".into(),
        server_id: 9,
        private_key: private.map(|s| s.into()),
        public_key: public.map(|s| s.into()),
    }
}

#[test]
fn top_level_menu() {
    let groups = vec![group(1, None, "prod", vec![]), group(2, None, "dev", vec![])];
    assert_eq!(group_menu(&groups, &None, "---"), vec!["☖ prod", "☖ dev", "---", "[+] Create group"]);
    assert_eq!(group_menu(&vec![], &None, "---"), vec!["[+] Create group"]);
}

#[test]
fn menu_inside_a_group() {
    let current = Some(group(7, Some(1), "prod", vec![server("web"), server("db")]));
    let sub = vec![group(8, Some(7), "eu", vec![])];
    assert_eq!(
        group_menu(&sub, &current, "---"),
        vec![
            "☖ eu",
            "☍ web",
            "☍ db",
            "---",
            "« Back",
            "[☉] Add server",
            "[+] Create group",
            "[.] Edit this group",
            "[-] Delete this group"
        ]
    );
    let empty = Some(group(9, None, "empty", vec![]));
    assert_eq!(group_menu(&vec![], &empty, "---")[0], "« Back");
}

#[test]
fn choices_in_the_group_menu() {
    let current = Some(group(7, Some(1), "prod", vec![server("web"), server("db")]));
    let sub = vec![group(8, Some(7), "eu", vec![]), group(9, Some(7), "eu", vec![])];
    assert_eq!(on_group_choice(&sub, &current, None), GroupMenuAction::Quit);
    assert_eq!(on_group_choice(&sub, &current, Some("« Back")), GroupMenuAction::Back(1));
    assert_eq!(on_group_choice(&sub, &current, Some("[☉] Add server")), GroupMenuAction::AddServer(7));
    assert_eq!(on_group_choice(&sub, &current, Some("[+] Create group")), GroupMenuAction::CreateGroup);
    assert_eq!(on_group_choice(&sub, &current, Some("[.] Edit this group")), GroupMenuAction::Nothing);
    assert_eq!(on_group_choice(&sub, &current, Some("☖ eu")), GroupMenuAction::Enter(0));
    assert_eq!(on_group_choice(&sub, &current, Some("☍ db")), GroupMenuAction::OpenServer(1));
    assert_eq!(on_group_choice(&sub, &current, Some("---")), GroupMenuAction::Nothing);
    let top_child = Some(group(7, None, "prod", vec![]));
    assert_eq!(on_group_choice(&sub, &top_child, Some("« Back")), GroupMenuAction::Top);
    assert_eq!(on_group_choice(&sub, &None, Some("« Back")), GroupMenuAction::Nothing);
    assert_eq!(on_group_choice(&sub, &None, Some("☖ eu")), GroupMenuAction::Enter(0));
}

#[test]
fn picking_credentials() {
    assert!(credentials_menu(&vec![]).is_none());
    let cs = vec![creds("a", "root"), creds("b", "deploy"), creds("a", "root")];
    assert_eq!(credentials_menu(&cs).unwrap(), vec!["• a (root)", "• b (deploy)", "• a (root)"]);
    assert_eq!(pick_credentials(&cs, "• b (deploy)"), Some(1));
    assert_eq!(pick_credentials(&cs, "• a (root)"), Some(0));
    assert_eq!(pick_credentials(&cs, "• c (root)"), None);
}

#[test]
fn keygen_arguments() {
    let private = FsPath { bytes: b"/k/id".to_vec() };
    let args: Vec<Vec<u8>> = keygen_args(&private, "s3cret").into_iter().map(|a| a.bytes).collect();
    let expected: Vec<Vec<u8>> =
        vec![b"-f".to_vec(), b"/k/id".to_vec(), b"-t".to_vec(), b"ed25519".to_vec(), b"-N".to_vec(), b"s3cret".to_vec()];
    assert_eq!(args, expected);
}

#[test]
fn credentials_creation_steps() {
    match credentials_start(&dto(None, Some("priv"))) {
        CredentialsStep::GenerateKeys(id) => assert!(is_v4(id)),
        _ => panic!("expected key generation"),
    }
    match credentials_start(&dto(Some("ssh-ed25519 K\n"), Some("priv"))) {
        CredentialsStep::Register(d, vars) => {
            assert!(is_v4(d.id));
            assert_eq!((d.server_id, d.name.as_str(), d.user.as_str()), (9, "default", "root"));
            assert_eq!((d.public.as_str(), d.private.as_str()), ("ssh-ed25519 K\n", "priv"));
            assert_eq!(vars, vec!["PUBKEY='ssh-ed25519 K'"]);
        },
        _ => panic!("expected registration"),
    }
    match credentials_after_keys(5, &dto(None, None), Ok(("P".into(), "Q".into()))) {
        CredentialsStep::Register(d, vars) => {
            assert_eq!((d.id, d.public.as_str(), d.private.as_str()), (5, "P", "Q"));
            assert_eq!(vars, vec!["PUBKEY='P'"]);
        },
        _ => panic!("expected registration"),
    }
    match credentials_after_keys(5, &dto(None, None), Err(Error::Internal("no keygen".into()))) {
        CredentialsStep::Fail(Error::Internal(m)) => assert_eq!(m, "no keygen"),
        _ => panic!("expected failure"),
    }
    let record = CreateCredentialsDto {
        id: 5,
        name: "n".into(),
        server_id: 9,
        user: "u".into(),
        public: "P".into(),
        private: "Q".into(),
    };
    match credentials_after_register(record, Ok("".into())) {
        CredentialsStep::Save(d) => assert_eq!(d.id, 5),
        _ => panic!("expected saving"),
    }
    let record = CreateCredentialsDto { id: 6, name: "".into(), server_id: 0, user: "".into(), public: "".into(), private: "".into() };
    match credentials_after_register(record, Err(Error::Command { bin: "ssh".into(), message: "x".into() })) {
        CredentialsStep::Fail(e) => assert_eq!(e.describe(), "[command error] ssh: x"),
        _ => panic!("expected failure"),
    }
}
