use sshy::config::{config_dir_from, config_file_from, get_config_dir, get_config_file, Config, CreateConfigDto};
use sshy::error::Error;
use sshy::path::FsPath;
use sshy::ssh::app::credentials::{get_keys_path, key_file_paths, private_key_path};
use sshy::ssh::domain::Credentials;
use sshy::ssh::infra::repository::get_db_name;
use sshy::text::{decimal_string, join};

fn p(s: &str) -> FsPath {
    FsPath { bytes: s.as_bytes().to_vec() }
}

fn text(f: &FsPath) -> String {
    String::from_utf8(f.bytes.clone()).unwrap()
}

#[test]
fn decimal_numerals() {
    assert_eq!(decimal_string(0), "0");
    assert_eq!(decimal_string(7), "7");
    assert_eq!(decimal_string(22), "22");
    assert_eq!(decimal_string(8080), "8080");
    assert_eq!(decimal_string(u32::MAX), "4294967295");
}

#[test]
fn join_with_separator() {
    let parts = vec!["a".to_string(), "b c".to_string(), "".to_string(), "d".to_string()];
    assert_eq!(join(&parts, " "), "a b c  d");
    assert_eq!(join(&vec![], " "), "");
    assert_eq!(join(&vec!["x".to_string()], ", "), "x");
}

#[test]
fn path_push_adds_separator_when_needed() {
    let mut a = p("/home/u");
    a.push("sshy");
    assert_eq!(text(&a), "/home/u/sshy");
    let mut b = p("/home/u/");
    b.push("sshy");
    assert_eq!(text(&b), "/home/u/sshy");
    let mut c = p("");
    c.push("sshy");
    assert_eq!(text(&c), "sshy");
}

#[test]
fn path_push_absolute_replaces() {
    let mut a = p("/home/u/.config/sshy");
    a.push("/tmp/other.db");
    assert_eq!(text(&a), "/tmp/other.db");
}

#[test]
fn path_to_text_rejects_invalid_utf8() {
    let bad = FsPath { bytes: vec![0x2f, 0xff, 0x61] };
    assert!(bad.to_text().is_none());
    assert_eq!(p("/tmp/é").to_text().unwrap(), "/tmp/é");
}

#[test]
fn db_name_is_sqlite_url() {
    assert_eq!(get_db_name(&p("/home/u/.config/sshy/sshy.db")).unwrap(), "sqlite:///home/u/.config/sshy/sshy.db");
    match get_db_name(&FsPath { bytes: vec![0xff] }) {
        Err(Error::Internal(m)) => assert_eq!(m, "error trying to get name"),
        _ => panic!("expected an internal error"),
    }
}

#[test]
fn config_dir_and_file() {
    let dir = config_dir_from(Some(p("/home/u/.config"))).unwrap();
    assert_eq!(text(&dir), "/home/u/.config/sshy");
    let file = config_file_from(Some(p("/home/u/.config"))).unwrap();
    assert_eq!(text(&file), "/home/u/.config/sshy/.sshy.json");
    match config_dir_from(None) {
        Err(e) => assert_eq!(e.describe(), "[file-system] could not determine config dir"),
        Ok(_) => panic!("expected an error"),
    }
    assert!(config_file_from(None).is_err());
}

#[test]
fn config_creation_and_read_back() {
    let dto = CreateConfigDto { db_name: "sshy.db".to_string(), ssh_path: "/home/u/.ssh".to_string() };
    let plan = Config::plan_create(&p("/home/u/.config/sshy"), &dto).unwrap();
    assert_eq!(plan.stored.db_name, "/home/u/.config/sshy/sshy.db");
    assert_eq!(plan.stored.ssh_path, "/home/u/.ssh");
    assert_eq!(text(&plan.config.db_name), "/home/u/.config/sshy/sshy.db");
    assert_eq!(text(&plan.config.ssh_path), "/home/u/.ssh");
    let back = Config::from_dto(&plan.stored);
    assert_eq!(back.db_name.bytes, plan.config.db_name.bytes);
    assert_eq!(back.ssh_path.bytes, plan.config.ssh_path.bytes);
}

#[test]
fn config_creation_refuses_non_utf8_dir() {
    let dto = CreateConfigDto { db_name: "sshy.db".to_string(), ssh_path: "/home/u/.ssh".to_string() };
    assert!(Config::plan_create(&FsPath { bytes: vec![0x2f, 0xfe] }, &dto).is_none());
}

#[test]
fn key_files_live_under_ssh_dir() {
    assert_eq!(text(&get_keys_path(&p("/home/u/.ssh"))), "/home/u/.ssh/sshy_keys");
    let id: u128 = 0xa1a2a3a4b1b2c1c2d1d2d3d4d5d6d7d8;
    let (private, public) = key_file_paths(&p("/home/u/.ssh"), id);
    assert_eq!(text(&private), "/home/u/.ssh/sshy_keys/a1a2a3a4-b1b2-c1c2-d1d2-d3d4d5d6d7d8");
    assert_eq!(text(&public), "/home/u/.ssh/sshy_keys/a1a2a3a4-b1b2-c1c2-d1d2-d3d4d5d6d7d8.pub");
    let c = Credentials { id, name: "n".into(), user: "root".into(), public: "".into(), private: "".into() };
    assert_eq!(private_key_path(&p("/home/u/.ssh"), &c).bytes, private.bytes);
}

#[test]
fn error_descriptions() {
    assert_eq!(Error::DB("locked".into()).describe(), "[database] locked");
    assert_eq!(Error::InputCli("x".into()).describe(), "[input-cli] x");
    assert_eq!(Error::Internal("y".into()).describe(), "[internal] y");
    assert_eq!(Error::Integrity("z".into()).describe(), "[integrity] z");
    assert_eq!(
        Error::Command { bin: "ssh".into(), message: "boom".into() }.describe(),
        "[command error] ssh: boom"
    );
}

#[test]
fn settings_file_sits_in_the_settings_dir() {
    match (get_config_dir(), get_config_file()) {
        (Ok(dir), Ok(file)) => {
            assert!(text(&dir).ends_with("/sshy") || text(&dir) == "sshy");
            assert_eq!(text(&file), format!("{}/.sshy.json", text(&dir)));
        },
        (Err(a), Err(b)) => {
            assert_eq!(a.describe(), "[file-system] could not determine config dir");
            assert_eq!(b.describe(), a.describe());
        },
        _ => panic!("the configuration directory changed between two lookups"),
    }
}
