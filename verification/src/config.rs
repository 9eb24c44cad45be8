//! Where the manager keeps its settings, and the settings themselves: the
//! database file and the directory of SSH keys.
use vstd::prelude::*;
use vstd::utf8::{decode_utf8, encode_utf8, valid_utf8};
use crate::error::Error;
use crate::path::{path_join_str, path_text, FsPath};

verus! {

/// The name of the settings file inside the settings directory.
pub const CONFIG_FILE: &'static str = ".sshy.json";

/// The name of the manager's directory inside the user's configuration directory.
pub const CONFIG_DIR_NAME: &'static str = "sshy";

/// The settings in use: the database file and the SSH directory.
pub struct Config {
    pub db_name: FsPath,
    pub ssh_path: FsPath,
}

/// Settings as plain values.
pub struct ConfigView {
    pub db_name: Seq<u8>,
    pub ssh_path: Seq<u8>,
}

impl View for Config {
    type V = ConfigView;

    open spec fn view(&self) -> ConfigView {
        ConfigView { db_name: self.db_name@, ssh_path: self.ssh_path@ }
    }
}

/// The settings as text, as given by the user and as stored in the settings file.
pub struct CreateConfigDto {
    pub db_name: String,
    pub ssh_path: String,
}

/// Stored settings as plain values.
pub struct ConfigDtoView {
    pub db_name: Seq<char>,
    pub ssh_path: Seq<char>,
}

impl View for CreateConfigDto {
    type V = ConfigDtoView;

    open spec fn view(&self) -> ConfigDtoView {
        ConfigDtoView { db_name: self.db_name@, ssh_path: self.ssh_path@ }
    }
}

/// The error given when the user's configuration directory is unknown.
pub open spec fn no_config_dir(e: Error) -> bool {
    e matches Error::FsError(m) && m@ == "could not determine config dir"@
}

/// The manager's settings directory under a configuration directory.
pub open spec fn config_dir_of(base: Seq<u8>) -> Seq<u8> {
    path_join_str(base, CONFIG_DIR_NAME@)
}

/// The settings file under a configuration directory.
pub open spec fn config_file_of(base: Seq<u8>) -> Seq<u8> {
    path_join_str(config_dir_of(base), CONFIG_FILE@)
}

/// Calls `dirs::config_dir`, which looks the user's configuration directory
/// up in the environment, so which directory it answers is left open. What
/// is claimed holds of every answer on Unix, whose paths this library models:
/// a directory it gives is never the empty path, being either an absolute
/// `$XDG_CONFIG_HOME` or a non-empty home directory with `.config` (on macOS
/// `Library/Application Support`) appended.
#[verifier::external_body]
fn user_config_dir() -> (res: Option<FsPath>)
    ensures
        res matches Some(p) ==> p@.len() > 0,
{
    match dirs::config_dir() {
        Some(p) => Some(FsPath { bytes: p.into_os_string().into_encoded_bytes() }),
        None => None,
    }
}

/// The manager's settings directory, given the user's configuration directory.
pub fn config_dir_from(base: Option<FsPath>) -> (res: Result<FsPath, Error>)
    ensures
        match base {
            Some(b) => res matches Ok(p) && p@ == config_dir_of(b@),
            None => res matches Err(e) && no_config_dir(e),
        },
{
    match base {
        Some(mut p) => {
            p.push(CONFIG_DIR_NAME);
            Ok(p)
        },
        None => Err(Error::FsError(String::from_str("could not determine config dir"))),
    }
}

/// The manager's settings directory, under the user's configuration directory.
pub fn get_config_dir() -> (res: Result<FsPath, Error>)
    ensures
        res matches Ok(p) ==> exists|b: Seq<u8>| p@ == config_dir_of(b),
        res matches Ok(p) ==> exists|b: Seq<u8>| b.len() > 0 && p@ == config_dir_of(b),
        res matches Ok(p) ==> p@ != encode_utf8(CONFIG_DIR_NAME@),
        res matches Err(e) ==> no_config_dir(e),
{
    let base = user_config_dir();
    let ghost b = match &base {
        Some(x) => x@,
        None => Seq::<u8>::empty(),
    };
    let res = config_dir_from(base);
    proof {
        if res is Ok {
            lemma_config_paths_under_base(b);
        }
    }
    assert(res matches Ok(p) ==> p@ == config_dir_of(b) && b.len() > 0);
    res
}

/// The settings file, given the user's configuration directory.
pub fn config_file_from(base: Option<FsPath>) -> (res: Result<FsPath, Error>)
    ensures
        match base {
            Some(b) => res matches Ok(p) && p@ == config_file_of(b@),
            None => res matches Err(e) && no_config_dir(e),
        },
{
    match config_dir_from(base) {
        Ok(mut p) => {
            p.push(CONFIG_FILE);
            Ok(p)
        },
        Err(e) => Err(e),
    }
}

/// The settings file, under the user's configuration directory.
pub fn get_config_file() -> (res: Result<FsPath, Error>)
    ensures
        res matches Ok(p) ==> exists|b: Seq<u8>| p@ == config_file_of(b),
        res matches Ok(p) ==> exists|b: Seq<u8>| b.len() > 0 && p@ == config_file_of(b),
        res matches Ok(p) ==> p@ != path_join_str(encode_utf8(CONFIG_DIR_NAME@), CONFIG_FILE@),
        res matches Err(e) ==> no_config_dir(e),
{
    let base = user_config_dir();
    let ghost b = match &base {
        Some(x) => x@,
        None => Seq::<u8>::empty(),
    };
    let res = config_file_from(base);
    proof {
        if res is Ok {
            lemma_config_paths_under_base(b);
        }
    }
    assert(res matches Ok(p) ==> p@ == config_file_of(b) && b.len() > 0);
    res
}

/// The settings directory lies inside the configuration directory it is made
/// from, one level down, and the settings file inside the settings directory:
/// under a non-empty configuration directory neither is the bare name of the
/// manager's directory, which would be read relative to the working directory.
pub proof fn lemma_config_paths_under_base(b: Seq<u8>)
    requires
        b.len() > 0,
    ensures
        config_dir_of(b).len() > b.len(),
        config_dir_of(b).subrange(0, b.len() as int) == b,
        config_file_of(b).len() > config_dir_of(b).len(),
        config_file_of(b).subrange(0, config_dir_of(b).len() as int) == config_dir_of(b),
        config_dir_of(b) != encode_utf8(CONFIG_DIR_NAME@),
        config_file_of(b) != path_join_str(encode_utf8(CONFIG_DIR_NAME@), CONFIG_FILE@),
{
    reveal_strlit("sshy");
    reveal_strlit(".sshy.json");
    let d = encode_utf8(CONFIG_DIR_NAME@);
    let f = encode_utf8(CONFIG_FILE@);
    reveal_with_fuel(encode_utf8, 11);
    assert(CONFIG_DIR_NAME@ =~= seq!['s', 's', 'h', 'y']);
    assert(CONFIG_FILE@ =~= seq!['.', 's', 's', 'h', 'y', '.', 'j', 's', 'o', 'n']);
    assert(('s' as u32) == 0x73u32 && ('.' as u32) == 0x2eu32 && ('y' as u32) == 0x79u32);
    assert((0x73u32 & 0x7Fu32) as u8 == 0x73u8) by (bit_vector);
    assert((0x79u32 & 0x7Fu32) as u8 == 0x79u8) by (bit_vector);
    assert((0x2eu32 & 0x7Fu32) as u8 == 0x2eu8) by (bit_vector);
    assert(d.len() == 4 && d[0] == 0x73u8 && d[3] == 0x79u8);
    assert(f.len() == 10 && f[0] == 0x2eu8);
    let dir = config_dir_of(b);
    assert(dir.subrange(0, b.len() as int) =~= b);
    assert(dir.len() >= b.len() + 4);
    assert(config_file_of(b).subrange(0, dir.len() as int) =~= dir);
    let bare = path_join_str(d, CONFIG_FILE@);
    assert(bare.len() == 15);
}

/// The settings read back from their stored text: each text is taken as a path.
pub open spec fn config_of_dto(d: ConfigDtoView) -> ConfigView {
    ConfigView { db_name: encode_utf8(d.db_name), ssh_path: encode_utf8(d.ssh_path) }
}

/// What creating the settings in the directory `dir` from the user's answers
/// yields: the text to store (the database moved into `dir`) and the settings
/// in use; nothing when the database path in `dir` is not valid UTF-8.
pub open spec fn planned_config(dir: Seq<u8>, d: ConfigDtoView) -> Option<(ConfigDtoView, ConfigView)> {
    let db = path_join_str(dir, d.db_name);
    if valid_utf8(db) {
        Some(
            (
                ConfigDtoView { db_name: path_text(db), ssh_path: d.ssh_path },
                ConfigView { db_name: db, ssh_path: encode_utf8(d.ssh_path) },
            ),
        )
    } else {
        None
    }
}

/// The settings to store and to use, once created.
pub struct ConfigPlan {
    pub stored: CreateConfigDto,
    pub config: Config,
}

impl Config {
    /// Creates the settings in the directory `config_dir` from the user's
    /// answers: the database file goes into `config_dir`, the SSH directory is
    /// kept as given. `None` when the database path is not valid UTF-8.
    pub fn plan_create(config_dir: &FsPath, dto: &CreateConfigDto) -> (res: Option<ConfigPlan>)
        ensures
            match planned_config(config_dir@, dto@) {
                Some(pc) => res matches Some(p) && p.stored@ == pc.0 && p.config@ == pc.1,
                None => res is None,
            },
    {
        let db_file = config_dir.join(dto.db_name.as_str());
        match db_file.to_text() {
            Some(db_text) => {
                let stored = CreateConfigDto { ssh_path: dto.ssh_path.clone(), db_name: db_text };
                let config = Config { db_name: db_file, ssh_path: FsPath::from_text(dto.ssh_path.as_str()) };
                Some(ConfigPlan { stored, config })
            },
            None => None,
        }
    }

    /// The settings that a stored text describes.
    pub fn from_dto(dto: &CreateConfigDto) -> (res: Config)
        ensures
            res@ == config_of_dto(dto@),
    {
        Config {
            db_name: FsPath::from_text(dto.db_name.as_str()),
            ssh_path: FsPath::from_text(dto.ssh_path.as_str()),
        }
    }
}

/// Reading back the settings that creating them stores gives the settings
/// that creating them put in use.
pub proof fn lemma_config_roundtrip(dir: Seq<u8>, d: ConfigDtoView)
    requires
        planned_config(dir, d) is Some,
    ensures
        config_of_dto(planned_config(dir, d).unwrap().0) == planned_config(dir, d).unwrap().1,
{
    let db = path_join_str(dir, d.db_name);
    vstd::utf8::decode_utf8_encode_utf8(db);
    assert(encode_utf8(decode_utf8(db)) == db);
}

} // verus!
