//! Credentials: which key pair to use or generate, where key files live, and
//! what is registered on the server.
use vstd::prelude::*;
use vstd::utf8::encode_utf8;
use crate::error::Error;
use crate::ids::{id_to_string, is_v4_id, new_random_id, uuid_text};
use crate::path::{path_join_str, FsPath};
use crate::ssh::domain::Credentials;
use crate::ssh::dtos::CreateCredentialsDto;
use crate::text::{texts, trim, trimmed};

verus! {

/// Credentials as the user describes them, for a server.
pub struct AppCredentialsDto {
    pub name: String,
    pub user: String,
    pub server_id: u128,
    pub private_key: Option<String>,
    pub public_key: Option<String>,
}

/// The name of the directory, inside the SSH directory, that holds the
/// generated keys.
pub const KEYS_DIR: &'static str = "sshy_keys";

/// The directory of generated keys under an SSH directory.
pub open spec fn keys_dir_of(ssh_path: Seq<u8>) -> Seq<u8> {
    path_join_str(ssh_path, KEYS_DIR@)
}

/// The private key file of the key pair with identifier `id`.
pub open spec fn private_key_of(ssh_path: Seq<u8>, id: u128) -> Seq<u8> {
    path_join_str(keys_dir_of(ssh_path), uuid_text(id))
}

/// The public key file of the key pair with identifier `id`: the private key
/// file with the extension `pub` (the file name, an identifier's text, has no dot).
pub open spec fn public_key_of(ssh_path: Seq<u8>, id: u128) -> Seq<u8> {
    private_key_of(ssh_path, id) + encode_utf8(".pub"@)
}

/// The directory of generated keys under the SSH directory.
pub fn get_keys_path(ssh_path: &FsPath) -> (res: FsPath)
    ensures
        res@ == keys_dir_of(ssh_path@),
{
    ssh_path.join(KEYS_DIR)
}

/// The private and public key files for the key pair with identifier `id`.
pub fn key_file_paths(ssh_path: &FsPath, id: u128) -> (res: (FsPath, FsPath))
    ensures
        res.0@ == private_key_of(ssh_path@, id),
        res.1@ == public_key_of(ssh_path@, id),
{
    let mut private_key = get_keys_path(ssh_path);
    private_key.push(id_to_string(id).as_str());
    let public_key = private_key.with_suffix(".pub");
    (private_key, public_key)
}

/// The private key file that connecting with `credentials` uses.
pub fn private_key_path(ssh_path: &FsPath, credentials: &Credentials) -> (res: FsPath)
    ensures
        res@ == private_key_of(ssh_path@, credentials.id),
{
    let mut key_path = get_keys_path(ssh_path);
    key_path.push(id_to_string(credentials.id).as_str());
    key_path
}

/// The key text the user supplied, or the empty text.
pub open spec fn given_key(k: Option<String>) -> Seq<char> {
    match k {
        Some(s) => s@,
        None => seq![],
    }
}

/// The user's (public, private) key pair when both keys were supplied and
/// are not empty; `None` when a pair must be generated.
pub fn provided_keys(data: &AppCredentialsDto) -> (res: Option<(String, String)>)
    ensures
        res is Some <==> (given_key(data.public_key).len() > 0 && given_key(data.private_key).len() > 0),
        res matches Some(k) ==> k.0@ == given_key(data.public_key) && k.1@ == given_key(data.private_key),
{
    let public_key = match &data.public_key {
        Some(p) => p.clone(),
        None => String::new(),
    };
    let private_key = match &data.private_key {
        Some(p) => p.clone(),
        None => String::new(),
    };
    if private_key.as_str().is_empty() || public_key.as_str().is_empty() {
        None
    } else {
        Some((public_key, private_key))
    }
}

/// A new key pair identifier, and the keys to use if the user supplied both.
pub struct CredentialsPlan {
    pub id: u128,
    pub keys: Option<(String, String)>,
}

/// Picks a new random identifier for the credentials and decides whether a
/// key pair must be generated.
pub fn plan_credentials(data: &AppCredentialsDto) -> (res: CredentialsPlan)
    ensures
        is_v4_id(res.id),
        res.keys is Some <==> (given_key(data.public_key).len() > 0 && given_key(data.private_key).len() > 0),
        res.keys matches Some(k) ==> k.0@ == given_key(data.public_key) && k.1@ == given_key(data.private_key),
{
    let id = new_random_id();
    CredentialsPlan { id, keys: provided_keys(data) }
}

/// The credentials record to store.
pub fn credentials_request(id: u128, data: &AppCredentialsDto, public: String, private: String) -> (res:
    CreateCredentialsDto)
    ensures
        res.id == id,
        res.server_id == data.server_id,
        res.name@ == data.name@,
        res.user@ == data.user@,
        res.public@ == public@,
        res.private@ == private@,
{
    CreateCredentialsDto {
        id,
        server_id: data.server_id,
        name: data.name.clone(),
        user: data.user.clone(),
        public,
        private,
    }
}

/// The variable assignment that hands the public key to the registering script.
pub open spec fn pubkey_assignment(public: Seq<char>) -> Seq<char> {
    "PUBKEY='"@ + trimmed(public) + "'"@
}

/// The variables set for the script that registers a public key on the server.
pub fn register_key_variables(public: &str) -> (res: Vec<String>)
    ensures
        res@.len() == 1,
        res@[0]@ == pubkey_assignment(public@),
{
    let mut vars: Vec<String> = Vec::new();
    vars.push(String::from_str("PUBKEY='").concat(trim(public)).concat("'"));
    vars
}

/// The answer to running `ssh-keygen`: nothing on success, otherwise a command
/// error quoting its standard error.
pub fn keygen_outcome(success: bool, stderr: &str) -> (res: Result<(), Error>)
    ensures
        success ==> res is Ok,
        !success ==> (res matches Err(Error::Command { bin, message }) && bin@ == "ssh-key"@ && message@ == stderr@),
{
    if !success {
        return Err(Error::Command { bin: String::from_str("ssh-key"), message: String::from_str(stderr) });
    }
    Ok(())
}


/// The arguments of `ssh-keygen` that write an ed25519 key pair, protected by
/// `password`, to the private key file and its `.pub` companion.
pub open spec fn keygen_argv(private: Seq<u8>, password: Seq<char>) -> Seq<Seq<u8>> {
    seq![
        encode_utf8("-f"@),
        private,
        encode_utf8("-t"@),
        encode_utf8("ed25519"@),
        encode_utf8("-N"@),
        encode_utf8(password),
    ]
}

/// The views of a list of paths (here: program arguments as bytes).
pub open spec fn byte_strings(v: Seq<FsPath>) -> Seq<Seq<u8>> {
    v.map_values(|p: FsPath| p@)
}

/// The arguments of `ssh-keygen`, each as the bytes handed to the program.
pub fn keygen_args(private: &FsPath, password: &str) -> (res: Vec<FsPath>)
    ensures
        byte_strings(res@) == keygen_argv(private@, password@),
{
    let mut args: Vec<FsPath> = Vec::new();
    args.push(FsPath::from_text("-f"));
    args.push(private.duplicate());
    args.push(FsPath::from_text("-t"));
    args.push(FsPath::from_text("ed25519"));
    args.push(FsPath::from_text("-N"));
    args.push(FsPath::from_text(password));
    assert(byte_strings(args@) =~= keygen_argv(private@, password@));
    args
}

/// The next step in creating credentials for a server.
pub enum CredentialsStep {
    /// Generate a key pair for the credentials with this identifier.
    GenerateKeys(u128),
    /// Run the key-registering script on the server, as the record's user,
    /// with these variables; the record is stored only afterwards.
    Register(CreateCredentialsDto, Vec<String>),
    /// Store the record.
    Save(CreateCredentialsDto),
    /// Stop with this error; nothing is stored.
    Fail(Error),
}

/// `dto` is the record for the user's credentials `data` with identifier
/// `id` and the given key pair.
pub open spec fn record_for(dto: CreateCredentialsDto, data: AppCredentialsDto, id: u128, public: Seq<char>, private: Seq<char>) -> bool {
    &&& dto.id == id
    &&& dto.server_id == data.server_id
    &&& dto.name@ == data.name@
    &&& dto.user@ == data.user@
    &&& dto.public@ == public
    &&& dto.private@ == private
}

/// The registering step for a record: its public key handed to the script.
pub open spec fn registers(step: CredentialsStep, data: AppCredentialsDto, id: u128, public: Seq<char>, private: Seq<char>) -> bool {
    &&& step matches CredentialsStep::Register(dto, vars)
    &&& record_for(dto, data, id, public, private)
    &&& texts(vars@) == seq![pubkey_assignment(public)]
}

fn register_step(id: u128, data: &AppCredentialsDto, public: String, private: String) -> (res: CredentialsStep)
    ensures
        registers(res, *data, id, public@, private@),
{
    let variables = register_key_variables(public.as_str());
    let dto = credentials_request(id, data, public, private);
    assert(texts(variables@) =~= seq![pubkey_assignment(dto.public@)]);
    CredentialsStep::Register(dto, variables)
}

/// The first step in creating credentials: with a new random identifier,
/// register the user's keys if both were given, otherwise generate a pair.
pub fn credentials_start(data: &AppCredentialsDto) -> (res: CredentialsStep)
    ensures
        (given_key(data.public_key).len() > 0 && given_key(data.private_key).len() > 0) ==> (res matches CredentialsStep::Register(dto, _) && {
            &&& is_v4_id(dto.id)
            &&& registers(res, *data, dto.id, given_key(data.public_key), given_key(data.private_key))
        }),
        !(given_key(data.public_key).len() > 0 && given_key(data.private_key).len() > 0) ==> (res matches CredentialsStep::GenerateKeys(id) && is_v4_id(id)),
{
    let plan = plan_credentials(data);
    match plan.keys {
        Some(keys) => register_step(plan.id, data, keys.0, keys.1),
        None => CredentialsStep::GenerateKeys(plan.id),
    }
}

/// The step after generating the key pair `(public, private)` for the
/// credentials with identifier `id`: register it, or stop on the error.
pub fn credentials_after_keys(id: u128, data: &AppCredentialsDto, keys: Result<(String, String), Error>) -> (res: CredentialsStep)
    ensures
        match keys {
            Ok(k) => registers(res, *data, id, k.0@, k.1@),
            Err(e) => res == CredentialsStep::Fail(e),
        },
{
    match keys {
        Ok(k) => register_step(id, data, k.0, k.1),
        Err(e) => CredentialsStep::Fail(e),
    }
}

/// The step after running the registering script: store the record, or stop
/// on the error without storing it.
pub fn credentials_after_register(dto: CreateCredentialsDto, registered: Result<String, Error>) -> (res: CredentialsStep)
    ensures
        match registered {
            Ok(_) => res == CredentialsStep::Save(dto),
            Err(e) => res == CredentialsStep::Fail(e),
        },
{
    match registered {
        Ok(_) => CredentialsStep::Save(dto),
        Err(e) => CredentialsStep::Fail(e),
    }
}

} // verus!
