//! Creating servers, and the SSH invocations that reach them.
use vstd::prelude::*;
use crate::error::Error;
use crate::ids::{id_to_string, is_v4_id, new_random_id, uuid_text};
use crate::ssh::domain::{Credentials, Server};
use crate::ssh::dtos;
use crate::text::{decimal, decimal_string, join, joined, texts, trim, trimmed};

verus! {

/// A server as the user describes it.
pub struct CreateServerDto {
    pub name: String,
    pub group_id: u128,
    pub host: String,
    pub port: u32,
}

/// Credentials as the user describes them.
pub struct CreateCredentialsDto {
    pub user: String,
    pub private_key: String,
    pub public_key: String,
}

/// The error given when a server is added to a group that does not exist.
pub open spec fn missing_group(e: Error, gid: u128) -> bool {
    e matches Error::Integrity(m) && m@ == "Group "@ + uuid_text(gid) + " does not exists"@
}

/// The record for a new server with a new random identifier, or an integrity
/// error when its group does not exist.
pub fn server_request(group_exists: bool, server_data: CreateServerDto) -> (res: Result<dtos::CreateServerDto, Error>)
    ensures
        group_exists ==> (res matches Ok(d) && {
            &&& d.name@ == server_data.name@
            &&& d.group_id == server_data.group_id
            &&& d.host@ == server_data.host@
            &&& d.port == server_data.port
            &&& is_v4_id(d.id)
        }),
        !group_exists ==> (res matches Err(e) && missing_group(e, server_data.group_id)),
{
    let server_id = new_random_id();
    if !group_exists {
        let msg = String::from_str("Group ").concat(id_to_string(server_data.group_id).as_str()).concat(
            " does not exists",
        );
        return Err(Error::Integrity(msg));
    }
    Ok(
        dtos::CreateServerDto {
            id: server_id,
            name: server_data.name,
            group_id: server_data.group_id,
            host: server_data.host,
            port: server_data.port,
        },
    )
}

/// The SSH destination `user@host`.
pub open spec fn destination(user: Seq<char>, host: Seq<char>) -> Seq<char> {
    user + "@"@ + host
}

/// The arguments of `ssh` for an interactive session with `server` as the
/// credentials' user, with the key file at `key_path`.
pub open spec fn connect_argv(server: Server, credentials: Credentials, key_path: Seq<char>) -> Seq<Seq<char>> {
    seq![
        destination(credentials.user@, server.hostname@),
        "-p"@,
        decimal(server.port as nat),
        "-i"@,
        trimmed(key_path),
    ]
}

/// The arguments of `ssh` for an interactive session.
pub fn connect_args(server: &Server, credentials: &Credentials, key_path: &str) -> (res: Vec<String>)
    ensures
        texts(res@) == connect_argv(*server, *credentials, key_path@),
{
    let mut args: Vec<String> = Vec::new();
    args.push(String::from_str(credentials.user.as_str()).concat("@").concat(server.hostname.as_str()));
    args.push(String::from_str("-p"));
    args.push(decimal_string(server.port));
    args.push(String::from_str("-i"));
    args.push(String::from_str(trim(key_path)));
    assert(texts(args@) =~= connect_argv(*server, *credentials, key_path@));
    args
}

/// The variable assignments put before the remote shell: joined by spaces and
/// trimmed, or nothing.
pub open spec fn variables_text(variables: Option<Seq<Seq<char>>>) -> Seq<char> {
    match variables {
        Some(v) => trimmed(joined(v, " "@)),
        None => seq![],
    }
}

/// The arguments of `ssh` that run a script, fed on standard input, on
/// `server` as `user`, with the given variables set.
pub open spec fn remote_argv(server: Server, user: Seq<char>, variables: Option<Seq<Seq<char>>>) -> Seq<Seq<char>> {
    seq![
        destination(user, server.hostname@),
        "-p"@,
        decimal(server.port as nat),
        variables_text(variables) + " bash -s"@,
    ]
}

/// The arguments of `ssh` that run a script remotely.
pub fn remote_args(server: &Server, user: &str, variables: &Option<Vec<String>>) -> (res: Vec<String>)
    ensures
        texts(res@) == remote_argv(
            *server,
            user@,
            match variables {
                Some(v) => Some(texts(v@)),
                None => None,
            },
        ),
{
    let train = match variables {
        Some(vars) => {
            let all = join(vars, " ");
            String::from_str(trim(all.as_str()))
        },
        None => String::new(),
    };
    let mut args: Vec<String> = Vec::new();
    args.push(String::from_str(user).concat("@").concat(server.hostname.as_str()));
    args.push(String::from_str("-p"));
    args.push(decimal_string(server.port));
    args.push(train.concat(" bash -s"));
    proof {
        let vs = match variables {
            Some(v) => Some(texts(v@)),
            None => None,
        };
        assert(texts(args@) =~= remote_argv(*server, user@, vs));
    }
    args
}

/// The error for a failed `ssh` invocation, with what it wrote on standard error.
pub open spec fn ssh_failure(e: Error, prefix: Seq<char>, stderr: Seq<char>) -> bool {
    e matches Error::Command { bin, message } && bin@ == "ssh"@ && message@ == prefix + stderr
}

/// The answer to an interactive session: nothing when `ssh` succeeded,
/// otherwise a command error quoting its standard error.
pub fn connect_outcome(success: bool, stderr: &str) -> (res: Result<(), Error>)
    ensures
        success ==> res is Ok,
        !success ==> (res matches Err(e) && ssh_failure(e, "stderr of remote connection is "@, stderr@)),
{
    if !success {
        return Err(
            Error::Command {
                bin: String::from_str("ssh"),
                message: String::from_str("stderr of remote connection is ").concat(stderr),
            },
        );
    }
    Ok(())
}

/// The answer to a remote script run: its standard output when `ssh`
/// succeeded, otherwise a command error quoting its standard error.
pub fn remote_outcome(success: bool, stdout: &str, stderr: &str) -> (res: Result<String, Error>)
    ensures
        success ==> (res matches Ok(out) && out@ == stdout@),
        !success ==> (res matches Err(e) && ssh_failure(e, "stderr of remote execution is "@, stderr@)),
{
    if !success {
        return Err(
            Error::Command {
                bin: String::from_str("ssh"),
                message: String::from_str("stderr of remote execution is ").concat(stderr),
            },
        );
    }
    Ok(String::from_str(stdout))
}

} // verus!
