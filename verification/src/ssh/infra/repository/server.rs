//! Server rows and their decoding.
use vstd::prelude::*;
use crate::ids::{id_to_string, parse_id, uuid_parse, uuid_text};
use crate::ssh::dtos::CreateServerDto;
use crate::ssh::domain::{server_views, Server, ServerView};

verus! {

/// A stored server row: `id`, `group_id`, `name`, `hostname`, `port`.
pub struct ServerRow {
    pub id: String,
    pub group_id: String,
    pub name: String,
    pub hostname: String,
    pub port: u32,
}

/// Both identifiers in a server row are valid.
pub open spec fn server_row_decodable(r: ServerRow) -> bool {
    uuid_parse(r.id@) is Some && uuid_parse(r.group_id@) is Some
}

/// The server that a row describes.
pub open spec fn server_of(r: ServerRow) -> ServerView {
    ServerView {
        id: uuid_parse(r.id@).unwrap(),
        group_id: uuid_parse(r.group_id@).unwrap(),
        name: r.name@,
        hostname: r.hostname@,
        port: r.port,
    }
}

/// Decodes a server from its row.
pub fn server_from_row(row: &ServerRow) -> (s: Server)
    requires
        server_row_decodable(*row),
    ensures
        s@ == server_of(*row),
{
    let id = match parse_id(row.id.as_str()) {
        Some(x) => x,
        None => {
            proof { assert(false); }
            0
        },
    };
    let group_id = match parse_id(row.group_id.as_str()) {
        Some(x) => x,
        None => {
            proof { assert(false); }
            0
        },
    };
    Server { id, group_id, name: row.name.clone(), hostname: row.hostname.clone(), port: row.port }
}

/// Decodes a server from its row, or `None` where an identifier is not valid.
pub fn try_server_from_row(row: &ServerRow) -> (s: Option<Server>)
    ensures
        s is Some <==> server_row_decodable(*row),
        s matches Some(x) ==> x@ == server_of(*row),
{
    if parse_id(row.id.as_str()).is_some() && parse_id(row.group_id.as_str()).is_some() {
        Some(server_from_row(row))
    } else {
        None
    }
}

/// Decodes every row into a server, in order, or `None` where some
/// identifier is not valid.
pub fn try_servers_from_rows(rows: &Vec<ServerRow>) -> (res: Option<Vec<Server>>)
    ensures
        res is Some <==> forall|i: int| 0 <= i < rows@.len() ==> server_row_decodable(#[trigger] rows@[i]),
        res matches Some(v) ==> server_views(v@) == rows@.map_values(|r: ServerRow| server_of(r)),
{
    let mut out: Vec<Server> = Vec::new();
    let mut i: usize = 0;
    while i < rows.len()
        invariant
            i <= rows.len(),
            forall|j: int| 0 <= j < i ==> server_row_decodable(#[trigger] rows@[j]),
            server_views(out@) == rows@.take(i as int).map_values(|r: ServerRow| server_of(r)),
        decreases rows.len() - i,
    {
        match try_server_from_row(&rows[i]) {
            Some(s) => {
                let ghost before = out@;
                out.push(s);
                assert(server_views(out@) =~= server_views(before).push(s@));
                assert(rows@.take(i + 1).map_values(|r: ServerRow| server_of(r)) =~= rows@.take(
                    i as int,
                ).map_values(|r: ServerRow| server_of(r)).push(server_of(rows@[i as int])));
            },
            None => {
                return None;
            },
        }
        i = i + 1;
    }
    assert(rows@.take(rows.len() as int) =~= rows@);
    Some(out)
}

/// `row` holds what inserting the server `dto` stores.
pub open spec fn stores_server(row: ServerRow, dto: CreateServerDto) -> bool {
    &&& row.id@ == uuid_text(dto.id)
    &&& uuid_parse(row.id@) == Some(dto.id)
    &&& row.group_id@ == uuid_text(dto.group_id)
    &&& uuid_parse(row.group_id@) == Some(dto.group_id)
    &&& row.name@ == dto.name@
    &&& row.hostname@ == dto.host@
    &&& row.port == dto.port
}

/// The values bound when a server is inserted, in column order.
pub fn server_insert_binds(dto: &CreateServerDto) -> (res: ServerRow)
    ensures
        stores_server(res, *dto),
{
    ServerRow {
        id: id_to_string(dto.id),
        group_id: id_to_string(dto.group_id),
        name: dto.name.clone(),
        hostname: dto.host.clone(),
        port: dto.port,
    }
}

/// A server row holding what inserting a server stores decodes to that server.
pub proof fn lemma_server_insert_roundtrip(row: ServerRow, dto: CreateServerDto)
    requires
        stores_server(row, dto),
    ensures
        server_row_decodable(row),
        server_of(row) == (ServerView {
            id: dto.id,
            group_id: dto.group_id,
            name: dto.name@,
            hostname: dto.host@,
            port: dto.port,
        }),
{
}

} // verus!
