//! Credentials rows and their decoding.
use vstd::prelude::*;
use crate::ids::{id_to_string, parse_id, uuid_parse, uuid_text};
use crate::ssh::dtos::CreateCredentialsDto;
use crate::ssh::domain::{credentials_views, Credentials, CredentialsView};

verus! {

/// A stored credentials row: `id`, `name`, `user`, `public_key`, `private_key`.
pub struct CredentialsRow {
    pub id: String,
    pub name: String,
    pub user: String,
    pub public_key: String,
    pub private_key: String,
}

/// The identifier in a credentials row is valid.
pub open spec fn credentials_row_decodable(r: CredentialsRow) -> bool {
    uuid_parse(r.id@) is Some
}

/// The credentials that a row describes.
pub open spec fn credentials_of(r: CredentialsRow) -> CredentialsView {
    CredentialsView {
        id: uuid_parse(r.id@).unwrap(),
        name: r.name@,
        user: r.user@,
        public: r.public_key@,
        private: r.private_key@,
    }
}

/// Decodes credentials from their row.
pub fn credentials_from_row(row: &CredentialsRow) -> (c: Credentials)
    requires
        credentials_row_decodable(*row),
    ensures
        c@ == credentials_of(*row),
{
    let id = match parse_id(row.id.as_str()) {
        Some(x) => x,
        None => {
            proof { assert(false); }
            0
        },
    };
    Credentials {
        id,
        name: row.name.clone(),
        user: row.user.clone(),
        public: row.public_key.clone(),
        private: row.private_key.clone(),
    }
}

/// Decodes credentials from their row, or `None` where the identifier is not valid.
pub fn try_credentials_from_row(row: &CredentialsRow) -> (c: Option<Credentials>)
    ensures
        c is Some <==> credentials_row_decodable(*row),
        c matches Some(x) ==> x@ == credentials_of(*row),
{
    if parse_id(row.id.as_str()).is_some() {
        Some(credentials_from_row(row))
    } else {
        None
    }
}

/// Decodes every row into credentials, in order, or `None` where some
/// identifier is not valid.
pub fn try_credentials_from_rows(rows: &Vec<CredentialsRow>) -> (res: Option<Vec<Credentials>>)
    ensures
        res is Some <==> forall|i: int| 0 <= i < rows@.len() ==> credentials_row_decodable(#[trigger] rows@[i]),
        res matches Some(v) ==> credentials_views(v@) == rows@.map_values(|r: CredentialsRow| credentials_of(r)),
{
    let mut out: Vec<Credentials> = Vec::new();
    let mut i: usize = 0;
    while i < rows.len()
        invariant
            i <= rows.len(),
            forall|j: int| 0 <= j < i ==> credentials_row_decodable(#[trigger] rows@[j]),
            credentials_views(out@) == rows@.take(i as int).map_values(|r: CredentialsRow| credentials_of(r)),
        decreases rows.len() - i,
    {
        match try_credentials_from_row(&rows[i]) {
            Some(c) => {
                let ghost before = out@;
                out.push(c);
                assert(credentials_views(out@) =~= credentials_views(before).push(c@));
                assert(rows@.take(i + 1).map_values(|r: CredentialsRow| credentials_of(r)) =~= rows@.take(
                    i as int,
                ).map_values(|r: CredentialsRow| credentials_of(r)).push(credentials_of(rows@[i as int])));
            },
            None => {
                return None;
            },
        }
        i = i + 1;
    }
    assert(rows@.take(rows.len() as int) =~= rows@);
    Some(out)
}

/// `row` holds what inserting the credentials `dto` stores.
pub open spec fn stores_credentials(row: CredentialsRow, dto: CreateCredentialsDto) -> bool {
    &&& row.id@ == uuid_text(dto.id)
    &&& uuid_parse(row.id@) == Some(dto.id)
    &&& row.name@ == dto.name@
    &&& row.user@ == dto.user@
    &&& row.public_key@ == dto.public@
    &&& row.private_key@ == dto.private@
}

/// The values bound when credentials are saved: the credentials row, then the
/// link (server identifier, credentials identifier) that ties them to their server.
pub fn credentials_insert_binds(dto: &CreateCredentialsDto) -> (res: (CredentialsRow, (String, String)))
    ensures
        stores_credentials(res.0, *dto),
        res.1.0@ == uuid_text(dto.server_id),
        res.1.1@ == uuid_text(dto.id),
{
    let row = CredentialsRow {
        id: id_to_string(dto.id),
        name: dto.name.clone(),
        user: dto.user.clone(),
        public_key: dto.public.clone(),
        private_key: dto.private.clone(),
    };
    (row, (id_to_string(dto.server_id), id_to_string(dto.id)))
}

/// A credentials row holding what saving credentials stores decodes to them.
pub proof fn lemma_credentials_insert_roundtrip(row: CredentialsRow, dto: CreateCredentialsDto)
    requires
        stores_credentials(row, dto),
    ensures
        credentials_row_decodable(row),
        credentials_of(row) == (CredentialsView {
            id: dto.id,
            name: dto.name@,
            user: dto.user@,
            public: dto.public@,
            private: dto.private@,
        }),
{
}

} // verus!
