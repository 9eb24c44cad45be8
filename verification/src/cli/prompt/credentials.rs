//! How credentials are listed when choosing which to connect with.
use vstd::prelude::*;
use crate::ssh::domain::Credentials;

verus! {

/// The menu label of credentials: a bullet, their name, and the user in parentheses.
pub open spec fn credential_label(name: Seq<char>, user: Seq<char>) -> Seq<char> {
    "• "@ + name + " ("@ + user + ")"@
}

/// The menu label of credentials.
pub fn credential_as_str(credentials: &Credentials) -> (res: String)
    ensures
        res@ == credential_label(credentials.name@, credentials.user@),
{
    String::from_str("• ").concat(credentials.name.as_str()).concat(" (").concat(credentials.user.as_str()).concat(
        ")",
    )
}

/// The menu labels of a list of credentials, in order.
pub fn credentials_as_vec(credentials: &Vec<Credentials>) -> (res: Vec<String>)
    ensures
        res@.len() == credentials@.len(),
        forall|i: int|
            0 <= i < credentials@.len() ==> (#[trigger] res@[i])@ == credential_label(
                credentials@[i].name@,
                credentials@[i].user@,
            ),
{
    let mut out: Vec<String> = Vec::new();
    let mut i: usize = 0;
    while i < credentials.len()
        invariant
            i <= credentials.len(),
            out@.len() == i,
            forall|j: int|
                0 <= j < i ==> (#[trigger] out@[j])@ == credential_label(credentials@[j].name@, credentials@[j].user@),
        decreases credentials.len() - i,
    {
        out.push(credential_as_str(&credentials[i]));
        i = i + 1;
    }
    out
}

} // verus!
