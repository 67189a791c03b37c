//! What a client of the grid works out before it talks to anybody: where to
//! connect, and how it names itself when it registers.

use vstd::prelude::*;
use vstd::string::*;

verus! {

/// The text `text` in lower case, as `str::to_lowercase` gives it.
pub uninterp spec fn lowercase(text: Seq<char>) -> Seq<char>;

/// Turns `text` to lower case with `str::to_lowercase`. Claimed: the result
/// depends on the text alone.
#[verifier::external_body]
fn to_lowercase(text: &str) -> (lowered: String)
    ensures
        lowered@ == lowercase(text@),
{
    text.to_lowercase()
}

/// The address to connect to for a service that listens on
/// `server_address`.
pub open spec fn endpoint(server_address: Seq<char>) -> Seq<char> {
    "http://"@ + server_address
}

/// The name under which a host or a user registers: the name it has, in
/// lower case, or the empty name where it has none.
pub open spec fn registered_name(name: Option<Seq<char>>) -> Seq<char> {
    match name {
        Some(name) => lowercase(name),
        None => lowercase(Seq::empty()),
    }
}

/// Writes the address to connect to for a service that listens on
/// `server_address`.
pub fn endpoint_uri(server_address: &str) -> (uri: String)
    ensures
        uri@ == endpoint(server_address@),
{
    String::from_str("http://").concat(server_address)
}

/// Who a client is to the broker. The broker takes the client's word for it.
#[derive(Debug)]
pub struct ClientIdentity {
    pub client_description: String,
    pub host_id: String,
    pub user_id: String,
}

impl ClientIdentity {
    /// Makes the identity that a client registers with, from its description
    /// and from the names of its host and its user as far as they are known.
    pub fn new(
        client_description: String,
        host_name: Option<String>,
        user_name: Option<String>,
    ) -> (identity: Self)
        ensures
            identity.client_description == client_description,
            identity.host_id@ == registered_name(crate::text::optional_text(host_name)),
            identity.user_id@ == registered_name(crate::text::optional_text(user_name)),
    {
        let host_id = match host_name {
            Some(name) => to_lowercase(name.as_str()),
            None => to_lowercase(""),
        };
        let user_id = match user_name {
            Some(name) => to_lowercase(name.as_str()),
            None => to_lowercase(""),
        };
        proof {
            reveal_strlit("");
            assert(""@ =~= Seq::<char>::empty());
        }
        ClientIdentity { client_description, host_id, user_id }
    }
}

} // verus!
