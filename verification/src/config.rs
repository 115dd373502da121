//! Where the vector store is found.

use vstd::prelude::*;

verus! {

/// The address of the vector store, from what the environment gives: the
/// address itself where it is set, else the secure address of the host
/// where that is set, else the local address.
pub open spec fn qdrant_url(url: Option<Seq<char>>, host: Option<Seq<char>>) -> Seq<char> {
    match url {
        Some(url) => url,
        None => match host {
            Some(host) => "https://"@ + host + ":6334"@,
            None => "http://localhost:6334"@,
        },
    }
}

/// The view of an optional string.
pub open spec fn optional_text(text: Option<String>) -> Option<Seq<char>> {
    match text {
        Some(text) => Some(text@),
        None => None,
    }
}

/// Works out the address of the vector store from the configured address
/// and the configured host name.
pub fn get_qdrant_url(url: Option<String>, host: Option<String>) -> (address: String)
    ensures
        address@ == qdrant_url(optional_text(url), optional_text(host)),
{
    match url {
        Some(url) => url,
        None => match host {
            Some(host) => {
                let mut address = String::from_str("https://");
                address.append(host.as_str());
                address.append(":6334");
                address
            },
            None => String::from_str("http://localhost:6334"),
        },
    }
}

} // verus!
