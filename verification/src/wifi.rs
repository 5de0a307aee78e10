//! The decisions taken when joining a wireless network.
//!
//! Joining is the work of the platform. What is decided here is how to
//! authenticate, and which of the access points that a scan found is the
//! one to join.

use crate::text::same_text;
use vstd::prelude::*;

verus! {

/// How to authenticate with the access point.
#[derive(Debug, Clone, Copy, PartialEq, Eq, Structural)]
pub enum AuthMethod {
    /// No authentication: an open network.
    Open,
    /// WPA2 with a passphrase.
    WPA2Personal,
}

/// The network cannot be joined because it was given no name.
#[derive(Debug, Clone, Copy, PartialEq, Eq, Structural)]
pub struct MissingName;

/// The authentication that a network name and passphrase call for.
pub open spec fn chosen_auth(ssid: Seq<char>, pass: Seq<char>) -> Result<AuthMethod, MissingName> {
    if ssid.len() == 0 {
        Err(MissingName)
    } else if pass.len() == 0 {
        Ok(AuthMethod::Open)
    } else {
        Ok(AuthMethod::WPA2Personal)
    }
}

/// Chooses how to authenticate: a network without a name is refused, one
/// without a passphrase is taken to be open, any other to use WPA2.
pub fn choose_auth(ssid: &str, pass: &str) -> (auth: Result<AuthMethod, MissingName>)
    ensures
        auth == chosen_auth(ssid@, pass@),
{
    if ssid.is_empty() {
        return Err(MissingName);
    }
    if pass.is_empty() {
        Ok(AuthMethod::Open)
    } else {
        Ok(AuthMethod::WPA2Personal)
    }
}

/// Finds the first of the scanned access points that carries the wanted
/// name, by its place in the scan.
pub fn find_access_point(scanned: &[&str], ssid: &str) -> (found: Option<usize>)
    ensures
        match found {
            Some(place) => {
                &&& place < scanned@.len()
                &&& scanned@[place as int]@ == ssid@
                &&& forall|earlier: int| 0 <= earlier < place ==> scanned@[earlier]@ != ssid@
            },
            None => forall|place: int| 0 <= place < scanned@.len() ==> scanned@[place]@ != ssid@,
        },
{
    let mut place: usize = 0;
    while place < scanned.len()
        invariant
            place <= scanned@.len(),
            forall|earlier: int| 0 <= earlier < place ==> scanned@[earlier]@ != ssid@,
        decreases scanned.len() - place,
    {
        if same_text(scanned[place], ssid) {
            return Some(place);
        }
        place += 1;
    }
    None
}

} // verus!
