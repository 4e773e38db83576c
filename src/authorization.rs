//! Registration requests from new vendors.
use crate::ledger::{drawn_assortment, registered, vendor_names, vendor_urls, Ledger, TOKEN_LENGTH};
use crate::util::{field, pair_views};
use vstd::prelude::*;

verus! {

/// A request to register the vendor `vendor_name` under `vendor_url`.
#[derive(Debug)]
pub struct Registration {
    pub vendor_name: String,
    pub vendor_url: String,
}

/// Why a registration request was turned down. Nothing changes in the
/// ledger.
#[derive(Debug, PartialEq, Eq, Structural)]
pub enum RegistrationError {
    /// The vendor name is empty.
    EmptyName,
    /// A vendor already has the requested name, or the requested url.
    InUse,
}

/// The url to register under: none (derive it from the name) when the
/// requested one holds a colon, else the requested one.
pub open spec fn requested_url(url: String) -> Option<String> {
    if url@.contains(':') {
        None
    } else {
        Some(url)
    }
}

/// True when `s` holds a colon.
fn has_colon(s: &String) -> (r: bool)
    ensures
        r == s@.contains(':'),
{
    let text = s.as_str();
    let n = text.unicode_len();
    let mut i: usize = 0;
    while i < n
        invariant
            i <= n,
            n == s@.len(),
            text@ == s@,
            forall|j: int| 0 <= j < i ==> s@[j] != ':',
        decreases n - i,
    {
        if text.get_char(i) == ':' {
            return true;
        }
        i = i + 1;
    }
    proof {
        if s@.contains(':') {
            let j = choose|j: int| 0 <= j < s@.len() && s@[j] == ':';
            assert(s@[j] != ':');
        }
    }
    false
}

/// Registers the vendor a request describes. The name must not be empty, and
/// neither the name nor the requested url may belong to a vendor already; a
/// requested url holding a colon is replaced by one derived from the name.
/// Returns the new vendor's session token.
pub fn register(registration: Registration, ledger: &mut Ledger) -> (r: Result<String, RegistrationError>)
    requires
        old(ledger).wf(),
        old(ledger)@.version + 4 <= u64::MAX,
    ensures
        final(ledger).wf(),
        registration.vendor_name@.len() == 0 ==> r == Err::<String, RegistrationError>(RegistrationError::EmptyName)
            && final(ledger)@ == old(ledger)@,
        registration.vendor_name@.len() > 0 && (vendor_names(old(ledger)@.vendors).contains(registration.vendor_name@)
            || vendor_urls(old(ledger)@.vendors).contains(registration.vendor_url@)) ==> r == Err::<
            String,
            RegistrationError,
        >(RegistrationError::InUse) && final(ledger)@ == old(ledger)@,
        registration.vendor_name@.len() > 0 && !vendor_names(old(ledger)@.vendors).contains(registration.vendor_name@)
            && !vendor_urls(old(ledger)@.vendors).contains(registration.vendor_url@) ==> r is Ok && exists|
            a: Seq<String>,
        |
            {
                &&& registered(
                    old(ledger)@,
                    final(ledger)@,
                    registration.vendor_name,
                    requested_url(registration.vendor_url),
                    a,
                    r->Ok_0,
                    Ok(r->Ok_0),
                )
                &&& drawn_assortment(a, old(ledger)@.config)
                &&& r->Ok_0@.len() == TOKEN_LENGTH
            },
{
    if registration.vendor_name.as_str().unicode_len() == 0 {
        return Err(RegistrationError::EmptyName);
    }
    if let Some(_) = ledger.find_vendor(&registration.vendor_name) {
        return Err(RegistrationError::InUse);
    }
    if let Some(_) = ledger.find_vendor_by_url(&registration.vendor_url) {
        return Err(RegistrationError::InUse);
    }
    let url = if has_colon(&registration.vendor_url) {
        None
    } else {
        Some(registration.vendor_url)
    };
    match ledger.register_vendor(registration.vendor_name, url) {
        Ok(token) => Ok(token),
        Err(_) => Err(RegistrationError::InUse),
    }
}

/// The members of the response to a registration request.
pub open spec fn registration_pairs(r: Result<String, RegistrationError>) -> Seq<(Seq<char>, Seq<char>)> {
    match r {
        Ok(token) => seq![("uuid"@, token@)],
        Err(RegistrationError::EmptyName) => seq![("vendor_name"@, "is empty"@)],
        Err(RegistrationError::InUse) => seq![("vendor_name"@, "is in use"@)],
    }
}

/// The members of the response to a registration request.
pub fn registration_fields(r: &Result<String, RegistrationError>) -> (out: Vec<(String, String)>)
    ensures
        pair_views(out@) == registration_pairs(*r),
{
    let mut out: Vec<(String, String)> = Vec::new();
    match r {
        Ok(token) => out.push(field("uuid", token.clone())),
        Err(RegistrationError::EmptyName) => out.push(field("vendor_name", "is empty".to_owned())),
        Err(RegistrationError::InUse) => out.push(field("vendor_name", "is in use".to_owned())),
    }
    proof {
        assert(pair_views(out@) =~= registration_pairs(*r));
    }
    out
}

} // verus!
