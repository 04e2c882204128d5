//! From a geolocation answer to the country of a server.
//!
//! The caller resolves a domain to an address and looks the address up in
//! its geolocation database. This module says when that is needed at all and
//! what country follows from the answer.

use crate::uri_parser::{is_onion, is_onion_domain};
use vstd::prelude::*;
use vstd::string::StringExecFns;

verus! {

/// What the caller found out about a domain.
#[derive(Debug)]
pub enum GeoLookup {
    /// The domain is no address and did not resolve to one.
    Unresolved,
    /// The database holds no record of the address, or could not be read.
    NoEntry,
    /// The record names no country.
    NoCountry,
    /// The country of the record has no ISO code.
    NoIsoCode,
    /// The ISO code of the country.
    Country(String),
}

/// Why a domain has no country.
#[derive(Clone, Copy, Debug, PartialEq, Eq, Structural)]
pub enum GeoError {
    /// The domain did not resolve to an address.
    ResolutionFailed,
    /// The database has no entry for the address, or the entry lacks a
    /// country ISO code.
    NotFound,
}

/// The country that stands for every host on the anonymized network.
pub open spec fn tor_country() -> Seq<char> {
    "TOR"@
}

/// The country that follows from the answer to a lookup for `domain`: the
/// sentinel for an onion host whatever the answer, else the code that was
/// found, else the error of the missing part.
pub open spec fn country_of(domain: Seq<char>, lookup: GeoLookup) -> Result<Seq<char>, GeoError> {
    if is_onion(domain) {
        Ok(tor_country())
    } else {
        match lookup {
            GeoLookup::Country(code) => Ok(code@),
            GeoLookup::Unresolved => Err(GeoError::ResolutionFailed),
            _ => Err(GeoError::NotFound),
        }
    }
}

/// The view of a country result.
pub open spec fn country_view(result: Result<String, GeoError>) -> Result<Seq<char>, GeoError> {
    match result {
        Ok(code) => Ok(code@),
        Err(e) => Err(e),
    }
}

/// An onion host is never looked up and its country is always the
/// sentinel: whatever a lookup would find, the country of a domain that ends
/// in the onion suffix is `TOR`.
pub proof fn lemma_onion_is_always_tor(domain: Seq<char>, lookup: GeoLookup)
    requires
        is_onion(domain),
    ensures
        country_of(domain, lookup) == Ok::<Seq<char>, GeoError>(tor_country()),
{
}

/// A domain that is no onion host has a country if and only if the lookup
/// found the code of one, and then it is that code.
pub proof fn lemma_country_needs_code(domain: Seq<char>, lookup: GeoLookup)
    requires
        !is_onion(domain),
    ensures
        country_of(domain, lookup) is Ok <==> lookup is Country,
        lookup matches GeoLookup::Country(code) ==> country_of(domain, lookup) == Ok::<
            Seq<char>,
            GeoError,
        >(code@),
        country_of(domain, lookup) == Err::<Seq<char>, GeoError>(GeoError::ResolutionFailed)
            <==> lookup is Unresolved,
{
}

impl GeoError {
    /// What went wrong, in words.
    pub fn message(&self) -> (text: String)
        ensures
            *self == GeoError::ResolutionFailed ==> text@ == "No valid IP address found"@,
            *self == GeoError::NotFound ==> text@ == "No country code found"@,
    {
        match self {
            GeoError::ResolutionFailed => "No valid IP address found".to_owned(),
            GeoError::NotFound => "No country code found".to_owned(),
        }
    }
}

/// Whether the country of `domain` depends on a lookup. It does for every
/// domain but an onion host, which is never resolved nor looked up.
pub fn needs_lookup(domain: &str) -> (needed: bool)
    ensures
        needed == !is_onion(domain@),
{
    !is_onion_domain(domain)
}

/// The country of `ip_or_domain`, given what the lookup for it found. An
/// onion host has the sentinel `TOR` whatever `lookup` holds.
pub fn get_country(ip_or_domain: &str, lookup: &GeoLookup) -> (country: Result<String, GeoError>)
    ensures
        country_view(country) == country_of(ip_or_domain@, *lookup),
{
    if is_onion_domain(ip_or_domain) {
        return Ok(String::from_str("TOR"));
    }
    match lookup {
        GeoLookup::Country(code) => Ok(code.clone()),
        GeoLookup::Unresolved => Err(GeoError::ResolutionFailed),
        GeoLookup::NoEntry => Err(GeoError::NotFound),
        GeoLookup::NoCountry => Err(GeoError::NotFound),
        GeoLookup::NoIsoCode => Err(GeoError::NotFound),
    }
}

} // verus!
