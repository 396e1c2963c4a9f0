//! Address configuration for the schedule source.

use vstd::prelude::*;

verus! {

/// Where and for which address the schedule is fetched.  The base URL is kept
/// as text; the binary turns it into a request URL around the verified path
/// builder.
#[derive(Debug)]
pub struct AffaldVarmeConfig {
    pub address: Address,
    pub base_url: String,
}

/// The configured address: either the calendar identifier itself, or a
/// free-form address that must first be resolved to one.
#[derive(Debug)]
pub enum Address {
    Id(AddressId),
    FullySpecified(TraditionalAddress),
}

/// A free-form address, resolved through the address-lookup endpoint.
#[derive(Debug)]
pub struct TraditionalAddress {
    pub street_name: String,
    pub street_no: String,
    pub postal_code: String,
    pub city: String,
    pub address_lookup_url: String,
}

/// The calendar identifier a schedule is fetched by.
#[derive(Debug)]
pub struct AddressId {
    pub id: String,
}

} // verus!
