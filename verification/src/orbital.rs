//! The orbital feed (CelesTrak): general perturbation elements of satellite groups,
//! stored in Redis under the satellite's catalog number.

use crate::config::AppConfig;
use crate::text::{decimal, decimal_text};
use vstd::prelude::*;

verus! {

/// The satellite groups that CelesTrak publishes and the service follows.
#[allow(non_camel_case_types, clippy::upper_case_acronyms)]
#[derive(Clone, Copy, Debug, PartialEq, Eq, Structural)]
pub enum Groups {
    ACTIVE,
    STATIONS,
    GNSS,
    STARLINK,
}

/// The lower-case name of a group, as CelesTrak's `GROUP` parameter takes it.
pub open spec fn group_name(group: Groups) -> Seq<char> {
    match group {
        Groups::ACTIVE => "active"@,
        Groups::STATIONS => "stations"@,
        Groups::GNSS => "gnss"@,
        Groups::STARLINK => "starlink"@,
    }
}

impl Groups {
    /// The lower-case name of the group.
    pub fn as_str(&self) -> (name: &'static str)
        ensures
            name@ == group_name(*self),
    {
        match self {
            Groups::ACTIVE => "active",
            Groups::STATIONS => "stations",
            Groups::GNSS => "gnss",
            Groups::STARLINK => "starlink",
        }
    }
}

/// The address of a group's elements in JSON.
pub open spec fn group_url(base: Seq<char>, group: Groups) -> Seq<char> {
    base + "?GROUP="@ + group_name(group) + "&FORMAT=JSON"@
}

/// Returns the address from which a group's elements are fetched.
pub fn sweep_url(config: &AppConfig, group: Groups) -> (url: String)
    ensures
        url@ == group_url(config.endpoints.celestrak_gp@, group),
{
    String::from_str(config.endpoints.celestrak_gp.as_str()).concat("?GROUP=").concat(
        group.as_str(),
    ).concat("&FORMAT=JSON")
}

/// The Redis key of a satellite's elements.
pub open spec fn satellite_key(norad_cat_id: u32) -> Seq<char> {
    "sat:gp:"@ + decimal(norad_cat_id as nat)
}

/// Satellites with different catalog numbers are stored under different keys.
pub proof fn law_satellite_keys_differ(a: u32, b: u32)
    requires
        a != b,
    ensures
        satellite_key(a) != satellite_key(b),
{
    if satellite_key(a) == satellite_key(b) {
        let p = "sat:gp:"@;
        let ka = satellite_key(a);
        assert(ka.subrange(p.len() as int, ka.len() as int) =~= decimal(a as nat));
        assert(ka.subrange(p.len() as int, ka.len() as int) =~= decimal(b as nat));
        crate::text::lemma_decimal_injective(a as nat, b as nat);
    }
}

/// Returns the Redis key under which a satellite's elements are stored.
pub fn redis_key(norad_cat_id: u32) -> (key: String)
    ensures
        key@ == satellite_key(norad_cat_id),
{
    String::from_str("sat:gp:").concat(decimal_text(norad_cat_id).as_str())
}

} // verus!
