//! Laws that relate the feeds to one another.

use crate::adsb::{AirplanesLiveItem, aircraft_object};
use crate::ais::{AisMessage, vessel_object};
use crate::firms::{FirmsCsvRecord, fire_object};
use vstd::prelude::*;

verus! {

/// Each feed names its objects under a prefix of its own, so an object of one feed never
/// replaces an object of another in the engine.
pub proof fn law_feeds_never_share_an_id(
    item: AirplanesLiveItem,
    msg: AisMessage,
    rec: FirmsCsvRecord,
)
    ensures
        aircraft_object(item) matches Some(a) ==> vessel_object(msg) matches Some(v) ==> a.id
            != v.id,
        aircraft_object(item) matches Some(a) ==> a.id != fire_object(rec).id,
        vessel_object(msg) matches Some(v) ==> v.id != fire_object(rec).id,
{
    reveal_strlit("adsb:");
    reveal_strlit("ais:");
    reveal_strlit("firms:");
    if let Some(a) = aircraft_object(item) {
        assert(a.id[1] == 'd');
        assert(a.id[0] == 'a');
        if let Some(v) = vessel_object(msg) {
            assert(v.id[1] == 'i');
        }
        assert(fire_object(rec).id[0] == 'f');
    }
    if let Some(v) = vessel_object(msg) {
        assert(v.id[0] == 'a');
        assert(fire_object(rec).id[0] == 'f');
    }
}

} // verus!
