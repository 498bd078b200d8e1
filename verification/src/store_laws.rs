//! Laws of the stored records: what a read gives back after a write, what a
//! write leaves alone, and that a created campaign gets an id of its own.

use vstd::prelude::*;
use crate::campaign::{is_next_campaign_id, lemma_max_campaign_id, next_campaign_id_spec};
use crate::db::updated_map;
use crate::models::{CampaignView, CoopMapView};

verus! {

/// After a campaign is stored, reading its id gives it back.
pub proof fn law_campaign_read_after_write(m: Map<i32, CampaignView>, c: CampaignView)
    ensures
        m.insert(c.id, c).contains_key(c.id),
        m.insert(c.id, c)[c.id] == c,
{
}

/// Storing a campaign leaves what is stored under every other id unchanged.
pub proof fn law_campaign_write_keeps_others(m: Map<i32, CampaignView>, c: CampaignView, other: i32)
    requires
        other != c.id,
    ensures
        m.insert(c.id, c).contains_key(other) == m.contains_key(other),
        m.contains_key(other) ==> m.insert(c.id, c)[other] == m[other],
{
}

/// Storing the same campaign twice is the same as storing it once.
pub proof fn law_campaign_write_idempotent(m: Map<i32, CampaignView>, c: CampaignView)
    ensures
        m.insert(c.id, c).insert(c.id, c) == m.insert(c.id, c),
{
    assert(m.insert(c.id, c).insert(c.id, c) =~= m.insert(c.id, c));
}

/// The id a new campaign gets is above every id in use (1 when there is
/// none), so it is not taken: storing the new campaign adds a campaign and
/// replaces none.
pub proof fn law_new_campaign_id_is_fresh(m: Map<i32, CampaignView>, id: i32)
    requires
        is_next_campaign_id(m, id as int),
    ensures
        forall|k: i32| #[trigger] m.contains_key(k) ==> k < id,
        m.dom().is_empty() ==> id == 1,
        !m.contains_key(id),
{
}

/// The id computed from a list of campaigns is above every id in the list
/// (1 for an empty list).
pub proof fn law_listed_campaign_id_is_fresh(campaigns: Seq<CampaignView>)
    ensures
        forall|i: int| 0 <= i < campaigns.len() ==> campaigns[i].id < next_campaign_id_spec(campaigns),
        campaigns.len() == 0 ==> next_campaign_id_spec(campaigns) == 1,
{
    lemma_max_campaign_id(campaigns);
}

/// After a map record is written, reading it gives the version, file name
/// and checksum just written, and the record of every other map unchanged.
pub proof fn law_map_record_read_after_write(
    maps: Map<i32, CoopMapView>,
    id: i32,
    version: i32,
    filename: Seq<char>,
    checksum: Seq<char>,
    other: i32,
)
    ensures
        ({
            let after = maps.insert(
                id,
                updated_map(
                    if maps.contains_key(id) { Some(maps[id]) } else { None },
                    id,
                    version,
                    filename,
                    checksum,
                ),
            );
            &&& after.contains_key(id)
            &&& after[id].version == version
            &&& after[id].filename == filename
            &&& after[id].checksum == checksum
            &&& after[id].id == (if maps.contains_key(id) { maps[id].id } else { id })
            &&& other != id ==> (after.contains_key(other) == maps.contains_key(other))
            &&& other != id && maps.contains_key(other) ==> after[other] == maps[other]
        }),
{
}

} // verus!
