//! The database port's in-memory double: maps, patch records and campaigns
//! held in memory, with no SQL.

use std::collections::HashMap;
use vstd::std_specs::iter::IteratorSpec;
use vstd::prelude::*;
use vstd::string::*;
use crate::errors::DbError;
use crate::models::{Campaign, CampaignView, CoopMap, CoopMapView, PatchRecord, PatchRecordView};
use crate::text::{decimal, render_i32};

verus! {

broadcast use vstd::std_specs::hash::group_hash_axioms;

/// The map record that `update_map` leaves for `id`, given the record that
/// was there before: version, file name and checksum are the new ones; an
/// existing record keeps its id and name, a new one is named `map_{id}`.
pub open spec fn updated_map(
    before: Option<CoopMapView>,
    id: i32,
    version: i32,
    filename: Seq<char>,
    checksum: Seq<char>,
) -> CoopMapView {
    match before {
        Some(m) => CoopMapView { version, filename, checksum, ..m },
        None => CoopMapView {
            id,
            name: seq!['m', 'a', 'p', '_'] + decimal(id as int),
            version,
            filename,
            checksum,
        },
    }
}

/// `list` lists the campaigns of `m`: each one once, each as stored under
/// its id, in some order.
pub open spec fn lists_campaigns(list: Seq<CampaignView>, m: Map<i32, CampaignView>) -> bool {
    &&& forall|i: int| 0 <= i < list.len() ==> #[trigger] m.contains_key(list[i].id) && m[list[i].id] == list[i]
    &&& forall|id: i32| #[trigger] m.contains_key(id) ==> exists|i: int| 0 <= i < list.len() && #[trigger] list[i].id == id
    &&& forall|i: int, j: int| 0 <= i < j < list.len() ==> #[trigger] list[i].id != #[trigger] list[j].id
}

/// The values of a list of campaigns.
pub open spec fn campaigns_view(v: Seq<Campaign>) -> Seq<CampaignView> {
    v.map_values(|c: Campaign| c@)
}

/// An in-memory database.
pub struct FakeDb {
    maps: HashMap<i32, CoopMap>,
    patches: HashMap<i32, PatchRecord>,
    campaigns: HashMap<i32, Campaign>,
}

impl FakeDb {
    /// Every map is stored under its own id, every patch record under its
    /// own file id.
    #[verifier::type_invariant]
    spec fn keyed_by_id(self) -> bool {
        &&& forall|k: i32| #[trigger] self.maps@.contains_key(k) ==> self.maps@[k].id == k
        &&& forall|k: i32| #[trigger] self.patches@.contains_key(k) ==> self.patches@[k].file_id == k
        &&& forall|k: i32| #[trigger] self.campaigns@.contains_key(k) ==> self.campaigns@[k].id == k
    }

    /// The stored maps, by id.
    pub closed spec fn maps(&self) -> Map<i32, CoopMapView> {
        self.maps@.map_values(|m: CoopMap| m@)
    }

    /// The stored patch records, by file id.
    pub closed spec fn patches(&self) -> Map<i32, PatchRecordView> {
        self.patches@.map_values(|r: PatchRecord| r@)
    }

    /// The stored campaigns, by id.
    pub closed spec fn campaigns(&self) -> Map<i32, CampaignView> {
        self.campaigns@.map_values(|c: Campaign| c@)
    }

    /// An empty database.
    pub fn new() -> (db: Self)
        ensures
            db.maps() == Map::<i32, CoopMapView>::empty(),
            db.patches() == Map::<i32, PatchRecordView>::empty(),
            db.campaigns() == Map::<i32, CampaignView>::empty(),
    {
        let db = FakeDb { maps: HashMap::new(), patches: HashMap::new(), campaigns: HashMap::new() };
        assert(db.maps() =~= Map::<i32, CoopMapView>::empty());
        assert(db.patches() =~= Map::<i32, PatchRecordView>::empty());
        assert(db.campaigns() =~= Map::<i32, CampaignView>::empty());
        db
    }

    /// Stores `map` under its id.
    pub fn seed_map(&mut self, map: CoopMap)
        ensures
            final(self).maps() == old(self).maps().insert(map.id, map@),
            final(self).patches() == old(self).patches(),
            final(self).campaigns() == old(self).campaigns(),
    {
        proof { use_type_invariant(&*self); }
        let ghost v = map@;
        let id = map.id;
        let mut maps = HashMap::new();
        std::mem::swap(&mut maps, &mut self.maps);
        maps.insert(id, map);
        self.maps = maps;
        assert(self.maps() =~= old(self).maps().insert(id, v));
    }

    /// Stores `record` under its file id.
    pub fn seed_patch(&mut self, record: PatchRecord)
        ensures
            final(self).patches() == old(self).patches().insert(record.file_id, record@),
            final(self).maps() == old(self).maps(),
            final(self).campaigns() == old(self).campaigns(),
    {
        let _ = self.upsert_patch(record);
    }

    /// Stores `campaign`, replacing the campaign with its id.
    pub fn seed_campaign(&mut self, campaign: Campaign)
        ensures
            final(self).campaigns() == old(self).campaigns().insert(campaign.id, campaign@),
            final(self).maps() == old(self).maps(),
            final(self).patches() == old(self).patches(),
    {
        let _ = self.upsert_campaign(campaign);
    }

    /// The map stored under `map_id`, if any.
    pub fn get_map(&self, map_id: i32) -> (r: Result<Option<CoopMap>, DbError>)
        ensures
            match r {
                Ok(Some(m)) => self.maps().contains_key(map_id) && m@ == self.maps()[map_id] && m.id
                    == map_id,
                Ok(None) => !self.maps().contains_key(map_id),
                Err(_) => false,
            },
    {
        Ok(self.get_map_sync(map_id))
    }

    /// The map stored under `map_id`, if any.
    pub fn get_map_sync(&self, map_id: i32) -> (m: Option<CoopMap>)
        ensures
            match m {
                Some(m) => self.maps().contains_key(map_id) && m@ == self.maps()[map_id] && m.id
                    == map_id,
                None => !self.maps().contains_key(map_id),
            },
    {
        proof { use_type_invariant(self); }
        match self.maps.get(&map_id) {
            Some(m) => Some(m.duplicate()),
            None => None,
        }
    }

    /// Records `version`, `filename` and `checksum` for map `map_id`,
    /// creating the map record when there is none (see `updated_map`).
    pub fn update_map(&mut self, map_id: i32, version: i32, filename: &str, checksum: &str) -> (r:
        Result<(), DbError>)
        ensures
            r is Ok,
            final(self).maps() == old(self).maps().insert(
                map_id,
                updated_map(
                    if old(self).maps().contains_key(map_id) {
                        Some(old(self).maps()[map_id])
                    } else {
                        None
                    },
                    map_id,
                    version,
                    filename@,
                    checksum@,
                ),
            ),
            final(self).maps()[map_id].id == map_id,
            final(self).patches() == old(self).patches(),
            final(self).campaigns() == old(self).campaigns(),
    {
        proof { use_type_invariant(&*self); }
        let (id, name) = match self.maps.get(&map_id) {
            Some(m) => (m.id, m.name.clone()),
            None => {
                proof { reveal_strlit("map_"); }
                assert("map_"@ =~= seq!['m', 'a', 'p', '_']);
                let n = String::from_str("map_");
                let digits = render_i32(map_id);
                (map_id, n.concat(digits.as_str()))
            },
        };
        let map = CoopMap {
            id,
            name,
            version,
            filename: String::from_str(filename),
            checksum: String::from_str(checksum),
        };
        let ghost v = map@;
        assert(v == updated_map(
            if old(self).maps().contains_key(map_id) {
                Some(old(self).maps()[map_id])
            } else {
                None
            },
            map_id,
            version,
            filename@,
            checksum@,
        ));
        let mut maps = HashMap::new();
        std::mem::swap(&mut maps, &mut self.maps);
        maps.insert(map_id, map);
        self.maps = maps;
        assert(self.maps() =~= old(self).maps().insert(map_id, v));
        Ok(())
    }

    /// The patch record stored under `file_id`, if any.
    pub fn get_patch_record(&self, file_id: i32) -> (r: Result<Option<PatchRecord>, DbError>)
        ensures
            match r {
                Ok(Some(p)) => self.patches().contains_key(file_id) && p@ == self.patches()[file_id]
                    && p.file_id == file_id,
                Ok(None) => !self.patches().contains_key(file_id),
                Err(_) => false,
            },
    {
        proof { use_type_invariant(self); }
        match self.patches.get(&file_id) {
            Some(p) => Ok(Some(p.duplicate())),
            None => Ok(None),
        }
    }

    /// Stores `record` under its file id, replacing the record there.
    pub fn upsert_patch(&mut self, record: PatchRecord) -> (r: Result<(), DbError>)
        ensures
            r is Ok,
            final(self).patches() == old(self).patches().insert(record.file_id, record@),
            final(self).maps() == old(self).maps(),
            final(self).campaigns() == old(self).campaigns(),
    {
        proof { use_type_invariant(&*self); }
        let ghost v = record@;
        let id = record.file_id;
        let mut patches = HashMap::new();
        std::mem::swap(&mut patches, &mut self.patches);
        patches.insert(id, record);
        self.patches = patches;
        assert(self.patches() =~= old(self).patches().insert(id, v));
        Ok(())
    }

    /// All stored campaigns, each once, in some order.
    pub fn list_campaigns(&self) -> (r: Result<Vec<Campaign>, DbError>)
        ensures
            match r {
                Ok(v) => lists_campaigns(campaigns_view(v@), self.campaigns()),
                Err(_) => false,
            },
    {
        proof { use_type_invariant(self); }
        let ghost m = self.campaigns();
        let ghost items = vstd::std_specs::hash::spec_hash_map_iter(&self.campaigns).remaining();
        let mut out: Vec<Campaign> = Vec::new();
        for kv in it: self.campaigns.iter()
            invariant
                m == self.campaigns(),
                forall|k: i32| #[trigger] self.campaigns@.contains_key(k) ==> self.campaigns@[k].id == k,
                it.seq() == items,
                out@.len() == it.index(),
                forall|i: int| 0 <= i < out@.len() ==> #[trigger] out@[i]@ == (*items[i].1)@
                    && out@[i].id == *items[i].0,
        {
            proof {
                assert(kv == items[out@.len() as int]);
                assert(self.campaigns@.contains_key(*items[out@.len() as int].0));
                assert(self.campaigns@[*items[out@.len() as int].0] == *items[out@.len() as int].1);
            }
            let c = kv.1.duplicate();
            out.push(c);
        }
        proof {
            let view = campaigns_view(out@);
            assert(out@.len() == items.len());
            assert forall|i: int| 0 <= i < view.len() implies #[trigger] m.contains_key(view[i].id)
                && m[view[i].id] == view[i] by {
                assert(self.campaigns@.contains_key(*items[i].0));
                assert(self.campaigns@[*items[i].0] == *items[i].1);
            }
            assert forall|id: i32| #[trigger] m.contains_key(id) implies exists|i: int|
                0 <= i < view.len() && #[trigger] view[i].id == id by {
                assert(items.contains((&id, &self.campaigns@[id])));
                let i = choose|i: int| 0 <= i < items.len() && items[i] == (&id, &self.campaigns@[id]);
                assert(view[i].id == id);
            }
            assert forall|i: int, j: int| 0 <= i < j < view.len() implies #[trigger] view[i].id
                != #[trigger] view[j].id by {
                assert(self.campaigns@[*items[i].0] == *items[i].1);
                assert(self.campaigns@[*items[j].0] == *items[j].1);
            }
        }
        Ok(out)
    }

    /// Stores `campaign` under its id, replacing the campaign there.
    pub fn upsert_campaign(&mut self, campaign: Campaign) -> (r: Result<(), DbError>)
        ensures
            r is Ok,
            final(self).campaigns() == old(self).campaigns().insert(campaign.id, campaign@),
            final(self).maps() == old(self).maps(),
            final(self).patches() == old(self).patches(),
    {
        proof { use_type_invariant(&*self); }
        let ghost v = campaign@;
        let id = campaign.id;
        let mut campaigns = HashMap::new();
        std::mem::swap(&mut campaigns, &mut self.campaigns);
        campaigns.insert(id, campaign);
        self.campaigns = campaigns;
        assert(self.campaigns() =~= old(self).campaigns().insert(id, v));
        Ok(())
    }
}

} // verus!
