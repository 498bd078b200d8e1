//! Campaign management: grouping missions into ordered campaigns.

use vstd::prelude::*;
use crate::db::{campaigns_view, lists_campaigns};
use crate::errors::DeployError;
use crate::models::{Campaign, CampaignView};
use crate::ports::TestPorts;

verus! {

/// A campaign as a create or update request describes it: its name and
/// its missions in order.
pub struct CampaignBody {
    pub name: String,
    pub map_ids: Vec<i32>,
}

/// The largest id among `campaigns`, if there is any campaign.
pub open spec fn max_campaign_id(campaigns: Seq<CampaignView>) -> Option<i32>
    decreases campaigns.len(),
{
    if campaigns.len() == 0 {
        None
    } else {
        let last = campaigns.last().id;
        match max_campaign_id(campaigns.drop_last()) {
            Some(m) => Some(if m >= last { m } else { last }),
            None => Some(last),
        }
    }
}

/// The id a new campaign gets: one more than the largest id in use, or 1.
pub open spec fn next_campaign_id_spec(campaigns: Seq<CampaignView>) -> int {
    match max_campaign_id(campaigns) {
        Some(m) => m + 1,
        None => 1,
    }
}

/// Every id in use is below `i32::MAX`, so one more than the largest fits.
pub open spec fn ids_below_max(campaigns: Seq<CampaignView>) -> bool {
    forall|i: int| 0 <= i < campaigns.len() ==> campaigns[i].id < i32::MAX
}

/// The largest id is one of the ids and no id exceeds it.
pub proof fn lemma_max_campaign_id(campaigns: Seq<CampaignView>)
    ensures
        match max_campaign_id(campaigns) {
            Some(m) => (exists|i: int| 0 <= i < campaigns.len() && campaigns[i].id == m) && forall|
                i: int,
            |
                0 <= i < campaigns.len() ==> campaigns[i].id <= m,
            None => campaigns.len() == 0,
        },
    decreases campaigns.len(),
{
    if campaigns.len() > 0 {
        let prefix = campaigns.drop_last();
        lemma_max_campaign_id(prefix);
        assert forall|i: int| 0 <= i < prefix.len() implies prefix[i] == campaigns[i] by {}
        match max_campaign_id(prefix) {
            Some(m) => {
                let i = choose|i: int| 0 <= i < prefix.len() && prefix[i].id == m;
                assert(campaigns[i].id == m);
            },
            None => {},
        }
        assert(campaigns[campaigns.len() - 1].id == campaigns.last().id);
    }
}

/// Every stored campaign id is below `i32::MAX`, so one more than the
/// largest fits.
pub open spec fn stored_ids_below_max(m: Map<i32, CampaignView>) -> bool {
    forall|k: i32| #[trigger] m.contains_key(k) ==> k < i32::MAX
}

/// `id` is the id a new campaign gets among the stored campaigns `m`: one
/// more than the largest id stored, or 1 when none is.
pub open spec fn is_next_campaign_id(m: Map<i32, CampaignView>, id: int) -> bool {
    ||| m.dom().is_empty() && id == 1
    ||| exists|k: i32|
        #![trigger m.contains_key(k)]
        m.contains_key(k) && k + 1 == id && forall|j: i32| #[trigger] m.contains_key(j) ==> j <= k
}

/// The id computed from a listing of the stored campaigns is the next id.
proof fn lemma_listed_next_id(list: Seq<CampaignView>, m: Map<i32, CampaignView>)
    requires
        lists_campaigns(list, m),
    ensures
        is_next_campaign_id(m, next_campaign_id_spec(list)),
        stored_ids_below_max(m) ==> ids_below_max(list),
{
    lemma_max_campaign_id(list);
    match max_campaign_id(list) {
        Some(mx) => {
            let i = choose|i: int| 0 <= i < list.len() && list[i].id == mx;
            assert(m.contains_key(list[i].id));
            assert forall|j: i32| #[trigger] m.contains_key(j) implies j <= mx by {
                let q = choose|q: int| 0 <= q < list.len() && #[trigger] list[q].id == j;
                assert(list[q].id <= mx);
            }
        },
        None => {
            assert forall|j: i32| !m.dom().contains(j) by {
                if m.contains_key(j) {
                    let q = choose|q: int| 0 <= q < list.len() && #[trigger] list[q].id == j;
                }
            }
            assert(m.dom() =~= Set::<i32>::empty());
        },
    }
    if stored_ids_below_max(m) {
        assert forall|i: int| 0 <= i < list.len() implies list[i].id < i32::MAX by {
            assert(m.contains_key(list[i].id));
        }
    }
}

/// The id a new campaign gets among `campaigns`.
pub fn next_campaign_id(campaigns: &Vec<Campaign>) -> (id: i32)
    requires
        ids_below_max(campaigns_view(campaigns@)),
    ensures
        id == next_campaign_id_spec(campaigns_view(campaigns@)),
{
    let ghost view = campaigns_view(campaigns@);
    let n = campaigns.len();
    let mut best: Option<i32> = None;
    let mut i: usize = 0;
    while i < n
        invariant
            n == campaigns@.len(),
            view == campaigns_view(campaigns@),
            ids_below_max(view),
            i <= n,
            best == max_campaign_id(view.subrange(0, i as int)),
        decreases n - i,
    {
        let id = campaigns[i].id;
        proof {
            assert(view.subrange(0, i + 1).drop_last() =~= view.subrange(0, i as int));
            assert(view[i as int].id == id);
        }
        best = match best {
            Some(m) => Some(if m >= id { m } else { id }),
            None => Some(id),
        };
        i = i + 1;
    }
    assert(view.subrange(0, n as int) =~= view);
    proof { lemma_max_campaign_id(view); }
    match best {
        Some(m) => {
            assert(m < i32::MAX);
            m + 1
        },
        None => 1,
    }
}

/// The campaign that creation makes: the next free id, `name`, `map_ids`.
pub fn new_campaign(existing: &Vec<Campaign>, name: String, map_ids: Vec<i32>) -> (c: Campaign)
    requires
        ids_below_max(campaigns_view(existing@)),
    ensures
        c@ == (CampaignView {
            id: next_campaign_id_spec(campaigns_view(existing@)) as i32,
            name: name@,
            map_ids: map_ids@,
        }),
{
    let id = next_campaign_id(existing);
    Campaign { id, name, map_ids }
}

/// All campaigns.
pub fn list_campaigns(ports: &TestPorts) -> (r: Result<Vec<Campaign>, DeployError>)
    ensures
        match r {
            Ok(v) => lists_campaigns(campaigns_view(v@), ports.db.campaigns()),
            Err(_) => false,
        },
{
    match ports.db.list_campaigns() {
        Ok(v) => Ok(v),
        Err(e) => Err(DeployError::new(e.0.as_str())),
    }
}

/// Creates a campaign named `name` over `map_ids` under the next free id,
/// stores it, and returns it.
pub fn create_campaign(ports: &mut TestPorts, name: String, map_ids: Vec<i32>) -> (r: Result<
    Campaign,
    DeployError,
>)
    requires
        stored_ids_below_max(old(ports).db.campaigns()),
    ensures
        match r {
            Ok(c) => {
                &&& c@ == (CampaignView { id: c.id, name: name@, map_ids: map_ids@ })
                &&& is_next_campaign_id(old(ports).db.campaigns(), c.id as int)
                &&& final(ports).db.campaigns() == old(ports).db.campaigns().insert(c.id, c@)
            },
            Err(_) => false,
        },
        final(ports).db.maps() == old(ports).db.maps(),
        final(ports).db.patches() == old(ports).db.patches(),
        final(ports).fs.files_view() == old(ports).fs.files_view(),
        final(ports).fs.zips_view() == old(ports).fs.zips_view(),
{
    let existing = match ports.db.list_campaigns() {
        Ok(v) => v,
        Err(e) => {
            return Err(DeployError::new(e.0.as_str()));
        },
    };
    proof { lemma_listed_next_id(campaigns_view(existing@), ports.db.campaigns()); }
    let campaign = new_campaign(&existing, name, map_ids);
    let stored = campaign.duplicate();
    match ports.db.upsert_campaign(stored) {
        Ok(()) => Ok(campaign),
        Err(e) => Err(DeployError::new(e.0.as_str())),
    }
}

/// Stores campaign `id` as `name` over `map_ids`, replacing what was stored
/// under that id, and returns it.
pub fn update_campaign(ports: &mut TestPorts, id: i32, name: String, map_ids: Vec<i32>) -> (r:
    Result<Campaign, DeployError>)
    ensures
        match r {
            Ok(c) => {
                &&& c@ == (CampaignView { id, name: name@, map_ids: map_ids@ })
                &&& final(ports).db.campaigns() == old(ports).db.campaigns().insert(id, c@)
            },
            Err(_) => false,
        },
        final(ports).db.maps() == old(ports).db.maps(),
        final(ports).db.patches() == old(ports).db.patches(),
        final(ports).fs.files_view() == old(ports).fs.files_view(),
        final(ports).fs.zips_view() == old(ports).fs.zips_view(),
{
    let campaign = Campaign { id, name, map_ids };
    let stored = campaign.duplicate();
    match ports.db.upsert_campaign(stored) {
        Ok(()) => Ok(campaign),
        Err(e) => Err(DeployError::new(e.0.as_str())),
    }
}

} // verus!
