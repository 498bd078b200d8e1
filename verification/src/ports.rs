//! The bundle of in-memory ports that tests and local runs use: one double
//! for each outside system.

use vstd::prelude::*;
use crate::auth::FakeAuth;
use crate::db::FakeDb;
use crate::fs::FakeFs;
use crate::git::FakeGit;
use crate::github::FakeGithub;

verus! {

/// The in-memory doubles of all ports, held directly so that tests can seed
/// them and read them back.
pub struct TestPorts {
    pub auth: FakeAuth,
    pub db: FakeDb,
    pub fs: FakeFs,
    pub git: FakeGit,
    pub github: FakeGithub,
}

impl TestPorts {
    /// Fresh doubles: the default caller, and nothing stored or seeded.
    pub fn new() -> (p: Self)
        ensures
            p.auth.identity@.user_id == 1,
            p.auth.identity@.username == "TestDeployer"@,
            p.auth.identity@.roles == seq!["COOP_DEPLOYER"@],
            p.db.maps() == Map::<i32, crate::models::CoopMapView>::empty(),
            p.db.patches() == Map::<i32, crate::models::PatchRecordView>::empty(),
            p.db.campaigns() == Map::<i32, crate::models::CampaignView>::empty(),
            p.fs.files_view() == Seq::<(Seq<char>, Seq<u8>)>::empty(),
            p.fs.zips_view() == Seq::<(Seq<char>, Seq<crate::models::ZipEntryView>)>::empty(),
            forall|repo: Seq<char>, tag: Seq<char>| p.github.seeded_assets(repo, tag) is None,
            forall|url: Seq<char>| p.github.seeded_download(url) is None,
    {
        TestPorts {
            auth: FakeAuth::default(),
            db: FakeDb::new(),
            fs: FakeFs::new(),
            git: FakeGit,
            github: FakeGithub::new(),
        }
    }
}

/// The in-memory ports, as a local run starts with them.
pub fn fake_ports() -> (p: TestPorts)
    ensures
        p.auth.identity@.user_id == 1,
        p.auth.identity@.username == "TestDeployer"@,
        p.auth.identity@.roles == seq!["COOP_DEPLOYER"@],
        p.db.maps() == Map::<i32, crate::models::CoopMapView>::empty(),
        p.db.patches() == Map::<i32, crate::models::PatchRecordView>::empty(),
        p.db.campaigns() == Map::<i32, crate::models::CampaignView>::empty(),
        p.fs.files_view() == Seq::<(Seq<char>, Seq<u8>)>::empty(),
        p.fs.zips_view() == Seq::<(Seq<char>, Seq<crate::models::ZipEntryView>)>::empty(),
        forall|repo: Seq<char>, tag: Seq<char>| p.github.seeded_assets(repo, tag) is None,
        forall|url: Seq<char>| p.github.seeded_download(url) is None,
{
    TestPorts::new()
}

} // verus!
