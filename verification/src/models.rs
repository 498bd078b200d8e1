//! The domain values the deployer reads and writes, each with the plain
//! mathematical value that contracts speak of.

use vstd::prelude::*;
use vstd::string::*;

verus! {

/// A co-op map as the database records it.
#[derive(Debug, Clone, PartialEq, Eq)]
pub struct CoopMap {
    pub id: i32,
    pub name: String,
    pub version: i32,
    pub filename: String,
    pub checksum: String,
}

/// The value of a `CoopMap`.
pub struct CoopMapView {
    pub id: i32,
    pub name: Seq<char>,
    pub version: i32,
    pub filename: Seq<char>,
    pub checksum: Seq<char>,
}

impl View for CoopMap {
    type V = CoopMapView;

    open spec fn view(&self) -> CoopMapView {
        CoopMapView {
            id: self.id,
            name: self.name@,
            version: self.version,
            filename: self.filename@,
            checksum: self.checksum@,
        }
    }
}

impl CoopMap {
    /// A copy with the same value.
    pub fn duplicate(&self) -> (m: Self)
        ensures
            m@ == self@,
    {
        CoopMap {
            id: self.id,
            name: self.name.clone(),
            version: self.version,
            filename: self.filename.clone(),
            checksum: self.checksum.clone(),
        }
    }
}

/// A named, ordered series of missions.
#[derive(Debug, Clone, PartialEq, Eq)]
pub struct Campaign {
    pub id: i32,
    pub name: String,
    pub map_ids: Vec<i32>,
}

/// The value of a `Campaign`.
pub struct CampaignView {
    pub id: i32,
    pub name: Seq<char>,
    pub map_ids: Seq<i32>,
}

impl View for Campaign {
    type V = CampaignView;

    open spec fn view(&self) -> CampaignView {
        CampaignView { id: self.id, name: self.name@, map_ids: self.map_ids@ }
    }
}

/// A copy of a list of integers.
pub fn copy_ints(v: &Vec<i32>) -> (c: Vec<i32>)
    ensures
        c@ == v@,
{
    let mut c: Vec<i32> = Vec::new();
    let n = v.len();
    let mut i: usize = 0;
    while i < n
        invariant
            n == v@.len(),
            i <= n,
            c@ == v@.subrange(0, i as int),
        decreases n - i,
    {
        c.push(v[i]);
        i = i + 1;
        assert(c@ =~= v@.subrange(0, i as int));
    }
    assert(v@.subrange(0, n as int) =~= v@);
    c
}

/// A copy of a list of bytes.
pub fn copy_bytes(v: &Vec<u8>) -> (c: Vec<u8>)
    ensures
        c@ == v@,
{
    let mut c: Vec<u8> = Vec::new();
    let n = v.len();
    let mut i: usize = 0;
    while i < n
        invariant
            n == v@.len(),
            i <= n,
            c@ == v@.subrange(0, i as int),
        decreases n - i,
    {
        c.push(v[i]);
        i = i + 1;
        assert(c@ =~= v@.subrange(0, i as int));
    }
    assert(v@.subrange(0, n as int) =~= v@);
    c
}

/// The values of a list of strings.
pub open spec fn strings_view(v: Seq<String>) -> Seq<Seq<char>> {
    v.map_values(|s: String| s@)
}

/// A copy of a list of strings.
pub fn copy_strings(v: &Vec<String>) -> (c: Vec<String>)
    ensures
        strings_view(c@) == strings_view(v@),
{
    let mut c: Vec<String> = Vec::new();
    let n = v.len();
    let mut i: usize = 0;
    while i < n
        invariant
            n == v@.len(),
            i <= n,
            c@ == v@.subrange(0, i as int),
        decreases n - i,
    {
        c.push(v[i].clone());
        i = i + 1;
        assert(c@ =~= v@.subrange(0, i as int));
    }
    assert(v@.subrange(0, n as int) =~= v@);
    c
}

impl Campaign {
    /// A copy with the same value.
    pub fn duplicate(&self) -> (c: Self)
        ensures
            c@ == self@,
    {
        Campaign { id: self.id, name: self.name.clone(), map_ids: copy_ints(&self.map_ids) }
    }
}

/// One version of a patch file as the database records it.
#[derive(Debug, Clone, PartialEq, Eq)]
pub struct PatchRecord {
    pub file_id: i32,
    pub name: String,
    pub md5: String,
    pub version: i32,
}

/// The value of a `PatchRecord`.
pub struct PatchRecordView {
    pub file_id: i32,
    pub name: Seq<char>,
    pub md5: Seq<char>,
    pub version: i32,
}

impl View for PatchRecord {
    type V = PatchRecordView;

    open spec fn view(&self) -> PatchRecordView {
        PatchRecordView {
            file_id: self.file_id,
            name: self.name@,
            md5: self.md5@,
            version: self.version,
        }
    }
}

impl PatchRecord {
    /// A copy with the same value.
    pub fn duplicate(&self) -> (r: Self)
        ensures
            r@ == self@,
    {
        PatchRecord {
            file_id: self.file_id,
            name: self.name.clone(),
            md5: self.md5.clone(),
            version: self.version,
        }
    }
}

/// A file to be stored in a map archive: its path inside the archive and
/// its bytes.
#[derive(Debug, Clone)]
pub struct ZipEntry {
    pub path: String,
    pub content: Vec<u8>,
}

/// The value of a `ZipEntry`.
pub struct ZipEntryView {
    pub path: Seq<char>,
    pub content: Seq<u8>,
}

impl View for ZipEntry {
    type V = ZipEntryView;

    open spec fn view(&self) -> ZipEntryView {
        ZipEntryView { path: self.path@, content: self.content@ }
    }
}

/// The values of a list of archive entries.
pub open spec fn entries_view(v: Seq<ZipEntry>) -> Seq<ZipEntryView> {
    v.map_values(|e: ZipEntry| e@)
}

/// A copy of a list of archive entries.
pub fn copy_entries(v: &Vec<ZipEntry>) -> (c: Vec<ZipEntry>)
    ensures
        entries_view(c@) == entries_view(v@),
{
    let mut c: Vec<ZipEntry> = Vec::new();
    let n = v.len();
    let mut i: usize = 0;
    while i < n
        invariant
            n == v@.len(),
            i <= n,
            entries_view(c@) == entries_view(v@.subrange(0, i as int)),
        decreases n - i,
    {
        let e = ZipEntry { path: v[i].path.clone(), content: copy_bytes(&v[i].content) };
        let ghost before = c@;
        c.push(e);
        proof {
            assert(c@ == before.push(e));
            assert(entries_view(c@) =~= entries_view(before).push(e@));
            assert(v@.subrange(0, i + 1) =~= v@.subrange(0, i as int).push(v@[i as int]));
            assert(entries_view(v@.subrange(0, i + 1)) =~= entries_view(
                v@.subrange(0, i as int),
            ).push(v@[i as int]@));
        }
        i = i + 1;
    }
    assert(v@.subrange(0, n as int) =~= v@);
    c
}

/// A downloadable file of a GitHub release.
#[derive(Debug, Clone)]
pub struct Asset {
    pub name: String,
    pub download_url: String,
}

/// The value of an `Asset`.
pub struct AssetView {
    pub name: Seq<char>,
    pub download_url: Seq<char>,
}

impl View for Asset {
    type V = AssetView;

    open spec fn view(&self) -> AssetView {
        AssetView { name: self.name@, download_url: self.download_url@ }
    }
}

/// The values of a list of assets.
pub open spec fn assets_view(v: Seq<Asset>) -> Seq<AssetView> {
    v.map_values(|a: Asset| a@)
}

/// A copy of a list of assets.
pub fn copy_assets(v: &Vec<Asset>) -> (c: Vec<Asset>)
    ensures
        assets_view(c@) == assets_view(v@),
{
    let mut c: Vec<Asset> = Vec::new();
    let n = v.len();
    let mut i: usize = 0;
    while i < n
        invariant
            n == v@.len(),
            i <= n,
            c@ == v@.subrange(0, i as int),
        decreases n - i,
    {
        c.push(Asset { name: v[i].name.clone(), download_url: v[i].download_url.clone() });
        i = i + 1;
        assert(c@ =~= v@.subrange(0, i as int));
    }
    assert(v@.subrange(0, n as int) =~= v@);
    c
}

/// How many items a deployment changed and how many it left alone.
#[derive(Debug, Clone, Copy, PartialEq, Eq, Structural)]
pub struct DeployResult {
    pub updated: u32,
    pub skipped: u32,
}

impl Default for DeployResult {
    /// Nothing updated, nothing skipped.
    fn default() -> (r: Self)
        ensures
            r.updated == 0 && r.skipped == 0,
    {
        DeployResult { updated: 0, skipped: 0 }
    }
}

/// The authenticated caller of a request.
#[derive(Debug, Clone, PartialEq, Eq)]
pub struct CallerIdentity {
    pub user_id: i32,
    pub username: String,
    pub roles: Vec<String>,
}

/// The value of a `CallerIdentity`.
pub struct CallerIdentityView {
    pub user_id: i32,
    pub username: Seq<char>,
    pub roles: Seq<Seq<char>>,
}

impl View for CallerIdentity {
    type V = CallerIdentityView;

    open spec fn view(&self) -> CallerIdentityView {
        CallerIdentityView {
            user_id: self.user_id,
            username: self.username@,
            roles: strings_view(self.roles@),
        }
    }
}

/// `roles` holds `role`.
pub open spec fn holds_role(roles: Seq<Seq<char>>, role: Seq<char>) -> bool {
    exists|i: int| 0 <= i < roles.len() && roles[i] == role
}

impl CallerIdentity {
    /// Whether the caller holds `role`.
    pub fn has_role(&self, role: &str) -> (held: bool)
        ensures
            held == holds_role(self@.roles, role@),
    {
        let n = self.roles.len();
        let mut i: usize = 0;
        while i < n
            invariant
                n == self.roles@.len(),
                i <= n,
                forall|k: int| 0 <= k < i ==> self.roles@[k]@ != role@,
            decreases n - i,
        {
            if crate::text::str_equal(self.roles[i].as_str(), role) {
                assert(self@.roles[i as int] == role@);
                return true;
            }
            i = i + 1;
        }
        false
    }

    /// A copy with the same value.
    pub fn duplicate(&self) -> (c: Self)
        ensures
            c@ == self@,
    {
        CallerIdentity {
            user_id: self.user_id,
            username: self.username.clone(),
            roles: copy_strings(&self.roles),
        }
    }
}

} // verus!
