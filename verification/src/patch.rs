//! Patch deployment: each known patch file found in the configured GitHub
//! release is downloaded, checksummed, and recorded in the database as a
//! new version when its checksum differs from the recorded one.
//!
//! The deployment is a state machine: it tells its driver what to do next
//! (an action), and the driver hands back what came of it (an event). The
//! service binary drives it against the real ports; `deploy_patches` drives
//! it against the in-memory ports.

use vstd::prelude::*;
use vstd::string::*;
use crate::errors::{DbError, DeployError, FsError, GithubError};
use crate::fs::{byte_sum, fake_md5};
use crate::github::{FakeGithub, no_download_message};
use crate::models::{Asset, AssetView, DeployResult, PatchRecord, PatchRecordView, assets_view, copy_assets, copy_strings, strings_view};
use crate::ports::TestPorts;
use crate::text::{contains_seq, parse_i32, parsed_i32, str_contains, str_equal};

verus! {

/// How many patch files the deployer knows.
pub const PATCH_FILE_COUNT: usize = 25;

/// The name of the `i`-th known patch file.
pub open spec fn patch_file_name(i: int) -> Seq<char> {
    if i == 0 { "init_coop"@ }
    else if i == 1 { "lobby_coop"@ }
    else if i == 2 { "A01_VO"@ }
    else if i == 3 { "A02_VO"@ }
    else if i == 4 { "A03_VO"@ }
    else if i == 5 { "A04_VO"@ }
    else if i == 6 { "A05_VO"@ }
    else if i == 7 { "A06_VO"@ }
    else if i == 8 { "C01_VO"@ }
    else if i == 9 { "C02_VO"@ }
    else if i == 10 { "C03_VO"@ }
    else if i == 11 { "C04_VO"@ }
    else if i == 12 { "C05_VO"@ }
    else if i == 13 { "C06_VO"@ }
    else if i == 14 { "E01_VO"@ }
    else if i == 15 { "E02_VO"@ }
    else if i == 16 { "E03_VO"@ }
    else if i == 17 { "E04_VO"@ }
    else if i == 18 { "E05_VO"@ }
    else if i == 19 { "E06_VO"@ }
    else if i == 20 { "Prothyon16_VO"@ }
    else if i == 21 { "TCR_VO"@ }
    else if i == 22 { "SCCA_Briefings"@ }
    else if i == 23 { "SCCA_FMV"@ }
    else { "FAF_Coop_Operation_Tight_Spot_VO"@ }
}

/// The database file id of the `i`-th known patch file.
pub open spec fn patch_file_id(i: int) -> i32 {
    (i + 1) as i32
}

/// A known patch file: its database id and the name its release asset
/// carries.
struct PatchFile {
    file_id: i32,
    name: &'static str,
}

/// The name of the `i`-th known patch file.
fn patch_file_name_str(i: usize) -> (name: &'static str)
    requires
        i < PATCH_FILE_COUNT,
    ensures
        name@ == patch_file_name(i as int),
{
    if i == 0 { "init_coop" }
    else if i == 1 { "lobby_coop" }
    else if i == 2 { "A01_VO" }
    else if i == 3 { "A02_VO" }
    else if i == 4 { "A03_VO" }
    else if i == 5 { "A04_VO" }
    else if i == 6 { "A05_VO" }
    else if i == 7 { "A06_VO" }
    else if i == 8 { "C01_VO" }
    else if i == 9 { "C02_VO" }
    else if i == 10 { "C03_VO" }
    else if i == 11 { "C04_VO" }
    else if i == 12 { "C05_VO" }
    else if i == 13 { "C06_VO" }
    else if i == 14 { "E01_VO" }
    else if i == 15 { "E02_VO" }
    else if i == 16 { "E03_VO" }
    else if i == 17 { "E04_VO" }
    else if i == 18 { "E05_VO" }
    else if i == 19 { "E06_VO" }
    else if i == 20 { "Prothyon16_VO" }
    else if i == 21 { "TCR_VO" }
    else if i == 22 { "SCCA_Briefings" }
    else if i == 23 { "SCCA_FMV" }
    else { "FAF_Coop_Operation_Tight_Spot_VO" }
}

/// The `i`-th known patch file.
fn patch_file(i: usize) -> (f: PatchFile)
    requires
        i < PATCH_FILE_COUNT,
    ensures
        f.file_id == patch_file_id(i as int),
        f.name@ == patch_file_name(i as int),
{
    PatchFile { file_id: (i + 1) as i32, name: patch_file_name_str(i) }
}

/// Where patches come from and whether the database may be written.
pub struct PatchConfig {
    pub repo: String,
    pub tag: String,
    pub version: i32,
    pub dry_run: bool,
}

impl PatchConfig {
    /// The configuration the environment gives: the repository
    /// (`COOP_PATCH_REPO`, default `FAForever/fa-coop`), the release tag
    /// (`PATCH_VERSION`, default `latest`), the version (`PATCH_VERSION` read
    /// as an integer, default 1) and dry running (`DRY_RUN` set to `true`).
    /// Each argument is the variable's value, or `None` when it is unset.
    pub fn from_vars(repo: Option<String>, patch_version: Option<String>, dry_run: Option<String>) -> (c:
        PatchConfig)
        ensures
            c.repo@ == match repo {
                Some(r) => r@,
                None => "FAForever/fa-coop"@,
            },
            c.tag@ == match patch_version {
                Some(v) => v@,
                None => "latest"@,
            },
            c.version == match patch_version {
                Some(v) => match parsed_i32(v@) {
                    Some(n) => n,
                    None => 1,
                },
                None => 1,
            },
            c.dry_run == match dry_run {
                Some(d) => d@ == "true"@,
                None => false,
            },
    {
        let version = match &patch_version {
            Some(v) => match parse_i32(v.as_str()) {
                Some(n) => n,
                None => 1,
            },
            None => 1,
        };
        let tag = match patch_version {
            Some(v) => v,
            None => String::from_str("latest"),
        };
        let repo = match repo {
            Some(r) => r,
            None => String::from_str("FAForever/fa-coop"),
        };
        let dry_run = match &dry_run {
            Some(d) => str_equal(d.as_str(), "true"),
            None => false,
        };
        PatchConfig { repo, tag, version, dry_run }
    }
}

/// Where a patch deployment stands.
#[derive(Debug, Clone, Copy, PartialEq, Eq, Structural)]
pub enum PatchStage {
    /// Waiting for the release's assets.
    Fetching,
    /// Waiting for the current patch file's download.
    Downloading,
    /// Waiting for the checksum of the download.
    Hashing,
    /// Waiting for the recorded version of the current patch file.
    Looking,
    /// Waiting for the new version to be recorded.
    Storing,
    /// Done; nothing more to do.
    Finished,
}

/// What a patch deployment asks its driver to do next.
pub enum PatchAction {
    FetchReleaseAssets { repo: String, tag: String },
    DownloadAsset { url: String },
    ComputeMd5 { content: Vec<u8> },
    GetPatchRecord { file_id: i32 },
    UpsertPatch { record: PatchRecord },
    /// The deployment is over, with this outcome.
    Done(Result<DeployResult, DeployError>),
}

/// What came of the last action.
pub enum PatchEvent {
    AssetsFetched(Result<Vec<Asset>, GithubError>),
    AssetDownloaded(Result<Vec<u8>, GithubError>),
    Md5Computed(Result<String, FsError>),
    RecordFetched(Result<Option<PatchRecord>, DbError>),
    PatchUpserted(Result<(), DbError>),
}

/// The value of a `PatchAction`.
pub enum PatchActionView {
    FetchReleaseAssets { repo: Seq<char>, tag: Seq<char> },
    DownloadAsset { url: Seq<char> },
    ComputeMd5 { content: Seq<u8> },
    GetPatchRecord { file_id: i32 },
    UpsertPatch { record: PatchRecordView },
    Done { result: Result<DeployResult, Seq<char>> },
}

/// The value of a `PatchEvent`; errors are taken by their messages.
pub enum PatchEventView {
    AssetsFetched(Result<Seq<AssetView>, Seq<char>>),
    AssetDownloaded(Result<Seq<u8>, Seq<char>>),
    Md5Computed(Result<Seq<char>, Seq<char>>),
    RecordFetched(Result<Option<PatchRecordView>, Seq<char>>),
    PatchUpserted(Result<(), Seq<char>>),
}

impl View for PatchAction {
    type V = PatchActionView;

    open spec fn view(&self) -> PatchActionView {
        match self {
            PatchAction::FetchReleaseAssets { repo, tag } => PatchActionView::FetchReleaseAssets {
                repo: repo@,
                tag: tag@,
            },
            PatchAction::DownloadAsset { url } => PatchActionView::DownloadAsset { url: url@ },
            PatchAction::ComputeMd5 { content } => PatchActionView::ComputeMd5 { content: content@ },
            PatchAction::GetPatchRecord { file_id } => PatchActionView::GetPatchRecord {
                file_id: *file_id,
            },
            PatchAction::UpsertPatch { record } => PatchActionView::UpsertPatch { record: record@ },
            PatchAction::Done(r) => PatchActionView::Done {
                result: match r {
                    Ok(d) => Ok(*d),
                    Err(e) => Err(e.0@),
                },
            },
        }
    }
}

impl View for PatchEvent {
    type V = PatchEventView;

    open spec fn view(&self) -> PatchEventView {
        match self {
            PatchEvent::AssetsFetched(r) => PatchEventView::AssetsFetched(
                match r {
                    Ok(a) => Ok(assets_view(a@)),
                    Err(e) => Err(e.0@),
                },
            ),
            PatchEvent::AssetDownloaded(r) => PatchEventView::AssetDownloaded(
                match r {
                    Ok(c) => Ok(c@),
                    Err(e) => Err(e.0@),
                },
            ),
            PatchEvent::Md5Computed(r) => PatchEventView::Md5Computed(
                match r {
                    Ok(m) => Ok(m@),
                    Err(e) => Err(e.0@),
                },
            ),
            PatchEvent::RecordFetched(r) => PatchEventView::RecordFetched(
                match r {
                    Ok(Some(p)) => Ok(Some(p@)),
                    Ok(None) => Ok(None),
                    Err(e) => Err(e.0@),
                },
            ),
            PatchEvent::PatchUpserted(r) => PatchEventView::PatchUpserted(
                match r {
                    Ok(()) => Ok(()),
                    Err(e) => Err(e.0@),
                },
            ),
        }
    }
}

/// A patch deployment in progress.
pub struct PatchDeploy {
    repo: String,
    tag: String,
    dry_run: bool,
    stage: PatchStage,
    assets: Vec<Asset>,
    index: usize,
    result: DeployResult,
    md5: String,
    notes: Vec<String>,
}

/// The value of a `PatchDeploy`: the configuration, the stage, the release's
/// assets, the patch file at hand, the counts so far, and the checksum of
/// the current download, and the notes of the last step: the patch files it
/// passed over because the release has no asset for them.
pub struct PatchDeployView {
    pub repo: Seq<char>,
    pub tag: Seq<char>,
    pub dry_run: bool,
    pub stage: PatchStage,
    pub assets: Seq<AssetView>,
    pub index: int,
    pub updated: int,
    pub skipped: int,
    pub md5: Seq<char>,
    pub notes: Seq<Seq<char>>,
}

impl View for PatchDeploy {
    type V = PatchDeployView;

    closed spec fn view(&self) -> PatchDeployView {
        PatchDeployView {
            repo: self.repo@,
            tag: self.tag@,
            dry_run: self.dry_run,
            stage: self.stage,
            assets: assets_view(self.assets@),
            index: self.index as int,
            updated: self.result.updated as int,
            skipped: self.result.skipped as int,
            md5: self.md5@,
            notes: strings_view(self.notes@),
        }
    }
}

/// The position of the first asset at or after `k` whose name contains
/// `name`.
pub open spec fn asset_index_from(assets: Seq<AssetView>, name: Seq<char>, k: int) -> Option<int>
    decreases assets.len() - k,
{
    if k < 0 || k >= assets.len() {
        None
    } else if contains_seq(assets[k].name, name) {
        Some(k)
    } else {
        asset_index_from(assets, name, k + 1)
    }
}

/// The position of the first asset whose name contains `name`: the asset
/// that carries the patch file of that name.
pub open spec fn asset_index(assets: Seq<AssetView>, name: Seq<char>) -> Option<int> {
    asset_index_from(assets, name, 0)
}

proof fn lemma_asset_index_from(assets: Seq<AssetView>, name: Seq<char>, k: int)
    requires
        0 <= k,
    ensures
        match asset_index_from(assets, name, k) {
            Some(j) => k <= j < assets.len() && contains_seq(assets[j].name, name),
            None => true,
        },
    decreases assets.len() - k,
{
    if k < assets.len() && !contains_seq(assets[k].name, name) {
        lemma_asset_index_from(assets, name, k + 1);
    }
}

/// The counts of `v` as a result.
pub open spec fn counts(updated: int, skipped: int) -> DeployResult {
    DeployResult { updated: updated as u32, skipped: skipped as u32 }
}

/// The version a changed patch file is recorded under: one more than the
/// recorded version, or 1 for a file never recorded.
pub open spec fn next_patch_version(existing: Option<PatchRecordView>) -> int {
    match existing {
        Some(r) => r.version + 1,
        None => 1,
    }
}

/// The note for passing over patch file `index`, which release `tag` has no
/// asset for (`patch '{name}' not in release {tag} (unchanged), skipping`).
pub open spec fn missing_note(index: int, tag: Seq<char>) -> Seq<char> {
    "patch '"@ + patch_file_name(index) + "' not in release "@ + tag + " (unchanged), skipping"@
}

impl PatchDeployView {
    /// The counts are consistent with the position reached.
    pub open spec fn wf(self) -> bool {
        &&& 0 <= self.index <= PATCH_FILE_COUNT
        &&& 0 <= self.updated
        &&& 0 <= self.skipped
        &&& self.updated + self.skipped == self.index
        &&& (self.stage != PatchStage::Fetching && self.stage != PatchStage::Finished) ==> self.index
            < PATCH_FILE_COUNT
        &&& self.stage == PatchStage::Fetching ==> self.index == 0
    }

    /// The deployment finishes with `result`.
    pub open spec fn finish(self, result: Result<DeployResult, Seq<char>>) -> (
        PatchDeployView,
        PatchActionView,
    ) {
        (PatchDeployView { stage: PatchStage::Finished, ..self }, PatchActionView::Done { result })
    }

    /// Moves on from the patch file at hand: skips every patch file the
    /// release has no asset for, and asks for the download of the next one
    /// it has; finishes with the counts when no patch file is left.
    pub open spec fn advance(self) -> (PatchDeployView, PatchActionView)
        decreases PATCH_FILE_COUNT - self.index,
    {
        if self.index < 0 || self.index >= PATCH_FILE_COUNT {
            self.finish(Ok(counts(self.updated, self.skipped)))
        } else {
            match asset_index(self.assets, patch_file_name(self.index)) {
                Some(k) => (
                    PatchDeployView { stage: PatchStage::Downloading, ..self },
                    PatchActionView::DownloadAsset { url: self.assets[k].download_url },
                ),
                None => PatchDeployView {
                    index: self.index + 1,
                    skipped: self.skipped + 1,
                    notes: self.notes.push(missing_note(self.index, self.tag)),
                    ..self
                }.advance(),
            }
        }
    }

    /// `e` answers the action the deployment waits on.
    pub open spec fn accepts(self, e: PatchEventView) -> bool {
        match e {
            PatchEventView::AssetsFetched(_) => self.stage == PatchStage::Fetching,
            PatchEventView::AssetDownloaded(_) => self.stage == PatchStage::Downloading,
            PatchEventView::Md5Computed(_) => self.stage == PatchStage::Hashing,
            PatchEventView::RecordFetched(_) => self.stage == PatchStage::Looking,
            PatchEventView::PatchUpserted(_) => self.stage == PatchStage::Storing,
        }
    }

    /// Taking `e` would compute a version beyond `i32::MAX`, which the
    /// deployment cannot record.
    pub open spec fn overflows(self, e: PatchEventView) -> bool {
        match e {
            PatchEventView::RecordFetched(Ok(existing)) => !(existing matches Some(r) && r.md5
                == self.md5) && !self.dry_run && next_patch_version(existing) > i32::MAX,
            _ => false,
        }
    }

    /// The next state and action after `e`.
    pub open spec fn transition(self, e: PatchEventView) -> (PatchDeployView, PatchActionView) {
        let name = patch_file_name(self.index);
        let id = patch_file_id(self.index);
        let s = PatchDeployView { notes: Seq::empty(), ..self };
        match e {
            PatchEventView::AssetsFetched(Err(m)) => s.finish(
                Err("failed to fetch release assets: "@ + m),
            ),
            PatchEventView::AssetsFetched(Ok(a)) => PatchDeployView {
                assets: a,
                index: 0,
                updated: 0,
                skipped: 0,
                ..s
            }.advance(),
            PatchEventView::AssetDownloaded(Err(m)) => s.finish(
                Err("download failed for "@ + name + ": "@ + m),
            ),
            PatchEventView::AssetDownloaded(Ok(c)) => (
                PatchDeployView { stage: PatchStage::Hashing, ..s },
                PatchActionView::ComputeMd5 { content: c },
            ),
            PatchEventView::Md5Computed(Err(m)) => s.finish(Err("md5 failed: "@ + m)),
            PatchEventView::Md5Computed(Ok(h)) => (
                PatchDeployView { stage: PatchStage::Looking, md5: h, ..s },
                PatchActionView::GetPatchRecord { file_id: id },
            ),
            PatchEventView::RecordFetched(Err(m)) => s.finish(Err(m)),
            PatchEventView::RecordFetched(Ok(existing)) => if existing matches Some(r) && r.md5
                == self.md5 {
                PatchDeployView {
                    index: self.index + 1,
                    skipped: self.skipped + 1,
                    ..s
                }.advance()
            } else if self.dry_run {
                PatchDeployView {
                    index: self.index + 1,
                    updated: self.updated + 1,
                    ..s
                }.advance()
            } else {
                (
                    PatchDeployView { stage: PatchStage::Storing, ..s },
                    PatchActionView::UpsertPatch {
                        record: PatchRecordView {
                            file_id: id,
                            name,
                            md5: self.md5,
                            version: next_patch_version(existing) as i32,
                        },
                    },
                )
            },
            PatchEventView::PatchUpserted(Err(m)) => s.finish(Err(m)),
            PatchEventView::PatchUpserted(Ok(())) => PatchDeployView {
                index: self.index + 1,
                updated: self.updated + 1,
                ..s
            }.advance(),
        }
    }

    /// `a` is the action the deployment waits on in this state.
    pub open spec fn awaits(self, a: PatchActionView) -> bool {
        &&& self.wf()
        &&& match a {
            PatchActionView::FetchReleaseAssets { repo, tag } => self.stage == PatchStage::Fetching
                && repo == self.repo && tag == self.tag,
            PatchActionView::DownloadAsset { url } => self.stage == PatchStage::Downloading,
            PatchActionView::ComputeMd5 { .. } => self.stage == PatchStage::Hashing,
            PatchActionView::GetPatchRecord { file_id } => self.stage == PatchStage::Looking
                && file_id == patch_file_id(self.index),
            PatchActionView::UpsertPatch { .. } => self.stage == PatchStage::Storing,
            PatchActionView::Done { .. } => self.stage == PatchStage::Finished,
        }
    }

    /// A measure of the work left, which every step lowers.
    pub open spec fn progress(self) -> int {
        if self.stage == PatchStage::Finished {
            0
        } else {
            (PATCH_FILE_COUNT - self.index) * 6 + match self.stage {
                PatchStage::Fetching => 5int,
                PatchStage::Downloading => 4int,
                PatchStage::Hashing => 3int,
                PatchStage::Looking => 2int,
                PatchStage::Storing => 1int,
                PatchStage::Finished => 0int,
            }
        }
    }
}

/// Advancing from a consistent state reaches a consistent state, with less
/// work left than before the patch file at hand.
pub proof fn lemma_advance(v: PatchDeployView)
    requires
        0 <= v.index <= PATCH_FILE_COUNT,
        0 <= v.updated,
        0 <= v.skipped,
        v.updated + v.skipped == v.index,
    ensures
        v.advance().0.awaits(v.advance().1),
        v.advance().0.progress() <= (PATCH_FILE_COUNT - v.index) * 6 + 4,
        v.advance().0.assets == v.assets,
        v.advance().0.dry_run == v.dry_run,
    decreases PATCH_FILE_COUNT - v.index,
{
    if v.index < PATCH_FILE_COUNT {
        match asset_index(v.assets, patch_file_name(v.index)) {
            Some(k) => {},
            None => {
                lemma_advance(
                    PatchDeployView {
                        index: v.index + 1,
                        skipped: v.skipped + 1,
                        notes: v.notes.push(missing_note(v.index, v.tag)),
                        ..v
                    },
                );
            },
        }
    }
}

/// The first asset whose name contains `name`.
fn find_asset(assets: &Vec<Asset>, name: &str) -> (k: Option<usize>)
    ensures
        match k {
            Some(k) => asset_index(assets_view(assets@), name@) == Some(k as int) && k
                < assets@.len(),
            None => asset_index(assets_view(assets@), name@) is None,
        },
{
    let ghost view = assets_view(assets@);
    let n = assets.len();
    let mut k: usize = 0;
    while k < n
        invariant
            n == assets@.len(),
            view == assets_view(assets@),
            k <= n,
            asset_index(view, name@) == asset_index_from(view, name@, k as int),
        decreases n - k,
    {
        assert(view[k as int].name == assets@[k as int].name@);
        if str_contains(assets[k].name.as_str(), name) {
            return Some(k);
        }
        k = k + 1;
    }
    None
}

impl PatchDeploy {
    /// A deployment for `config`, which first asks for the release's assets.
    pub fn start(config: &PatchConfig) -> (r: (PatchDeploy, PatchAction))
        ensures
            r.0@ == (PatchDeployView {
                repo: config.repo@,
                tag: config.tag@,
                dry_run: config.dry_run,
                stage: PatchStage::Fetching,
                assets: Seq::empty(),
                index: 0,
                updated: 0,
                skipped: 0,
                md5: Seq::empty(),
                notes: Seq::empty(),
            }),
            r.1@ == (PatchActionView::FetchReleaseAssets { repo: config.repo@, tag: config.tag@ }),
            r.0@.awaits(r.1@),
    {
        let d = PatchDeploy {
            repo: config.repo.clone(),
            tag: config.tag.clone(),
            dry_run: config.dry_run,
            stage: PatchStage::Fetching,
            assets: Vec::new(),
            index: 0,
            result: DeployResult { updated: 0, skipped: 0 },
            md5: String::new(),
            notes: Vec::new(),
        };
        assert(assets_view(d.assets@) =~= Seq::<AssetView>::empty());
        assert(strings_view(d.notes@) =~= Seq::<Seq<char>>::empty());
        let a = PatchAction::FetchReleaseAssets { repo: config.repo.clone(), tag: config.tag.clone() };
        (d, a)
    }

    /// Whether the deployment is over.
    pub fn is_finished(&self) -> (done: bool)
        ensures
            done == (self@.stage == PatchStage::Finished),
    {
        self.stage == PatchStage::Finished
    }

    /// The notes of the last step: the patch files it passed over because
    /// the release has no asset for them (see `missing_note`).
    pub fn notes(&self) -> (n: Vec<String>)
        ensures
            strings_view(n@) == self@.notes,
    {
        copy_strings(&self.notes)
    }

    /// See `PatchDeployView::advance`.
    fn advance(&mut self) -> (a: PatchAction)
        requires
            0 <= old(self)@.index <= PATCH_FILE_COUNT,
            old(self)@.updated + old(self)@.skipped == old(self)@.index,
        ensures
            (final(self)@, a@) == old(self)@.advance(),
    {
        while self.index < PATCH_FILE_COUNT
            invariant
                0 <= self@.index <= PATCH_FILE_COUNT,
                self@.updated + self@.skipped == self@.index,
                self@.advance() == old(self)@.advance(),
            decreases PATCH_FILE_COUNT - self.index,
        {
            let name = patch_file_name_str(self.index);
            match find_asset(&self.assets, name) {
                Some(k) => {
                    self.stage = PatchStage::Downloading;
                    return PatchAction::DownloadAsset { url: self.assets[k].download_url.clone() };
                },
                None => {
                    let note = String::from_str("patch '").concat(name).concat("' not in release ").concat(
                        self.tag.as_str(),
                    ).concat(" (unchanged), skipping");
                    let ghost before = self.notes@;
                    self.notes.push(note);
                    proof {
                        assert(strings_view(self.notes@) =~= strings_view(before).push(note@));
                    }
                    self.index = self.index + 1;
                    self.result.skipped = self.result.skipped + 1;
                },
            }
        }
        self.stage = PatchStage::Finished;
        PatchAction::Done(Ok(self.result))
    }

    /// Takes what came of the last action and gives the next action (see
    /// `PatchDeployView::transition`).
    pub fn step(&mut self, event: PatchEvent) -> (a: PatchAction)
        requires
            old(self)@.wf(),
            old(self)@.stage != PatchStage::Finished,
            old(self)@.accepts(event@),
            !old(self)@.overflows(event@),
        ensures
            (final(self)@, a@) == old(self)@.transition(event@),
            final(self)@.awaits(a@),
            final(self)@.progress() < old(self)@.progress(),
            final(self)@.dry_run == old(self)@.dry_run,
    {
        self.notes = Vec::new();
        proof {
            assert(strings_view(self.notes@) =~= Seq::<Seq<char>>::empty());
        }
        let ghost v = self@;
        match event {
            PatchEvent::AssetsFetched(r) => match r {
                Err(e) => {
                    self.stage = PatchStage::Finished;
                    PatchAction::Done(Err(DeployError::with_cause("failed to fetch release assets: ", &e.0)))
                },
                Ok(assets) => {
                    self.assets = assets;
                    self.index = 0;
                    self.result = DeployResult { updated: 0, skipped: 0 };
                    proof { lemma_advance(self@); }
                    self.advance()
                },
            },
            PatchEvent::AssetDownloaded(r) => match r {
                Err(e) => {
                    let name = patch_file_name_str(self.index);
                    let msg = String::from_str("download failed for ");
                    let msg = msg.concat(name);
                    let msg = msg.concat(": ");
                    let msg = msg.concat(e.0.as_str());
                    self.stage = PatchStage::Finished;
                    PatchAction::Done(Err(DeployError(msg)))
                },
                Ok(content) => {
                    self.stage = PatchStage::Hashing;
                    PatchAction::ComputeMd5 { content }
                },
            },
            PatchEvent::Md5Computed(r) => match r {
                Err(e) => {
                    self.stage = PatchStage::Finished;
                    PatchAction::Done(Err(DeployError::with_cause("md5 failed: ", &e.0)))
                },
                Ok(h) => {
                    self.md5 = h;
                    self.stage = PatchStage::Looking;
                    PatchAction::GetPatchRecord { file_id: patch_file(self.index).file_id }
                },
            },
            PatchEvent::RecordFetched(r) => match r {
                Err(e) => {
                    self.stage = PatchStage::Finished;
                    PatchAction::Done(Err(DeployError::new(e.0.as_str())))
                },
                Ok(existing) => {
                    let same = match &existing {
                        Some(rec) => str_equal(rec.md5.as_str(), self.md5.as_str()),
                        None => false,
                    };
                    if same {
                        self.index = self.index + 1;
                        self.result.skipped = self.result.skipped + 1;
                        proof { lemma_advance(self@); }
                        self.advance()
                    } else if self.dry_run {
                        self.index = self.index + 1;
                        self.result.updated = self.result.updated + 1;
                        proof { lemma_advance(self@); }
                        self.advance()
                    } else {
                        let version = match &existing {
                            Some(rec) => rec.version + 1,
                            None => 1,
                        };
                        let f = patch_file(self.index);
                        self.stage = PatchStage::Storing;
                        PatchAction::UpsertPatch {
                            record: PatchRecord {
                                file_id: f.file_id,
                                name: String::from_str(f.name),
                                md5: self.md5.clone(),
                                version,
                            },
                        }
                    }
                },
            },
            PatchEvent::PatchUpserted(r) => match r {
                Err(e) => {
                    self.stage = PatchStage::Finished;
                    PatchAction::Done(Err(DeployError::new(e.0.as_str())))
                },
                Ok(()) => {
                    self.index = self.index + 1;
                    self.result.updated = self.result.updated + 1;
                    proof { lemma_advance(self@); }
                    self.advance()
                },
            },
        }
    }
}

/// The assets the in-memory GitHub gives for release `tag` of `repo`.
pub open spec fn release_assets(g: FakeGithub, repo: Seq<char>, tag: Seq<char>) -> Seq<AssetView> {
    match g.seeded_assets(repo, tag) {
        Some(a) => a,
        None => Seq::empty(),
    }
}

/// The patch record stored under `id`, if any.
pub open spec fn stored_patch(p: Map<i32, PatchRecordView>, id: i32) -> Option<PatchRecordView> {
    if p.contains_key(id) {
        Some(p[id])
    } else {
        None
    }
}

/// A deployment against the in-memory ports, from patch file `i` on, with
/// `updated` and `skipped` counted so far and patch records `p`: the
/// outcome (`None` where the deployment cannot go on: a checksum sum or a
/// version beyond what its integer type holds) and the records left.
///
/// A patch file the release has no asset for is skipped; one whose download
/// is missing ends the deployment with an error; one whose checksum equals
/// the recorded one is skipped; any other is counted as updated and, unless
/// dry running, recorded under the next version.
pub open spec fn patches_from(
    g: FakeGithub,
    assets: Seq<AssetView>,
    dry_run: bool,
    i: int,
    p: Map<i32, PatchRecordView>,
    updated: int,
    skipped: int,
) -> (Option<Result<DeployResult, Seq<char>>>, Map<i32, PatchRecordView>)
    decreases PATCH_FILE_COUNT - i, 2int,
{
    if i < 0 || i >= PATCH_FILE_COUNT {
        (Some(Ok(counts(updated, skipped))), p)
    } else {
        match asset_index(assets, patch_file_name(i)) {
            None => patches_from(g, assets, dry_run, i + 1, p, updated, skipped + 1),
            Some(k) => {
                let url = assets[k].download_url;
                match g.seeded_download(url) {
                    None => (
                        Some(Err("download failed for "@ + patch_file_name(i) + ": "@ + no_download_message(url))),
                        p,
                    ),
                    Some(c) => patch_after_download(g, assets, dry_run, i, c, p, updated, skipped),
                }
            },
        }
    }
}

/// The rest of `patches_from` once patch file `i` has been downloaded as `c`.
pub open spec fn patch_after_download(
    g: FakeGithub,
    assets: Seq<AssetView>,
    dry_run: bool,
    i: int,
    c: Seq<u8>,
    p: Map<i32, PatchRecordView>,
    updated: int,
    skipped: int,
) -> (Option<Result<DeployResult, Seq<char>>>, Map<i32, PatchRecordView>)
    decreases PATCH_FILE_COUNT - i, 1int,
{
    if i < 0 || i >= PATCH_FILE_COUNT || byte_sum(c) > u64::MAX {
        (None, p)
    } else {
        patch_after_md5(g, assets, dry_run, i, fake_md5(c), p, updated, skipped)
    }
}

/// The rest of `patches_from` once the checksum `m` of patch file `i` is known.
pub open spec fn patch_after_md5(
    g: FakeGithub,
    assets: Seq<AssetView>,
    dry_run: bool,
    i: int,
    m: Seq<char>,
    p: Map<i32, PatchRecordView>,
    updated: int,
    skipped: int,
) -> (Option<Result<DeployResult, Seq<char>>>, Map<i32, PatchRecordView>)
    decreases PATCH_FILE_COUNT - i, 0int,
{
    let id = patch_file_id(i);
    let existing = stored_patch(p, id);
    if i < 0 || i >= PATCH_FILE_COUNT {
        (None, p)
    } else if existing matches Some(r) && r.md5 == m {
        patches_from(g, assets, dry_run, i + 1, p, updated, skipped + 1)
    } else if dry_run {
        patches_from(g, assets, dry_run, i + 1, p, updated + 1, skipped)
    } else if next_patch_version(existing) > i32::MAX {
        (None, p)
    } else {
        patches_from(
            g,
            assets,
            dry_run,
            i + 1,
            p.insert(
                id,
                PatchRecordView {
                    file_id: id,
                    name: patch_file_name(i),
                    md5: m,
                    version: next_patch_version(existing) as i32,
                },
            ),
            updated + 1,
            skipped,
        )
    }
}

/// A whole patch deployment against the in-memory ports: GitHub `g`, patch
/// records `p`, release `tag` of `repo`.
pub open spec fn patch_deployment(
    g: FakeGithub,
    p: Map<i32, PatchRecordView>,
    repo: Seq<char>,
    tag: Seq<char>,
    dry_run: bool,
) -> (Option<Result<DeployResult, Seq<char>>>, Map<i32, PatchRecordView>) {
    patches_from(g, release_assets(g, repo, tag), dry_run, 0, p, 0, 0)
}

/// What is left of a deployment against the in-memory ports when it is in
/// state `v` and waits on action `a`.
pub open spec fn remaining_patch_outcome(
    v: PatchDeployView,
    a: PatchActionView,
    g: FakeGithub,
    p: Map<i32, PatchRecordView>,
) -> (Option<Result<DeployResult, Seq<char>>>, Map<i32, PatchRecordView>) {
    match a {
        PatchActionView::Done { result } => (Some(result), p),
        PatchActionView::FetchReleaseAssets { repo, tag } => patches_from(
            g,
            release_assets(g, repo, tag),
            v.dry_run,
            0,
            p,
            0,
            0,
        ),
        PatchActionView::DownloadAsset { url } => match g.seeded_download(url) {
            None => (
                Some(Err("download failed for "@ + patch_file_name(v.index) + ": "@ + no_download_message(url))),
                p,
            ),
            Some(c) => patch_after_download(g, v.assets, v.dry_run, v.index, c, p, v.updated, v.skipped),
        },
        PatchActionView::ComputeMd5 { content } => patch_after_download(
            g,
            v.assets,
            v.dry_run,
            v.index,
            content,
            p,
            v.updated,
            v.skipped,
        ),
        PatchActionView::GetPatchRecord { .. } => patch_after_md5(
            g,
            v.assets,
            v.dry_run,
            v.index,
            v.md5,
            p,
            v.updated,
            v.skipped,
        ),
        PatchActionView::UpsertPatch { record } => patches_from(
            g,
            v.assets,
            v.dry_run,
            v.index + 1,
            p.insert(record.file_id, record),
            v.updated + 1,
            v.skipped,
        ),
    }
}

/// Advancing leaves what is left of the deployment as `patches_from` says
/// from the patch file at hand.
proof fn lemma_advance_outcome(v: PatchDeployView, g: FakeGithub, p: Map<i32, PatchRecordView>)
    requires
        0 <= v.index <= PATCH_FILE_COUNT,
    ensures
        remaining_patch_outcome(v.advance().0, v.advance().1, g, p) == patches_from(
            g,
            v.assets,
            v.dry_run,
            v.index,
            p,
            v.updated,
            v.skipped,
        ),
    decreases PATCH_FILE_COUNT - v.index,
{
    if v.index < PATCH_FILE_COUNT {
        match asset_index(v.assets, patch_file_name(v.index)) {
            Some(k) => {},
            None => {
                lemma_advance_outcome(
                    PatchDeployView {
                        index: v.index + 1,
                        skipped: v.skipped + 1,
                        notes: v.notes.push(missing_note(v.index, v.tag)),
                        ..v
                    },
                    g,
                    p,
                );
            },
        }
    }
}

/// Deploys the known patch files from the configured release, against the
/// in-memory ports (see `patch_deployment`): the result, and the patch
/// records left, are those of the deployment; nothing else is written.
pub fn deploy_patches(ports: &mut TestPorts, config: &PatchConfig) -> (r: Result<DeployResult, DeployError>)
    requires
        patch_deployment(
            old(ports).github,
            old(ports).db.patches(),
            config.repo@,
            config.tag@,
            config.dry_run,
        ).0 is Some,
    ensures
        ({
            let outcome = patch_deployment(
                old(ports).github,
                old(ports).db.patches(),
                config.repo@,
                config.tag@,
                config.dry_run,
            );
            &&& match r {
                Ok(d) => outcome.0 == Some(Ok::<DeployResult, Seq<char>>(d)),
                Err(e) => outcome.0 == Some(Err::<DeployResult, Seq<char>>(e.0@)),
            }
            &&& final(ports).db.patches() == outcome.1
        }),
        final(ports).db.maps() == old(ports).db.maps(),
        final(ports).db.campaigns() == old(ports).db.campaigns(),
        final(ports).fs.files_view() == old(ports).fs.files_view(),
        final(ports).fs.zips_view() == old(ports).fs.zips_view(),
        final(ports).github == old(ports).github,
{
    let ghost outcome = patch_deployment(
        ports.github,
        ports.db.patches(),
        config.repo@,
        config.tag@,
        config.dry_run,
    );
    let (mut machine, mut action) = PatchDeploy::start(config);
    loop
        invariant
            machine@.awaits(action@),
            machine@.dry_run == config.dry_run,
            remaining_patch_outcome(machine@, action@, ports.github, ports.db.patches()) == outcome,
            outcome == patch_deployment(
                old(ports).github,
                old(ports).db.patches(),
                config.repo@,
                config.tag@,
                config.dry_run,
            ),
            outcome.0 is Some,
            ports.github == old(ports).github,
            ports.db.maps() == old(ports).db.maps(),
            ports.db.campaigns() == old(ports).db.campaigns(),
            ports.fs.files_view() == old(ports).fs.files_view(),
            ports.fs.zips_view() == old(ports).fs.zips_view(),
        decreases machine@.progress(),
    {
        let ghost v = machine@;
        let ghost p = ports.db.patches();
        let event = match action {
            PatchAction::FetchReleaseAssets { repo, tag } => {
                let assets = ports.github.fetch_release_assets(repo.as_str(), tag.as_str());
                let e = PatchEvent::AssetsFetched(assets);
                proof {
                    let w = PatchDeployView {
                        assets: release_assets(ports.github, repo@, tag@),
                        index: 0,
                        updated: 0,
                        skipped: 0,
                        notes: Seq::empty(),
                        ..v
                    };
                    lemma_advance_outcome(w, ports.github, p);
                }
                e
            },
            PatchAction::DownloadAsset { url } => {
                let d = ports.github.download_asset(url.as_str());
                PatchEvent::AssetDownloaded(d)
            },
            PatchAction::ComputeMd5 { content } => {
                let m = ports.fs.compute_md5(content.as_slice());
                PatchEvent::Md5Computed(m)
            },
            PatchAction::GetPatchRecord { file_id } => {
                let rec = ports.db.get_patch_record(file_id);
                let e = PatchEvent::RecordFetched(rec);
                proof {
                    let id = patch_file_id(v.index);
                    assert(e@ == PatchEventView::RecordFetched(Ok(stored_patch(p, id))));
                    lemma_advance_outcome(
                        PatchDeployView { index: v.index + 1, skipped: v.skipped + 1, notes: Seq::empty(), ..v },
                        ports.github,
                        p,
                    );
                    lemma_advance_outcome(
                        PatchDeployView { index: v.index + 1, updated: v.updated + 1, notes: Seq::empty(), ..v },
                        ports.github,
                        p,
                    );
                }
                e
            },
            PatchAction::UpsertPatch { record } => {
                let ghost rv = record@;
                let u = ports.db.upsert_patch(record);
                proof {
                    lemma_advance_outcome(
                        PatchDeployView { index: v.index + 1, updated: v.updated + 1, notes: Seq::empty(), ..v },
                        ports.github,
                        p.insert(rv.file_id, rv),
                    );
                }
                PatchEvent::PatchUpserted(u)
            },
            PatchAction::Done(r) => {
                return r;
            },
        };
        action = machine.step(event);
    }
}

/// The record written for patch file `i` with checksum `m`, given the
/// record `existing` stored for it before.
pub open spec fn new_patch_record(i: int, m: Seq<char>, existing: Option<PatchRecordView>) -> PatchRecordView {
    PatchRecordView {
        file_id: patch_file_id(i),
        name: patch_file_name(i),
        md5: m,
        version: next_patch_version(existing) as i32,
    }
}

/// `patches_from` at one patch file `i`, written out in full.
pub open spec fn patches_step(
    g: FakeGithub,
    assets: Seq<AssetView>,
    dry_run: bool,
    i: int,
    p: Map<i32, PatchRecordView>,
    updated: int,
    skipped: int,
) -> (Option<Result<DeployResult, Seq<char>>>, Map<i32, PatchRecordView>) {
    match asset_index(assets, patch_file_name(i)) {
        None => patches_from(g, assets, dry_run, i + 1, p, updated, skipped + 1),
        Some(k) => {
            let url = assets[k].download_url;
            match g.seeded_download(url) {
                None => (
                    Some(Err("download failed for "@ + patch_file_name(i) + ": "@ + no_download_message(url))),
                    p,
                ),
                Some(c) => if byte_sum(c) > u64::MAX {
                    (None, p)
                } else {
                    let m = fake_md5(c);
                    let existing = stored_patch(p, patch_file_id(i));
                    if existing matches Some(r) && r.md5 == m {
                        patches_from(g, assets, dry_run, i + 1, p, updated, skipped + 1)
                    } else if dry_run {
                        patches_from(g, assets, dry_run, i + 1, p, updated + 1, skipped)
                    } else if next_patch_version(existing) > i32::MAX {
                        (None, p)
                    } else {
                        patches_from(
                            g,
                            assets,
                            dry_run,
                            i + 1,
                            p.insert(patch_file_id(i), new_patch_record(i, m, existing)),
                            updated + 1,
                            skipped,
                        )
                    }
                },
            }
        },
    }
}

proof fn lemma_patches_unfold(
    g: FakeGithub,
    assets: Seq<AssetView>,
    dry_run: bool,
    i: int,
    p: Map<i32, PatchRecordView>,
    updated: int,
    skipped: int,
)
    requires
        0 <= i < PATCH_FILE_COUNT,
    ensures
        patches_from(g, assets, dry_run, i, p, updated, skipped) == patches_step(
            g,
            assets,
            dry_run,
            i,
            p,
            updated,
            skipped,
        ),
{
    match asset_index(assets, patch_file_name(i)) {
        None => {},
        Some(k) => match g.seeded_download(assets[k].download_url) {
            None => {},
            Some(c) => {
                assert(patch_after_download(g, assets, dry_run, i, c, p, updated, skipped) == (if byte_sum(c)
                    > u64::MAX {
                    (None, p)
                } else {
                    patch_after_md5(g, assets, dry_run, i, fake_md5(c), p, updated, skipped)
                }));
                let m = fake_md5(c);
                let _ = patch_after_md5(g, assets, dry_run, i, m, p, updated, skipped);
            },
        },
    }
}

/// Patch file `j` needs no new version given records `q`: the release has
/// no asset for it, or its download's checksum is the one recorded for it.
pub open spec fn patch_settled(g: FakeGithub, assets: Seq<AssetView>, j: int, q: Map<i32, PatchRecordView>) -> bool {
    match asset_index(assets, patch_file_name(j)) {
        None => true,
        Some(k) => match g.seeded_download(assets[k].download_url) {
            None => false,
            Some(c) => byte_sum(c) <= u64::MAX && (stored_patch(q, patch_file_id(j)) matches Some(r)
                && r.md5 == fake_md5(c)),
        },
    }
}

/// A deployment from patch file `i` on records nothing under the ids of
/// earlier patch files.
proof fn lemma_patches_frame(
    g: FakeGithub,
    assets: Seq<AssetView>,
    dry_run: bool,
    i: int,
    p: Map<i32, PatchRecordView>,
    updated: int,
    skipped: int,
    id: i32,
)
    requires
        0 <= i <= PATCH_FILE_COUNT,
        id <= i,
    ensures
        stored_patch(patches_from(g, assets, dry_run, i, p, updated, skipped).1, id) == stored_patch(p, id),
    decreases PATCH_FILE_COUNT - i,
{
    if i < PATCH_FILE_COUNT {
        lemma_patches_unfold(g, assets, dry_run, i, p, updated, skipped);
        match asset_index(assets, patch_file_name(i)) {
            None => lemma_patches_frame(g, assets, dry_run, i + 1, p, updated, skipped + 1, id),
            Some(k) => match g.seeded_download(assets[k].download_url) {
                None => {},
                Some(c) => {
                    if byte_sum(c) <= u64::MAX {
                        let m = fake_md5(c);
                        let pid = patch_file_id(i);
                        let existing = stored_patch(p, pid);
                        if existing matches Some(r) && r.md5 == m {
                            lemma_patches_frame(g, assets, dry_run, i + 1, p, updated, skipped + 1, id);
                        } else if dry_run {
                            lemma_patches_frame(g, assets, dry_run, i + 1, p, updated + 1, skipped, id);
                        } else if next_patch_version(existing) <= i32::MAX {
                            let rec = PatchRecordView {
                                file_id: pid,
                                name: patch_file_name(i),
                                md5: m,
                                version: next_patch_version(existing) as i32,
                            };
                            lemma_patches_frame(
                                g,
                                assets,
                                dry_run,
                                i + 1,
                                p.insert(pid, rec),
                                updated + 1,
                                skipped,
                                id,
                            );
                        }
                    }
                },
            },
        }
    }
}

/// A deployment that succeeds without dry running leaves every patch file
/// from `i` on settled in the records it leaves.
proof fn lemma_patches_settle(
    g: FakeGithub,
    assets: Seq<AssetView>,
    i: int,
    p: Map<i32, PatchRecordView>,
    updated: int,
    skipped: int,
)
    requires
        0 <= i <= PATCH_FILE_COUNT,
        patches_from(g, assets, false, i, p, updated, skipped).0 matches Some(Ok(_)),
    ensures
        forall|j: int|
            i <= j < PATCH_FILE_COUNT ==> patch_settled(
                g,
                assets,
                j,
                #[trigger] patches_from(g, assets, false, i, p, updated, skipped).1,
            ),
    decreases PATCH_FILE_COUNT - i,
{
    if i < PATCH_FILE_COUNT {
        lemma_patches_unfold(g, assets, false, i, p, updated, skipped);
        let out = patches_from(g, assets, false, i, p, updated, skipped).1;
        match asset_index(assets, patch_file_name(i)) {
            None => {
                lemma_patches_settle(g, assets, i + 1, p, updated, skipped + 1);
            },
            Some(k) => {
                let c = g.seeded_download(assets[k].download_url).unwrap();
                let m = fake_md5(c);
                let pid = patch_file_id(i);
                let existing = stored_patch(p, pid);
                if existing matches Some(r) && r.md5 == m {
                    lemma_patches_settle(g, assets, i + 1, p, updated, skipped + 1);
                    lemma_patches_frame(g, assets, false, i + 1, p, updated, skipped + 1, pid);
                } else {
                    let rec = PatchRecordView {
                        file_id: pid,
                        name: patch_file_name(i),
                        md5: m,
                        version: next_patch_version(existing) as i32,
                    };
                    let q = p.insert(pid, rec);
                    lemma_patches_settle(g, assets, i + 1, q, updated + 1, skipped);
                    lemma_patches_frame(g, assets, false, i + 1, q, updated + 1, skipped, pid);
                }
                assert(patch_settled(g, assets, i, out));
            },
        }
    }
}

/// With every patch file from `i` on settled, a deployment from `i` skips
/// them all and records nothing.
proof fn lemma_patches_settled_run(
    g: FakeGithub,
    assets: Seq<AssetView>,
    i: int,
    p: Map<i32, PatchRecordView>,
    updated: int,
    skipped: int,
)
    requires
        0 <= i <= PATCH_FILE_COUNT,
        forall|j: int| i <= j < PATCH_FILE_COUNT ==> #[trigger] patch_settled(g, assets, j, p),
    ensures
        patches_from(g, assets, false, i, p, updated, skipped) == (
            Some(Ok::<DeployResult, Seq<char>>(counts(updated, skipped + PATCH_FILE_COUNT - i))),
            p,
        ),
    decreases PATCH_FILE_COUNT - i,
{
    if i < PATCH_FILE_COUNT {
        lemma_patches_unfold(g, assets, false, i, p, updated, skipped);
        assert(patch_settled(g, assets, i, p));
        lemma_patches_settled_run(g, assets, i + 1, p, updated, skipped + 1);
    }
}

/// Deploying patches again, from the same release, right after a
/// deployment that succeeded without dry running, updates nothing: every
/// one of the known patch files is skipped and no record changes.
pub proof fn law_patch_redeploy_skips_all(
    g: FakeGithub,
    p: Map<i32, PatchRecordView>,
    repo: Seq<char>,
    tag: Seq<char>,
)
    requires
        patch_deployment(g, p, repo, tag, false).0 matches Some(Ok(_)),
    ensures
        ({
            let after = patch_deployment(g, p, repo, tag, false).1;
            patch_deployment(g, after, repo, tag, false) == (
                Some(Ok::<DeployResult, Seq<char>>(DeployResult { updated: 0, skipped: 25 })),
                after,
            )
        }),
{
    let assets = release_assets(g, repo, tag);
    lemma_patches_settle(g, assets, 0, p, 0, 0);
    let after = patch_deployment(g, p, repo, tag, false).1;
    assert forall|j: int| 0 <= j < PATCH_FILE_COUNT implies #[trigger] patch_settled(g, assets, j, after) by {}
    lemma_patches_settled_run(g, assets, 0, after, 0, 0);
}

/// After a deployment that succeeded without dry running, every known patch
/// file that the release carries is recorded with the checksum of its
/// download.
pub proof fn law_patch_deploy_records_checksums(
    g: FakeGithub,
    p: Map<i32, PatchRecordView>,
    repo: Seq<char>,
    tag: Seq<char>,
)
    requires
        patch_deployment(g, p, repo, tag, false).0 matches Some(Ok(_)),
    ensures
        forall|j: int|
            0 <= j < PATCH_FILE_COUNT ==> #[trigger] patch_settled(
                g,
                release_assets(g, repo, tag),
                j,
                patch_deployment(g, p, repo, tag, false).1,
            ),
{
    lemma_patches_settle(g, release_assets(g, repo, tag), 0, p, 0, 0);
}

/// A dry run records nothing.
pub proof fn law_patch_dry_run_keeps_records(
    g: FakeGithub,
    p: Map<i32, PatchRecordView>,
    repo: Seq<char>,
    tag: Seq<char>,
)
    ensures
        patch_deployment(g, p, repo, tag, true).1 == p,
{
    lemma_patches_dry(g, release_assets(g, repo, tag), 0, p, 0, 0);
}

proof fn lemma_patches_dry(
    g: FakeGithub,
    assets: Seq<AssetView>,
    i: int,
    p: Map<i32, PatchRecordView>,
    updated: int,
    skipped: int,
)
    requires
        0 <= i <= PATCH_FILE_COUNT,
    ensures
        patches_from(g, assets, true, i, p, updated, skipped).1 == p,
    decreases PATCH_FILE_COUNT - i,
{
    if i < PATCH_FILE_COUNT {
        lemma_patches_unfold(g, assets, true, i, p, updated, skipped);
        lemma_patches_dry(g, assets, i + 1, p, updated, skipped + 1);
        lemma_patches_dry(g, assets, i + 1, p, updated + 1, skipped);
    }
}

/// A deployment that succeeds accounts for every known patch file: as many
/// updated and skipped together as there are patch files.
pub proof fn law_patch_counts_cover_all_files(
    g: FakeGithub,
    p: Map<i32, PatchRecordView>,
    repo: Seq<char>,
    tag: Seq<char>,
    dry_run: bool,
)
    requires
        patch_deployment(g, p, repo, tag, dry_run).0 matches Some(Ok(_)),
    ensures
        patch_deployment(g, p, repo, tag, dry_run).0 matches Some(Ok(d)) && d.updated + d.skipped
            == PATCH_FILE_COUNT,
{
    lemma_patches_counts(g, release_assets(g, repo, tag), dry_run, 0, p, 0, 0);
}

proof fn lemma_patches_counts(
    g: FakeGithub,
    assets: Seq<AssetView>,
    dry_run: bool,
    i: int,
    p: Map<i32, PatchRecordView>,
    updated: int,
    skipped: int,
)
    requires
        0 <= i <= PATCH_FILE_COUNT,
        0 <= updated,
        0 <= skipped,
        updated + skipped == i,
    ensures
        patches_from(g, assets, dry_run, i, p, updated, skipped).0 matches Some(Ok(d)) ==> d.updated
            + d.skipped == PATCH_FILE_COUNT,
    decreases PATCH_FILE_COUNT - i,
{
    if i < PATCH_FILE_COUNT {
        lemma_patches_unfold(g, assets, dry_run, i, p, updated, skipped);
        lemma_patches_counts(g, assets, dry_run, i + 1, p, updated, skipped + 1);
        lemma_patches_counts(g, assets, dry_run, i + 1, p, updated + 1, skipped);
        match asset_index(assets, patch_file_name(i)) {
            None => {},
            Some(k) => match g.seeded_download(assets[k].download_url) {
                None => {},
                Some(c) => {
                    let pid = patch_file_id(i);
                    let existing = stored_patch(p, pid);
                    if byte_sum(c) <= u64::MAX && !(existing matches Some(r) && r.md5 == fake_md5(c))
                        && !dry_run && next_patch_version(existing) <= i32::MAX {
                        let rec = PatchRecordView {
                            file_id: pid,
                            name: patch_file_name(i),
                            md5: fake_md5(c),
                            version: next_patch_version(existing) as i32,
                        };
                        lemma_patches_counts(
                            g,
                            assets,
                            dry_run,
                            i + 1,
                            p.insert(pid, rec),
                            updated + 1,
                            skipped,
                        );
                    }
                },
            },
        }
    }
}

/// What a deployment that succeeds without dry running records for patch
/// file `j`, given the record stored for it before (`existing`): nothing new
/// when the release has no asset for it or its download's checksum is the
/// recorded one; otherwise the next version (one more than the recorded
/// one, or 1) with the new checksum.
pub open spec fn patch_record_after(
    g: FakeGithub,
    assets: Seq<AssetView>,
    j: int,
    existing: Option<PatchRecordView>,
) -> Option<PatchRecordView> {
    match asset_index(assets, patch_file_name(j)) {
        None => existing,
        Some(k) => match g.seeded_download(assets[k].download_url) {
            None => existing,
            Some(c) => {
                let m = fake_md5(c);
                if existing matches Some(r) && r.md5 == m {
                    existing
                } else {
                    Some(new_patch_record(j, m, existing))
                }
            },
        },
    }
}

/// From patch file `i` on, what is recorded for a later or equal file `j`
/// is `patch_record_after` of what was recorded for it when the run
/// reached `i`.
proof fn lemma_patches_record(
    g: FakeGithub,
    assets: Seq<AssetView>,
    i: int,
    p: Map<i32, PatchRecordView>,
    updated: int,
    skipped: int,
    j: int,
)
    requires
        0 <= i <= j < PATCH_FILE_COUNT,
        patches_from(g, assets, false, i, p, updated, skipped).0 matches Some(Ok(_)),
    ensures
        stored_patch(patches_from(g, assets, false, i, p, updated, skipped).1, patch_file_id(j))
            == patch_record_after(g, assets, j, stored_patch(p, patch_file_id(j))),
    decreases j - i,
{
    lemma_patches_unfold(g, assets, false, i, p, updated, skipped);
    let pid = patch_file_id(i);
    match asset_index(assets, patch_file_name(i)) {
        None => {
            if i < j {
                lemma_patches_record(g, assets, i + 1, p, updated, skipped + 1, j);
            } else {
                lemma_patches_frame(g, assets, false, i + 1, p, updated, skipped + 1, pid);
            }
        },
        Some(k) => {
            let c = g.seeded_download(assets[k].download_url).unwrap();
            let m = fake_md5(c);
            let existing = stored_patch(p, pid);
            if existing matches Some(r) && r.md5 == m {
                if i < j {
                    lemma_patches_record(g, assets, i + 1, p, updated, skipped + 1, j);
                } else {
                    lemma_patches_frame(g, assets, false, i + 1, p, updated, skipped + 1, pid);
                }
            } else {
                let q = p.insert(pid, new_patch_record(i, m, existing));
                if i < j {
                    assert(stored_patch(q, patch_file_id(j)) == stored_patch(p, patch_file_id(j)));
                    lemma_patches_record(g, assets, i + 1, q, updated + 1, skipped, j);
                } else {
                    lemma_patches_frame(g, assets, false, i + 1, q, updated + 1, skipped, pid);
                }
            }
        },
    }
}

/// A deployment that succeeds without dry running records, for each patch
/// file, what `patch_record_after` says: a changed file gets the next
/// version and its new checksum; one the release lacks, or whose checksum
/// is unchanged, keeps its record.
pub proof fn law_patch_deploy_versions(
    g: FakeGithub,
    p: Map<i32, PatchRecordView>,
    repo: Seq<char>,
    tag: Seq<char>,
    j: int,
)
    requires
        0 <= j < PATCH_FILE_COUNT,
        patch_deployment(g, p, repo, tag, false).0 matches Some(Ok(_)),
    ensures
        stored_patch(patch_deployment(g, p, repo, tag, false).1, patch_file_id(j)) == patch_record_after(
            g,
            release_assets(g, repo, tag),
            j,
            stored_patch(p, patch_file_id(j)),
        ),
{
    lemma_patches_record(g, release_assets(g, repo, tag), 0, p, 0, 0, j);
}

/// From patch file `i` on, a dry run reaches the outcome of a real run that
/// succeeds, when the files from `i` on are recorded alike in the two.
proof fn lemma_patches_dry_same(
    g: FakeGithub,
    assets: Seq<AssetView>,
    i: int,
    live: Map<i32, PatchRecordView>,
    dry: Map<i32, PatchRecordView>,
    updated: int,
    skipped: int,
)
    requires
        0 <= i <= PATCH_FILE_COUNT,
        forall|j: int| i <= j < PATCH_FILE_COUNT ==> stored_patch(live, #[trigger] patch_file_id(j))
            == stored_patch(dry, patch_file_id(j)),
        patches_from(g, assets, false, i, live, updated, skipped).0 is Some,
    ensures
        patches_from(g, assets, true, i, dry, updated, skipped).0 == patches_from(
            g,
            assets,
            false,
            i,
            live,
            updated,
            skipped,
        ).0,
    decreases PATCH_FILE_COUNT - i,
{
    if i < PATCH_FILE_COUNT {
        lemma_patches_unfold(g, assets, true, i, dry, updated, skipped);
        lemma_patches_unfold(g, assets, false, i, live, updated, skipped);
        let pid = patch_file_id(i);
        assert(stored_patch(live, pid) == stored_patch(dry, pid));
        match asset_index(assets, patch_file_name(i)) {
            None => lemma_patches_dry_same(g, assets, i + 1, live, dry, updated, skipped + 1),
            Some(k) => match g.seeded_download(assets[k].download_url) {
                None => {},
                Some(c) => {
                    let m = fake_md5(c);
                    let existing = stored_patch(live, pid);
                    if existing matches Some(r) && r.md5 == m {
                        lemma_patches_dry_same(g, assets, i + 1, live, dry, updated, skipped + 1);
                    } else {
                        let q = live.insert(pid, new_patch_record(i, m, existing));
                        assert forall|j: int| i + 1 <= j < PATCH_FILE_COUNT implies stored_patch(
                            q,
                            #[trigger] patch_file_id(j),
                        ) == stored_patch(dry, patch_file_id(j)) by {}
                        lemma_patches_dry_same(g, assets, i + 1, q, dry, updated + 1, skipped);
                    }
                },
            },
        }
    }
}

/// A dry run of the patch deployment reaches the same outcome, and so the
/// same counts, as a real run from the same state that does not stop on a
/// version it cannot record.
pub proof fn law_patch_dry_run_same_counts(
    g: FakeGithub,
    p: Map<i32, PatchRecordView>,
    repo: Seq<char>,
    tag: Seq<char>,
)
    requires
        patch_deployment(g, p, repo, tag, false).0 is Some,
    ensures
        patch_deployment(g, p, repo, tag, true).0 == patch_deployment(g, p, repo, tag, false).0,
{
    lemma_patches_dry_same(g, release_assets(g, repo, tag), 0, p, p, 0, 0);
}

} // verus!
