//! Map deployment: each known co-op map is read from the checked-out map
//! repository, checksummed, and, when its checksum differs from the one
//! recorded, packed into a new versioned archive and recorded in the
//! database. A map that cannot be read is skipped, not fatal.
//!
//! Like patch deployment, this is a state machine driven by the service
//! binary against the real ports and by `deploy_all_maps` against the
//! in-memory ports.

use vstd::prelude::*;
use vstd::string::*;
use crate::errors::{DbError, DeployError, FsError, GitError};
use crate::models::{CoopMap, CoopMapView, DeployResult, ZipEntry, ZipEntryView, copy_bytes, copy_entries, entries_view, strings_view};
use crate::paths::{joined_path, path_join, path_strip_prefix, stripped_path};
use crate::text::{decimal, decimal_zero_padded, parsed_i32, render_i32, render_i32_width4, str_equal};
use crate::db::updated_map;
use crate::fs::{byte_sum, byte_sum_fits, fake_md5, listed_files};
use crate::ports::TestPorts;
use crate::table::{table_get, table_put};

verus! {

/// How many maps the deployer knows.
pub const KNOWN_MAP_COUNT: usize = 31;

/// The database id of the `i`-th known map.
pub open spec fn known_map_id(i: int) -> i32 {
    if i == 0 { 1 }
    else if i == 1 { 3 }
    else if i == 2 { 4 }
    else if i == 3 { 5 }
    else if i == 4 { 6 }
    else if i == 5 { 7 }
    else if i == 6 { 8 }
    else if i == 7 { 9 }
    else if i == 8 { 10 }
    else if i == 9 { 11 }
    else if i == 10 { 12 }
    else if i == 11 { 13 }
    else if i == 12 { 14 }
    else if i == 13 { 15 }
    else if i == 14 { 16 }
    else if i == 15 { 17 }
    else if i == 16 { 18 }
    else if i == 17 { 19 }
    else if i == 18 { 20 }
    else if i == 19 { 21 }
    else if i == 20 { 22 }
    else if i == 21 { 23 }
    else if i == 22 { 24 }
    else if i == 23 { 25 }
    else if i == 24 { 26 }
    else if i == 25 { 27 }
    else if i == 26 { 28 }
    else if i == 27 { 29 }
    else if i == 28 { 30 }
    else if i == 29 { 31 }
    else { 49 }
}

/// The repository folder of the `i`-th known map.
pub open spec fn known_map_folder(i: int) -> Seq<char> {
    if i == 0 { "X1CA_Coop_001"@ }
    else if i == 1 { "X1CA_Coop_002"@ }
    else if i == 2 { "X1CA_Coop_003"@ }
    else if i == 3 { "X1CA_Coop_004"@ }
    else if i == 4 { "X1CA_Coop_005"@ }
    else if i == 5 { "X1CA_Coop_006"@ }
    else if i == 6 { "SCCA_Coop_A01"@ }
    else if i == 7 { "SCCA_Coop_A02"@ }
    else if i == 8 { "SCCA_Coop_A03"@ }
    else if i == 9 { "SCCA_Coop_A04"@ }
    else if i == 10 { "SCCA_Coop_A05"@ }
    else if i == 11 { "SCCA_Coop_A06"@ }
    else if i == 12 { "SCCA_Coop_E01"@ }
    else if i == 13 { "SCCA_Coop_E02"@ }
    else if i == 14 { "SCCA_Coop_E03"@ }
    else if i == 15 { "SCCA_Coop_E04"@ }
    else if i == 16 { "SCCA_Coop_E05"@ }
    else if i == 17 { "SCCA_Coop_E06"@ }
    else if i == 18 { "SCCA_Coop_R01"@ }
    else if i == 19 { "SCCA_Coop_R02"@ }
    else if i == 20 { "SCCA_Coop_R03"@ }
    else if i == 21 { "SCCA_Coop_R04"@ }
    else if i == 22 { "SCCA_Coop_R05"@ }
    else if i == 23 { "SCCA_Coop_R06"@ }
    else if i == 24 { "FAF_Coop_Operation_Prothyon_16"@ }
    else if i == 25 { "FAF_Coop_Operation_Fort_Clarke_Assault"@ }
    else if i == 26 { "FAF_Coop_Operation_Novax_Station_Assault"@ }
    else if i == 27 { "FAF_Coop_Operation_Tight_Spot"@ }
    else if i == 28 { "FAF_Coop_Operation_Black_Day"@ }
    else if i == 29 { "FAF_Coop_Operation_Overlord"@ }
    else { "FAF_Coop_Operation_Tha_Thuum"@ }
}

/// A co-op map known to FAF: its database id and its folder in the map
/// repository.
pub struct KnownMap {
    pub id: i32,
    pub folder_name: &'static str,
}

/// The `i`-th known map.
pub fn known_map(i: usize) -> (m: KnownMap)
    requires
        i < KNOWN_MAP_COUNT,
    ensures
        m.id == known_map_id(i as int),
        m.folder_name@ == known_map_folder(i as int),
{
    if i == 0 { KnownMap { id: 1, folder_name: "X1CA_Coop_001" } }
    else if i == 1 { KnownMap { id: 3, folder_name: "X1CA_Coop_002" } }
    else if i == 2 { KnownMap { id: 4, folder_name: "X1CA_Coop_003" } }
    else if i == 3 { KnownMap { id: 5, folder_name: "X1CA_Coop_004" } }
    else if i == 4 { KnownMap { id: 6, folder_name: "X1CA_Coop_005" } }
    else if i == 5 { KnownMap { id: 7, folder_name: "X1CA_Coop_006" } }
    else if i == 6 { KnownMap { id: 8, folder_name: "SCCA_Coop_A01" } }
    else if i == 7 { KnownMap { id: 9, folder_name: "SCCA_Coop_A02" } }
    else if i == 8 { KnownMap { id: 10, folder_name: "SCCA_Coop_A03" } }
    else if i == 9 { KnownMap { id: 11, folder_name: "SCCA_Coop_A04" } }
    else if i == 10 { KnownMap { id: 12, folder_name: "SCCA_Coop_A05" } }
    else if i == 11 { KnownMap { id: 13, folder_name: "SCCA_Coop_A06" } }
    else if i == 12 { KnownMap { id: 14, folder_name: "SCCA_Coop_E01" } }
    else if i == 13 { KnownMap { id: 15, folder_name: "SCCA_Coop_E02" } }
    else if i == 14 { KnownMap { id: 16, folder_name: "SCCA_Coop_E03" } }
    else if i == 15 { KnownMap { id: 17, folder_name: "SCCA_Coop_E04" } }
    else if i == 16 { KnownMap { id: 18, folder_name: "SCCA_Coop_E05" } }
    else if i == 17 { KnownMap { id: 19, folder_name: "SCCA_Coop_E06" } }
    else if i == 18 { KnownMap { id: 20, folder_name: "SCCA_Coop_R01" } }
    else if i == 19 { KnownMap { id: 21, folder_name: "SCCA_Coop_R02" } }
    else if i == 20 { KnownMap { id: 22, folder_name: "SCCA_Coop_R03" } }
    else if i == 21 { KnownMap { id: 23, folder_name: "SCCA_Coop_R04" } }
    else if i == 22 { KnownMap { id: 24, folder_name: "SCCA_Coop_R05" } }
    else if i == 23 { KnownMap { id: 25, folder_name: "SCCA_Coop_R06" } }
    else if i == 24 { KnownMap { id: 26, folder_name: "FAF_Coop_Operation_Prothyon_16" } }
    else if i == 25 { KnownMap { id: 27, folder_name: "FAF_Coop_Operation_Fort_Clarke_Assault" } }
    else if i == 26 { KnownMap { id: 28, folder_name: "FAF_Coop_Operation_Novax_Station_Assault" } }
    else if i == 27 { KnownMap { id: 29, folder_name: "FAF_Coop_Operation_Tight_Spot" } }
    else if i == 28 { KnownMap { id: 30, folder_name: "FAF_Coop_Operation_Black_Day" } }
    else if i == 29 { KnownMap { id: 31, folder_name: "FAF_Coop_Operation_Overlord" } }
    else { KnownMap { id: 49, folder_name: "FAF_Coop_Operation_Tha_Thuum" } }
}

/// Where maps come from and go to, and whether anything may be written.
pub struct MapConfig {
    pub repo_url: String,
    pub git_ref: String,
    pub workdir: String,
    pub map_dir: String,
    pub dry_run: bool,
}

/// The value of `var`, or `default` when it is unset.
pub open spec fn var_or(var: Option<String>, default: Seq<char>) -> Seq<char> {
    match var {
        Some(v) => v@,
        None => default,
    }
}

/// The value of `var`, or `default` when it is unset.
fn string_or(var: Option<String>, default: &str) -> (s: String)
    ensures
        s@ == var_or(var, default@),
{
    match var {
        Some(v) => v,
        None => String::from_str(default),
    }
}

impl MapConfig {
    /// The configuration the environment gives: the repository
    /// (`COOP_MAP_REPO`), its branch (`COOP_MAP_REF`), the checkout
    /// directory (`GIT_WORKDIR`), the archive directory (`MAP_DIR`), and dry
    /// running (`DRY_RUN` set to `true`). Each argument is the variable's
    /// value, or `None` when it is unset.
    pub fn from_vars(
        repo_url: Option<String>,
        git_ref: Option<String>,
        workdir: Option<String>,
        map_dir: Option<String>,
        dry_run: Option<String>,
    ) -> (c: MapConfig)
        ensures
            c.repo_url@ == var_or(repo_url, "https://github.com/FAForever/faf-coop-maps"@),
            c.git_ref@ == var_or(git_ref, "master"@),
            c.workdir@ == var_or(workdir, "/tmp/coop-maps"@),
            c.map_dir@ == var_or(map_dir, "/maps"@),
            c.dry_run == match dry_run {
                Some(d) => d@ == "true"@,
                None => false,
            },
    {
        let dry_run = match &dry_run {
            Some(d) => str_equal(d.as_str(), "true"),
            None => false,
        };
        MapConfig {
            repo_url: string_or(repo_url, "https://github.com/FAForever/faf-coop-maps"),
            git_ref: string_or(git_ref, "master"),
            workdir: string_or(workdir, "/tmp/coop-maps"),
            map_dir: string_or(map_dir, "/maps"),
            dry_run,
        }
    }
}

/// The short form of a checksum that archive names carry and that the
/// map database keeps: its first eight characters (all of it when shorter).
pub open spec fn checksum_prefix(checksum: Seq<char>) -> Seq<char> {
    if checksum.len() >= 8 {
        checksum.subrange(0, 8)
    } else {
        checksum
    }
}

/// A recorded checksum `stored` stands for `checksum`: it is the whole
/// checksum, or its short form (the database keeps only that).
pub open spec fn checksum_matches(stored: Seq<char>, checksum: Seq<char>) -> bool {
    stored == checksum || stored == checksum_prefix(checksum)
}

/// The name of the archive of version `version` of the map in `folder`
/// with checksum `checksum` (`{folder}.v{version:04}.{short checksum}.zip`).
pub open spec fn zip_file_name(folder: Seq<char>, version: int, checksum: Seq<char>) -> Seq<char> {
    folder + ".v"@ + decimal_zero_padded(version, 4) + "."@ + checksum_prefix(checksum) + ".zip"@
}

/// The path inside the archive of `file`, listed in `dir`, of the map in
/// `folder`: the folder joined with the file's path relative to `dir` (or
/// with the whole path, when it is not under `dir`).
pub open spec fn entry_path(folder: Seq<char>, file: Seq<char>, dir: Seq<char>) -> Seq<char> {
    joined_path(
        folder,
        match stripped_path(file, dir) {
            Some(r) => r,
            None => file,
        },
    )
}

/// The bytes of all `entries`, one after another.
pub open spec fn concat_contents(entries: Seq<ZipEntryView>) -> Seq<u8>
    decreases entries.len(),
{
    if entries.len() == 0 {
        Seq::empty()
    } else {
        concat_contents(entries.drop_last()) + entries.last().content
    }
}

/// The version a changed map is archived under: one more than the recorded
/// version, or 1 for a map never recorded.
pub open spec fn next_map_version(current: Option<CoopMapView>) -> int {
    match current {
        Some(m) => m.version + 1,
        None => 1,
    }
}

/// The warning for skipping known map `index` because of `reason`
/// (`skipping map {id} ({folder}): {reason}`).
pub open spec fn skip_warning(index: int, reason: Seq<char>) -> Seq<char> {
    "skipping map "@ + decimal(known_map_id(index) as int) + " ("@ + known_map_folder(index) + "): "@
        + reason
}

/// Where a map deployment stands.
#[derive(Debug, Clone, Copy, PartialEq, Eq, Structural)]
pub enum MapStage {
    /// Waiting for the repository checkout.
    CheckingOut,
    /// Waiting for the listing of the current map's folder.
    Listing,
    /// Waiting for one of the current map's files.
    Reading,
    /// Waiting for the checksum of the map's files.
    Hashing,
    /// Waiting for the recorded map.
    Looking,
    /// Waiting for the new archive to be written.
    Writing,
    /// Waiting for the new version to be recorded.
    Updating,
    /// Done; nothing more to do.
    Finished,
}

/// What a map deployment asks its driver to do next.
pub enum MapAction {
    Checkout { url: String, git_ref: String, workdir: String },
    ListFiles { dir: String },
    ReadFile { path: String },
    ComputeMd5 { content: Vec<u8> },
    GetMap { id: i32 },
    WriteZip { entries: Vec<ZipEntry>, dest: String },
    UpdateMap { id: i32, version: i32, filename: String, checksum: String },
    /// The deployment is over, with this outcome.
    Done(Result<DeployResult, DeployError>),
}

/// What came of the last action.
pub enum MapEvent {
    CheckedOut(Result<(), GitError>),
    Listed(Result<Vec<String>, FsError>),
    FileRead(Result<Vec<u8>, FsError>),
    Md5Computed(Result<String, FsError>),
    MapFetched(Result<Option<CoopMap>, DbError>),
    ZipWritten(Result<(), FsError>),
    MapUpdated(Result<(), DbError>),
}

/// The value of a `MapAction`.
pub enum MapActionView {
    Checkout { url: Seq<char>, git_ref: Seq<char>, workdir: Seq<char> },
    ListFiles { dir: Seq<char> },
    ReadFile { path: Seq<char> },
    ComputeMd5 { content: Seq<u8> },
    GetMap { id: i32 },
    WriteZip { entries: Seq<ZipEntryView>, dest: Seq<char> },
    UpdateMap { id: i32, version: i32, filename: Seq<char>, checksum: Seq<char> },
    Done { result: Result<DeployResult, Seq<char>> },
}

/// The value of a `MapEvent`; errors are taken by their messages.
pub enum MapEventView {
    CheckedOut(Result<(), Seq<char>>),
    Listed(Result<Seq<Seq<char>>, Seq<char>>),
    FileRead(Result<Seq<u8>, Seq<char>>),
    Md5Computed(Result<Seq<char>, Seq<char>>),
    MapFetched(Result<Option<CoopMapView>, Seq<char>>),
    ZipWritten(Result<(), Seq<char>>),
    MapUpdated(Result<(), Seq<char>>),
}

impl View for MapAction {
    type V = MapActionView;

    open spec fn view(&self) -> MapActionView {
        match self {
            MapAction::Checkout { url, git_ref, workdir } => MapActionView::Checkout {
                url: url@,
                git_ref: git_ref@,
                workdir: workdir@,
            },
            MapAction::ListFiles { dir } => MapActionView::ListFiles { dir: dir@ },
            MapAction::ReadFile { path } => MapActionView::ReadFile { path: path@ },
            MapAction::ComputeMd5 { content } => MapActionView::ComputeMd5 { content: content@ },
            MapAction::GetMap { id } => MapActionView::GetMap { id: *id },
            MapAction::WriteZip { entries, dest } => MapActionView::WriteZip {
                entries: entries_view(entries@),
                dest: dest@,
            },
            MapAction::UpdateMap { id, version, filename, checksum } => MapActionView::UpdateMap {
                id: *id,
                version: *version,
                filename: filename@,
                checksum: checksum@,
            },
            MapAction::Done(r) => MapActionView::Done {
                result: match r {
                    Ok(d) => Ok(*d),
                    Err(e) => Err(e.0@),
                },
            },
        }
    }
}

impl View for MapEvent {
    type V = MapEventView;

    open spec fn view(&self) -> MapEventView {
        match self {
            MapEvent::CheckedOut(r) => MapEventView::CheckedOut(
                match r {
                    Ok(()) => Ok(()),
                    Err(e) => Err(e.0@),
                },
            ),
            MapEvent::Listed(r) => MapEventView::Listed(
                match r {
                    Ok(f) => Ok(strings_view(f@)),
                    Err(e) => Err(e.0@),
                },
            ),
            MapEvent::FileRead(r) => MapEventView::FileRead(
                match r {
                    Ok(c) => Ok(c@),
                    Err(e) => Err(e.0@),
                },
            ),
            MapEvent::Md5Computed(r) => MapEventView::Md5Computed(
                match r {
                    Ok(m) => Ok(m@),
                    Err(e) => Err(e.0@),
                },
            ),
            MapEvent::MapFetched(r) => MapEventView::MapFetched(
                match r {
                    Ok(Some(m)) => Ok(Some(m@)),
                    Ok(None) => Ok(None),
                    Err(e) => Err(e.0@),
                },
            ),
            MapEvent::ZipWritten(r) => MapEventView::ZipWritten(
                match r {
                    Ok(()) => Ok(()),
                    Err(e) => Err(e.0@),
                },
            ),
            MapEvent::MapUpdated(r) => MapEventView::MapUpdated(
                match r {
                    Ok(()) => Ok(()),
                    Err(e) => Err(e.0@),
                },
            ),
        }
    }
}

/// A map deployment in progress.
pub struct MapDeploy {
    repo_url: String,
    git_ref: String,
    workdir: String,
    map_dir: String,
    dry_run: bool,
    stage: MapStage,
    index: usize,
    result: DeployResult,
    dir: String,
    files: Vec<String>,
    file_index: usize,
    entries: Vec<ZipEntry>,
    checksum: String,
    version: i32,
    zip_name: String,
    warning: Option<String>,
}

/// The value of a `MapDeploy`: the configuration, the stage, the map at
/// hand, the counts so far, and what is known of the map at hand (its
/// folder's path, its files, the file being read, the archive entries read,
/// its checksum, and its new version and archive name), and the warning of
/// the last step: why it skipped a map, when a step on it failed.
pub struct MapDeployView {
    pub repo_url: Seq<char>,
    pub git_ref: Seq<char>,
    pub workdir: Seq<char>,
    pub map_dir: Seq<char>,
    pub dry_run: bool,
    pub stage: MapStage,
    pub index: int,
    pub updated: int,
    pub skipped: int,
    pub dir: Seq<char>,
    pub files: Seq<Seq<char>>,
    pub file_index: int,
    pub entries: Seq<ZipEntryView>,
    pub checksum: Seq<char>,
    pub version: int,
    pub zip_name: Seq<char>,
    pub warning: Option<Seq<char>>,
}

impl View for MapDeploy {
    type V = MapDeployView;

    closed spec fn view(&self) -> MapDeployView {
        MapDeployView {
            repo_url: self.repo_url@,
            git_ref: self.git_ref@,
            workdir: self.workdir@,
            map_dir: self.map_dir@,
            dry_run: self.dry_run,
            stage: self.stage,
            index: self.index as int,
            updated: self.result.updated as int,
            skipped: self.result.skipped as int,
            dir: self.dir@,
            files: strings_view(self.files@),
            file_index: self.file_index as int,
            entries: entries_view(self.entries@),
            checksum: self.checksum@,
            version: self.version as int,
            zip_name: self.zip_name@,
            warning: match &self.warning {
                Some(w) => Some(w@),
                None => None,
            },
        }
    }
}

impl MapDeployView {
    /// The state is consistent with the map at hand.
    pub open spec fn wf(self) -> bool {
        &&& 0 <= self.index <= KNOWN_MAP_COUNT
        &&& 0 <= self.updated
        &&& 0 <= self.skipped
        &&& self.updated + self.skipped == self.index
        &&& self.stage == MapStage::CheckingOut ==> self.index == 0
        &&& (self.stage != MapStage::CheckingOut && self.stage != MapStage::Finished) ==> {
            &&& self.index < KNOWN_MAP_COUNT
            &&& self.dir == joined_path(self.workdir, known_map_folder(self.index))
        }
        &&& self.stage == MapStage::Reading ==> {
            &&& 0 <= self.file_index < self.files.len()
            &&& self.entries.len() == self.file_index
        }
    }

    /// The deployment finishes with `result`.
    pub open spec fn finish(self, result: Result<DeployResult, Seq<char>>) -> (MapDeployView, MapActionView) {
        (MapDeployView { stage: MapStage::Finished, ..self }, MapActionView::Done { result })
    }

    /// Starts on the map at `index`: lists its folder; finishes with the
    /// counts when no map is left.
    pub open spec fn next_map(self) -> (MapDeployView, MapActionView) {
        if self.index < 0 || self.index >= KNOWN_MAP_COUNT {
            self.finish(Ok(DeployResult { updated: self.updated as u32, skipped: self.skipped as u32 }))
        } else {
            let dir = joined_path(self.workdir, known_map_folder(self.index));
            (
                MapDeployView { stage: MapStage::Listing, dir, ..self },
                MapActionView::ListFiles { dir },
            )
        }
    }

    /// Counts the map at hand as skipped and moves on.
    pub open spec fn skip_map(self) -> (MapDeployView, MapActionView) {
        MapDeployView { index: self.index + 1, skipped: self.skipped + 1, ..self }.next_map()
    }

    /// Counts the map at hand as skipped because a step on it failed for
    /// `reason`, noting the warning, and moves on.
    pub open spec fn skip_for(self, reason: Seq<char>) -> (MapDeployView, MapActionView) {
        MapDeployView { warning: Some(skip_warning(self.index, reason)), ..self }.skip_map()
    }

    /// Counts the map at hand as updated and moves on.
    pub open spec fn map_done(self) -> (MapDeployView, MapActionView) {
        MapDeployView { index: self.index + 1, updated: self.updated + 1, ..self }.next_map()
    }

    /// `e` answers the action the deployment waits on.
    pub open spec fn accepts(self, e: MapEventView) -> bool {
        match e {
            MapEventView::CheckedOut(_) => self.stage == MapStage::CheckingOut,
            MapEventView::Listed(_) => self.stage == MapStage::Listing,
            MapEventView::FileRead(_) => self.stage == MapStage::Reading,
            MapEventView::Md5Computed(_) => self.stage == MapStage::Hashing,
            MapEventView::MapFetched(_) => self.stage == MapStage::Looking,
            MapEventView::ZipWritten(_) => self.stage == MapStage::Writing,
            MapEventView::MapUpdated(_) => self.stage == MapStage::Updating,
        }
    }

    /// Taking `e` would compute a version beyond `i32::MAX`.
    pub open spec fn overflows(self, e: MapEventView) -> bool {
        match e {
            MapEventView::MapFetched(Ok(current)) => !(current matches Some(m) && checksum_matches(
                m.checksum,
                self.checksum,
            )) && next_map_version(current) > i32::MAX,
            _ => false,
        }
    }

    /// The next state and action after `e`.
    pub open spec fn transition(self, e: MapEventView) -> (MapDeployView, MapActionView) {
        let folder = known_map_folder(self.index);
        let s = MapDeployView { warning: None, ..self };
        match e {
            MapEventView::CheckedOut(Err(m)) => s.finish(Err("git checkout failed: "@ + m)),
            MapEventView::CheckedOut(Ok(())) => MapDeployView {
                index: 0,
                updated: 0,
                skipped: 0,
                ..s
            }.next_map(),
            MapEventView::Listed(Err(m)) => s.skip_for("cannot list "@ + folder + ": "@ + m),
            MapEventView::Listed(Ok(files)) => if files.len() == 0 {
                s.skip_for("no files found for "@ + folder)
            } else {
                (
                    MapDeployView {
                        stage: MapStage::Reading,
                        files,
                        file_index: 0,
                        entries: Seq::empty(),
                        ..s
                    },
                    MapActionView::ReadFile { path: files[0] },
                )
            },
            MapEventView::FileRead(Err(m)) => s.skip_for(
                "cannot read "@ + self.files[self.file_index] + ": "@ + m,
            ),
            MapEventView::FileRead(Ok(c)) => {
                let entries = self.entries.push(
                    ZipEntryView {
                        path: entry_path(folder, self.files[self.file_index], self.dir),
                        content: c,
                    },
                );
                let j = self.file_index + 1;
                if j < self.files.len() {
                    (
                        MapDeployView { entries, file_index: j, ..s },
                        MapActionView::ReadFile { path: self.files[j] },
                    )
                } else {
                    (
                        MapDeployView { stage: MapStage::Hashing, entries, file_index: j, ..s },
                        MapActionView::ComputeMd5 { content: concat_contents(entries) },
                    )
                }
            },
            MapEventView::Md5Computed(Err(m)) => s.skip_for("md5 failed: "@ + m),
            MapEventView::Md5Computed(Ok(h)) => (
                MapDeployView { stage: MapStage::Looking, checksum: h, ..s },
                MapActionView::GetMap { id: known_map_id(self.index) },
            ),
            MapEventView::MapFetched(Err(m)) => s.skip_for(m),
            MapEventView::MapFetched(Ok(current)) => if current matches Some(m) && checksum_matches(
                m.checksum,
                self.checksum,
            ) {
                s.skip_map()
            } else {
                let version = next_map_version(current);
                let zip_name = zip_file_name(folder, version, self.checksum);
                if self.dry_run {
                    s.map_done()
                } else {
                    (
                        MapDeployView { stage: MapStage::Writing, version, zip_name, ..s },
                        MapActionView::WriteZip {
                            entries: self.entries,
                            dest: joined_path(self.map_dir, zip_name),
                        },
                    )
                }
            },
            MapEventView::ZipWritten(Err(m)) => s.skip_for("zip write failed: "@ + m),
            MapEventView::ZipWritten(Ok(())) => (
                MapDeployView { stage: MapStage::Updating, ..s },
                MapActionView::UpdateMap {
                    id: known_map_id(self.index),
                    version: self.version as i32,
                    filename: "maps/"@ + self.zip_name,
                    checksum: self.checksum,
                },
            ),
            MapEventView::MapUpdated(Err(m)) => s.skip_for(m),
            MapEventView::MapUpdated(Ok(())) => s.map_done(),
        }
    }

    /// `a` is the action the deployment waits on in this state.
    pub open spec fn awaits(self, a: MapActionView) -> bool {
        &&& self.wf()
        &&& match a {
            MapActionView::Checkout { url, git_ref, workdir } => self.stage == MapStage::CheckingOut
                && url == self.repo_url && git_ref == self.git_ref && workdir == self.workdir,
            MapActionView::ListFiles { dir } => self.stage == MapStage::Listing && dir == self.dir,
            MapActionView::ReadFile { path } => self.stage == MapStage::Reading && path
                == self.files[self.file_index],
            MapActionView::ComputeMd5 { content } => self.stage == MapStage::Hashing && content
                == concat_contents(self.entries),
            MapActionView::GetMap { id } => self.stage == MapStage::Looking && id == known_map_id(
                self.index,
            ),
            MapActionView::WriteZip { entries, dest } => self.stage == MapStage::Writing && entries
                == self.entries && dest == joined_path(self.map_dir, self.zip_name),
            MapActionView::UpdateMap { id, version, filename, checksum } => self.stage
                == MapStage::Updating && id == known_map_id(self.index) && version == self.version
                && filename == "maps/"@ + self.zip_name && checksum == self.checksum,
            MapActionView::Done { .. } => self.stage == MapStage::Finished,
        }
    }

    /// The maps left to start, counting the one at hand (none once
    /// finished): the first part of the work left.
    pub open spec fn maps_left(self) -> int {
        if self.stage == MapStage::Finished {
            0
        } else {
            KNOWN_MAP_COUNT + 1 - self.index
        }
    }

    /// How far the map at hand is from its last stage: the second part of
    /// the work left.
    pub open spec fn stages_left(self) -> int {
        match self.stage {
            MapStage::CheckingOut => 8,
            MapStage::Listing => 7,
            MapStage::Reading => 6,
            MapStage::Hashing => 5,
            MapStage::Looking => 4,
            MapStage::Writing => 3,
            MapStage::Updating => 2,
            MapStage::Finished => 0,
        }
    }

    /// The files of the map at hand still to read: the third part of the
    /// work left.
    pub open spec fn reads_left(self) -> int {
        if self.stage == MapStage::Reading {
            self.files.len() - self.file_index
        } else {
            0
        }
    }

    /// `self` has less work left than `before`, in the order of maps, then
    /// stages, then reads.
    pub open spec fn less_work_than(self, before: MapDeployView) -> bool {
        ||| self.maps_left() < before.maps_left()
        ||| self.maps_left() == before.maps_left() && self.stages_left() < before.stages_left()
        ||| self.maps_left() == before.maps_left() && self.stages_left() == before.stages_left()
            && self.reads_left() < before.reads_left()
    }
}

/// The bytes of all `entries`, one after another.
fn concat_entry_contents(entries: &Vec<ZipEntry>) -> (c: Vec<u8>)
    ensures
        c@ == concat_contents(entries_view(entries@)),
{
    let ghost ev = entries_view(entries@);
    let mut out: Vec<u8> = Vec::new();
    let n = entries.len();
    let mut i: usize = 0;
    while i < n
        invariant
            n == entries@.len(),
            ev == entries_view(entries@),
            i <= n,
            out@ == concat_contents(ev.subrange(0, i as int)),
        decreases n - i,
    {
        let content = &entries[i].content;
        let m = content.len();
        let mut j: usize = 0;
        let ghost start = out@;
        while j < m
            invariant
                m == content@.len(),
                j <= m,
                out@ == start + content@.subrange(0, j as int),
            decreases m - j,
        {
            out.push(content[j]);
            j = j + 1;
            assert(out@ =~= start + content@.subrange(0, j as int));
        }
        proof {
            assert(content@.subrange(0, m as int) =~= content@);
            assert(ev.subrange(0, i + 1).drop_last() =~= ev.subrange(0, i as int));
            assert(ev[i as int].content == content@);
        }
        i = i + 1;
    }
    assert(ev.subrange(0, n as int) =~= ev);
    out
}

/// The short form of `checksum` (see `checksum_prefix`).
fn checksum_prefix_string(checksum: &str) -> (p: String)
    ensures
        p@ == checksum_prefix(checksum@),
{
    let n = checksum.unicode_len();
    if n >= 8 {
        String::from_str(checksum.substring_char(0, 8))
    } else {
        assert(checksum@.subrange(0, n as int) =~= checksum@);
        String::from_str(checksum.substring_char(0, n))
    }
}

/// Whether `stored` stands for `checksum` (see `checksum_matches`).
fn checksum_match(stored: &str, checksum: &str) -> (m: bool)
    ensures
        m == checksum_matches(stored@, checksum@),
{
    if str_equal(stored, checksum) {
        true
    } else {
        let p = checksum_prefix_string(checksum);
        str_equal(stored, p.as_str())
    }
}

/// The archive name of version `version` of the map in `folder` with
/// checksum `checksum`.
fn zip_file_name_string(folder: &str, version: i32, checksum: &str) -> (name: String)
    ensures
        name@ == zip_file_name(folder@, version as int, checksum@),
{
    proof {
        reveal_strlit(".v");
        reveal_strlit(".");
        reveal_strlit(".zip");
    }
    let n = String::from_str(folder);
    let n = n.concat(".v");
    let v = render_i32_width4(version);
    let n = n.concat(v.as_str());
    let n = n.concat(".");
    let p = checksum_prefix_string(checksum);
    let n = n.concat(p.as_str());
    n.concat(".zip")
}

impl MapDeploy {
    /// A deployment for `config`, which first asks for the repository
    /// checkout.
    pub fn start(config: &MapConfig) -> (r: (MapDeploy, MapAction))
        ensures
            r.0@.repo_url == config.repo_url@,
            r.0@.git_ref == config.git_ref@,
            r.0@.workdir == config.workdir@,
            r.0@.map_dir == config.map_dir@,
            r.0@.dry_run == config.dry_run,
            r.0@.stage == MapStage::CheckingOut,
            r.0@.index == 0,
            r.1@ == (MapActionView::Checkout {
                url: config.repo_url@,
                git_ref: config.git_ref@,
                workdir: config.workdir@,
            }),
            r.0@.awaits(r.1@),
    {
        let d = MapDeploy {
            repo_url: config.repo_url.clone(),
            git_ref: config.git_ref.clone(),
            workdir: config.workdir.clone(),
            map_dir: config.map_dir.clone(),
            dry_run: config.dry_run,
            stage: MapStage::CheckingOut,
            index: 0,
            result: DeployResult { updated: 0, skipped: 0 },
            dir: String::new(),
            files: Vec::new(),
            file_index: 0,
            entries: Vec::new(),
            checksum: String::new(),
            version: 0,
            zip_name: String::new(),
            warning: None,
        };
        let a = MapAction::Checkout {
            url: config.repo_url.clone(),
            git_ref: config.git_ref.clone(),
            workdir: config.workdir.clone(),
        };
        (d, a)
    }

    /// Whether taking `event` would need a version beyond `i32::MAX` (see
    /// `MapDeployView::overflows`).
    pub fn overflows_on(&self, event: &MapEvent) -> (o: bool)
        ensures
            o == self@.overflows(event@),
    {
        match event {
            MapEvent::MapFetched(Ok(Some(m))) => m.version == i32::MAX && !checksum_match(
                m.checksum.as_str(),
                self.checksum.as_str(),
            ),
            _ => false,
        }
    }

    /// Whether the deployment is over.
    pub fn is_finished(&self) -> (done: bool)
        ensures
            done == (self@.stage == MapStage::Finished),
    {
        self.stage == MapStage::Finished
    }

    /// See `MapDeployView::next_map`.
    fn next_map(&mut self) -> (a: MapAction)
        requires
            0 <= old(self)@.index <= KNOWN_MAP_COUNT,
        ensures
            (final(self)@, a@) == old(self)@.next_map(),
    {
        if self.index >= KNOWN_MAP_COUNT {
            self.stage = MapStage::Finished;
            return MapAction::Done(Ok(self.result));
        }
        let m = known_map(self.index);
        let dir = path_join(self.workdir.as_str(), m.folder_name);
        self.dir = dir.clone();
        self.stage = MapStage::Listing;
        MapAction::ListFiles { dir }
    }

    /// See `MapDeployView::skip_map`.
    fn skip_map(&mut self) -> (a: MapAction)
        requires
            0 <= old(self)@.index < KNOWN_MAP_COUNT,
            old(self)@.skipped < KNOWN_MAP_COUNT,
        ensures
            (final(self)@, a@) == old(self)@.skip_map(),
    {
        self.index = self.index + 1;
        self.result.skipped = self.result.skipped + 1;
        self.next_map()
    }

    /// See `MapDeployView::skip_for`.
    fn skip_for(&mut self, reason: String) -> (a: MapAction)
        requires
            0 <= old(self)@.index < KNOWN_MAP_COUNT,
            old(self)@.skipped < KNOWN_MAP_COUNT,
        ensures
            (final(self)@, a@) == old(self)@.skip_for(reason@),
    {
        let m = known_map(self.index);
        let w = String::from_str("skipping map ").concat(render_i32(m.id).as_str()).concat(" (").concat(
            m.folder_name,
        ).concat("): ").concat(reason.as_str());
        self.warning = Some(w);
        self.skip_map()
    }

    /// Why the last step skipped a map, when a step on it failed: the
    /// warning to report (see `skip_warning`); `None` after any other step.
    pub fn warning(&self) -> (w: Option<String>)
        ensures
            match w {
                Some(m) => self@.warning == Some(m@),
                None => self@.warning is None,
            },
    {
        match &self.warning {
            Some(m) => Some(m.clone()),
            None => None,
        }
    }

    /// See `MapDeployView::map_done`.
    fn map_done(&mut self) -> (a: MapAction)
        requires
            0 <= old(self)@.index < KNOWN_MAP_COUNT,
            old(self)@.updated < KNOWN_MAP_COUNT,
        ensures
            (final(self)@, a@) == old(self)@.map_done(),
    {
        self.index = self.index + 1;
        self.result.updated = self.result.updated + 1;
        self.next_map()
    }

    /// Takes what came of the last action and gives the next action (see
    /// `MapDeployView::transition`).
    pub fn step(&mut self, event: MapEvent) -> (a: MapAction)
        requires
            old(self)@.wf(),
            old(self)@.stage != MapStage::Finished,
            old(self)@.accepts(event@),
            !old(self)@.overflows(event@),
        ensures
            (final(self)@, a@) == old(self)@.transition(event@),
            final(self)@.awaits(a@),
            final(self)@.less_work_than(old(self)@),
            final(self)@.dry_run == old(self)@.dry_run,
            final(self)@.workdir == old(self)@.workdir,
            final(self)@.map_dir == old(self)@.map_dir,
    {
        self.warning = None;
        match event {
            MapEvent::CheckedOut(r) => match r {
                Err(e) => {
                    self.stage = MapStage::Finished;
                    MapAction::Done(Err(DeployError::with_cause("git checkout failed: ", &e.0)))
                },
                Ok(()) => {
                    self.index = 0;
                    self.result = DeployResult { updated: 0, skipped: 0 };
                    self.next_map()
                },
            },
            MapEvent::Listed(r) => match r {
                Err(e) => {
                    let folder = known_map(self.index).folder_name;
                    let reason = String::from_str("cannot list ").concat(folder).concat(": ").concat(e.0.as_str());
                    self.skip_for(reason)
                },
                Ok(files) => {
                    if files.len() == 0 {
                        let folder = known_map(self.index).folder_name;
                        let reason = String::from_str("no files found for ").concat(folder);
                        self.skip_for(reason)
                    } else {
                        let first = files[0].clone();
                        self.files = files;
                        self.file_index = 0;
                        self.entries = Vec::new();
                        self.stage = MapStage::Reading;
                        proof {
                            assert(entries_view(self.entries@) =~= Seq::<ZipEntryView>::empty());
                        }
                        MapAction::ReadFile { path: first }
                    }
                },
            },
            MapEvent::FileRead(r) => match r {
                Err(e) => {
                    assert(self@.file_index < self@.files.len());
                    assert(self@.files.len() == self.files@.len());
                    assert(self@.files[self@.file_index] == self.files@[self.file_index as int]@);
                    let reason = String::from_str("cannot read ").concat(
                        self.files[self.file_index].as_str(),
                    ).concat(": ").concat(e.0.as_str());
                    self.skip_for(reason)
                },
                Ok(content) => {
                    assert(self@.stage == MapStage::Reading);
                    assert(self@.file_index < self@.files.len());
                    assert(self@.files.len() == self.files@.len());
                    assert(self.file_index < self.files.len());
                    let m = known_map(self.index);
                    let rel = match path_strip_prefix(self.files[self.file_index].as_str(), self.dir.as_str()) {
                        Some(rel) => rel,
                        None => self.files[self.file_index].clone(),
                    };
                    let path = path_join(m.folder_name, rel.as_str());
                    let entry = ZipEntry { path, content };
                    let ghost before = self.entries@;
                    self.entries.push(entry);
                    proof {
                        assert(entries_view(self.entries@) =~= entries_view(before).push(entry@));
                    }
                    self.file_index = self.file_index + 1;
                    if self.file_index < self.files.len() {
                        MapAction::ReadFile { path: self.files[self.file_index].clone() }
                    } else {
                        self.stage = MapStage::Hashing;
                        MapAction::ComputeMd5 { content: concat_entry_contents(&self.entries) }
                    }
                },
            },
            MapEvent::Md5Computed(r) => match r {
                Err(e) => {
                    let reason = String::from_str("md5 failed: ").concat(e.0.as_str());
                    self.skip_for(reason)
                },
                Ok(h) => {
                    self.checksum = h;
                    self.stage = MapStage::Looking;
                    MapAction::GetMap { id: known_map(self.index).id }
                },
            },
            MapEvent::MapFetched(r) => match r {
                Err(e) => {
                    let reason = e.0;
                    self.skip_for(reason)
                },
                Ok(current) => {
                    let same = match &current {
                        Some(m) => checksum_match(m.checksum.as_str(), self.checksum.as_str()),
                        None => false,
                    };
                    if same {
                        self.skip_map()
                    } else {
                        let version = match &current {
                            Some(m) => m.version + 1,
                            None => 1,
                        };
                        let folder = known_map(self.index).folder_name;
                        let zip_name = zip_file_name_string(folder, version, self.checksum.as_str());
                        if self.dry_run {
                            self.map_done()
                        } else {
                            let dest = path_join(self.map_dir.as_str(), zip_name.as_str());
                            self.version = version;
                            self.zip_name = zip_name;
                            self.stage = MapStage::Writing;
                            MapAction::WriteZip { entries: copy_entries(&self.entries), dest }
                        }
                    }
                },
            },
            MapEvent::ZipWritten(r) => match r {
                Err(e) => {
                    let reason = String::from_str("zip write failed: ").concat(e.0.as_str());
                    self.skip_for(reason)
                },
                Ok(()) => {
                    self.stage = MapStage::Updating;
                    let filename = String::from_str("maps/");
                    let filename = filename.concat(self.zip_name.as_str());
                    MapAction::UpdateMap {
                        id: known_map(self.index).id,
                        version: self.version,
                        filename,
                        checksum: self.checksum.clone(),
                    }
                },
            },
            MapEvent::MapUpdated(r) => match r {
                Err(e) => {
                    let reason = e.0;
                    self.skip_for(reason)
                },
                Ok(()) => self.map_done(),
            },
        }
    }
}

/// The map stored under `id`, if any.
pub open spec fn stored_map(m: Map<i32, CoopMapView>, id: i32) -> Option<CoopMapView> {
    if m.contains_key(id) {
        Some(m[id])
    } else {
        None
    }
}

/// What a map deployment leaves behind in the in-memory ports: its outcome
/// (`None` where it cannot go on: a checksum sum or a version beyond what
/// its integer type holds), the maps recorded, and the archives written.
pub struct MapRun {
    pub result: Option<Result<DeployResult, Seq<char>>>,
    pub maps: Map<i32, CoopMapView>,
    pub zips: Seq<(Seq<char>, Seq<ZipEntryView>)>,
}

/// The entries made by reading `files[j..]` from `files_table` in order,
/// after the entries `acc` already made; `None` when one of them is
/// missing.
pub open spec fn read_entries_from(
    files_table: Seq<(Seq<char>, Seq<u8>)>,
    files: Seq<Seq<char>>,
    j: int,
    dir: Seq<char>,
    folder: Seq<char>,
    acc: Seq<ZipEntryView>,
) -> Option<Seq<ZipEntryView>>
    decreases files.len() - j,
{
    if j < 0 || j >= files.len() {
        Some(acc)
    } else {
        match table_get(files_table, files[j], true) {
            None => None,
            Some(c) => read_entries_from(
                files_table,
                files,
                j + 1,
                dir,
                folder,
                acc.push(ZipEntryView { path: entry_path(folder, files[j], dir), content: c }),
            ),
        }
    }
}

/// A map deployment against the in-memory ports, from known map `k` on,
/// with `updated` and `skipped` counted so far, stored files
/// `files_table`, recorded maps `maps` and archives `zips`.
///
/// A map whose folder lists no file, or one of whose files cannot be read,
/// is skipped; one whose checksum equals the recorded one is skipped; any
/// other is counted as updated and, unless dry running, archived under its
/// next version and recorded with that version, archive name and checksum.
pub open spec fn maps_from(
    files_table: Seq<(Seq<char>, Seq<u8>)>,
    workdir: Seq<char>,
    map_dir: Seq<char>,
    dry_run: bool,
    k: int,
    maps: Map<i32, CoopMapView>,
    zips: Seq<(Seq<char>, Seq<ZipEntryView>)>,
    updated: int,
    skipped: int,
) -> MapRun
    decreases KNOWN_MAP_COUNT - k, 2int,
{
    if k < 0 || k >= KNOWN_MAP_COUNT {
        MapRun {
            result: Some(Ok(DeployResult { updated: updated as u32, skipped: skipped as u32 })),
            maps,
            zips,
        }
    } else {
        let folder = known_map_folder(k);
        let dir = joined_path(workdir, folder);
        let files = listed_files(files_table, dir);
        if files.len() == 0 {
            maps_from(files_table, workdir, map_dir, dry_run, k + 1, maps, zips, updated, skipped + 1)
        } else {
            match read_entries_from(files_table, files, 0, dir, folder, Seq::empty()) {
                None => maps_from(
                    files_table,
                    workdir,
                    map_dir,
                    dry_run,
                    k + 1,
                    maps,
                    zips,
                    updated,
                    skipped + 1,
                ),
                Some(entries) => map_after_entries(
                    files_table,
                    workdir,
                    map_dir,
                    dry_run,
                    k,
                    entries,
                    maps,
                    zips,
                    updated,
                    skipped,
                ),
            }
        }
    }
}

/// The rest of `maps_from` once map `k`'s files are read as `entries`.
pub open spec fn map_after_entries(
    files_table: Seq<(Seq<char>, Seq<u8>)>,
    workdir: Seq<char>,
    map_dir: Seq<char>,
    dry_run: bool,
    k: int,
    entries: Seq<ZipEntryView>,
    maps: Map<i32, CoopMapView>,
    zips: Seq<(Seq<char>, Seq<ZipEntryView>)>,
    updated: int,
    skipped: int,
) -> MapRun
    decreases KNOWN_MAP_COUNT - k, 1int,
{
    let content = concat_contents(entries);
    if k < 0 || k >= KNOWN_MAP_COUNT || byte_sum(content) > u64::MAX {
        MapRun { result: None, maps, zips }
    } else {
        map_after_md5(
            files_table,
            workdir,
            map_dir,
            dry_run,
            k,
            entries,
            fake_md5(content),
            maps,
            zips,
            updated,
            skipped,
        )
    }
}

/// The rest of `maps_from` once map `k`'s checksum `checksum` is known.
pub open spec fn map_after_md5(
    files_table: Seq<(Seq<char>, Seq<u8>)>,
    workdir: Seq<char>,
    map_dir: Seq<char>,
    dry_run: bool,
    k: int,
    entries: Seq<ZipEntryView>,
    checksum: Seq<char>,
    maps: Map<i32, CoopMapView>,
    zips: Seq<(Seq<char>, Seq<ZipEntryView>)>,
    updated: int,
    skipped: int,
) -> MapRun
    decreases KNOWN_MAP_COUNT - k, 0int,
{
    let id = known_map_id(k);
    let current = stored_map(maps, id);
    let version = next_map_version(current);
    let zip_name = zip_file_name(known_map_folder(k), version, checksum);
    if k < 0 || k >= KNOWN_MAP_COUNT {
        MapRun { result: None, maps, zips }
    } else if current matches Some(m) && checksum_matches(m.checksum, checksum) {
        maps_from(files_table, workdir, map_dir, dry_run, k + 1, maps, zips, updated, skipped + 1)
    } else if version > i32::MAX {
        MapRun { result: None, maps, zips }
    } else if dry_run {
        maps_from(files_table, workdir, map_dir, dry_run, k + 1, maps, zips, updated + 1, skipped)
    } else {
        maps_from(
            files_table,
            workdir,
            map_dir,
            dry_run,
            k + 1,
            maps.insert(
                id,
                updated_map(current, id, version as i32, "maps/"@ + zip_name, checksum),
            ),
            table_put(zips, joined_path(map_dir, zip_name), entries, true),
            updated + 1,
            skipped,
        )
    }
}

/// A whole map deployment against the in-memory ports.
pub open spec fn map_deployment(
    files_table: Seq<(Seq<char>, Seq<u8>)>,
    workdir: Seq<char>,
    map_dir: Seq<char>,
    dry_run: bool,
    maps: Map<i32, CoopMapView>,
    zips: Seq<(Seq<char>, Seq<ZipEntryView>)>,
) -> MapRun {
    maps_from(files_table, workdir, map_dir, dry_run, 0, maps, zips, 0, 0)
}

/// What is left of a map deployment against the in-memory ports when it is
/// in state `v` and waits on action `a`.
pub open spec fn remaining_map_outcome(
    v: MapDeployView,
    a: MapActionView,
    files_table: Seq<(Seq<char>, Seq<u8>)>,
    maps: Map<i32, CoopMapView>,
    zips: Seq<(Seq<char>, Seq<ZipEntryView>)>,
) -> MapRun {
    let k = v.index;
    let folder = known_map_folder(k);
    match a {
        MapActionView::Done { result } => MapRun { result: Some(result), maps, zips },
        MapActionView::Checkout { .. } => maps_from(
            files_table,
            v.workdir,
            v.map_dir,
            v.dry_run,
            0,
            maps,
            zips,
            0,
            0,
        ),
        MapActionView::ListFiles { .. } => maps_from(
            files_table,
            v.workdir,
            v.map_dir,
            v.dry_run,
            k,
            maps,
            zips,
            v.updated,
            v.skipped,
        ),
        MapActionView::ReadFile { .. } => match read_entries_from(
            files_table,
            v.files,
            v.file_index,
            v.dir,
            folder,
            v.entries,
        ) {
            None => maps_from(
                files_table,
                v.workdir,
                v.map_dir,
                v.dry_run,
                k + 1,
                maps,
                zips,
                v.updated,
                v.skipped + 1,
            ),
            Some(entries) => map_after_entries(
                files_table,
                v.workdir,
                v.map_dir,
                v.dry_run,
                k,
                entries,
                maps,
                zips,
                v.updated,
                v.skipped,
            ),
        },
        MapActionView::ComputeMd5 { .. } => map_after_entries(
            files_table,
            v.workdir,
            v.map_dir,
            v.dry_run,
            k,
            v.entries,
            maps,
            zips,
            v.updated,
            v.skipped,
        ),
        MapActionView::GetMap { .. } => map_after_md5(
            files_table,
            v.workdir,
            v.map_dir,
            v.dry_run,
            k,
            v.entries,
            v.checksum,
            maps,
            zips,
            v.updated,
            v.skipped,
        ),
        MapActionView::WriteZip { entries, dest } => maps_from(
            files_table,
            v.workdir,
            v.map_dir,
            v.dry_run,
            k + 1,
            maps.insert(
                known_map_id(k),
                updated_map(
                    stored_map(maps, known_map_id(k)),
                    known_map_id(k),
                    v.version as i32,
                    "maps/"@ + v.zip_name,
                    v.checksum,
                ),
            ),
            table_put(zips, dest, entries, true),
            v.updated + 1,
            v.skipped,
        ),
        MapActionView::UpdateMap { id, version, filename, checksum } => maps_from(
            files_table,
            v.workdir,
            v.map_dir,
            v.dry_run,
            k + 1,
            maps.insert(id, updated_map(stored_map(maps, id), id, version, filename, checksum)),
            zips,
            v.updated + 1,
            v.skipped,
        ),
    }
}

/// Deploys every known map from the checked-out repository, against the
/// in-memory ports (see `map_deployment`): the result, the maps recorded
/// and the archives written are those of the deployment; nothing else is
/// written.
pub fn deploy_all_maps(ports: &mut TestPorts, config: &MapConfig) -> (r: Result<DeployResult, DeployError>)
    requires
        map_deployment(
            old(ports).fs.files_view(),
            config.workdir@,
            config.map_dir@,
            config.dry_run,
            old(ports).db.maps(),
            old(ports).fs.zips_view(),
        ).result is Some,
    ensures
        ({
            let run = map_deployment(
                old(ports).fs.files_view(),
                config.workdir@,
                config.map_dir@,
                config.dry_run,
                old(ports).db.maps(),
                old(ports).fs.zips_view(),
            );
            &&& match r {
                Ok(d) => run.result == Some(Ok::<DeployResult, Seq<char>>(d)),
                Err(e) => run.result == Some(Err::<DeployResult, Seq<char>>(e.0@)),
            }
            &&& final(ports).db.maps() == run.maps
            &&& final(ports).fs.zips_view() == run.zips
        }),
        final(ports).fs.files_view() == old(ports).fs.files_view(),
        final(ports).db.patches() == old(ports).db.patches(),
        final(ports).db.campaigns() == old(ports).db.campaigns(),
        final(ports).github == old(ports).github,
{
    let ghost run = map_deployment(
        ports.fs.files_view(),
        config.workdir@,
        config.map_dir@,
        config.dry_run,
        ports.db.maps(),
        ports.fs.zips_view(),
    );
    let (mut machine, mut action) = MapDeploy::start(config);
    loop
        invariant
            machine@.awaits(action@),
            machine@.dry_run == config.dry_run,
            machine@.workdir == config.workdir@,
            machine@.map_dir == config.map_dir@,
            remaining_map_outcome(
                machine@,
                action@,
                ports.fs.files_view(),
                ports.db.maps(),
                ports.fs.zips_view(),
            ) == run,
            run == map_deployment(
                old(ports).fs.files_view(),
                config.workdir@,
                config.map_dir@,
                config.dry_run,
                old(ports).db.maps(),
                old(ports).fs.zips_view(),
            ),
            run.result is Some,
            ports.fs.files_view() == old(ports).fs.files_view(),
            ports.db.patches() == old(ports).db.patches(),
            ports.db.campaigns() == old(ports).db.campaigns(),
            ports.github == old(ports).github,
        decreases machine@.maps_left(), machine@.stages_left(), machine@.reads_left(),
    {
        let ghost v = machine@;
        let ghost ft = ports.fs.files_view();
        let ghost mm = ports.db.maps();
        let ghost zz = ports.fs.zips_view();
        let event = match action {
            MapAction::Checkout { url, git_ref, workdir } => {
                let c = ports.git.checkout(url.as_str(), git_ref.as_str(), workdir.as_str());
                MapEvent::CheckedOut(c)
            },
            MapAction::ListFiles { dir } => {
                let listed = ports.fs.list_files(dir.as_str());
                proof {
                    assert(maps_from(ft, v.workdir, v.map_dir, v.dry_run, v.index, mm, zz, v.updated, v.skipped)
                        == remaining_map_outcome(v, action@, ft, mm, zz));
                }
                MapEvent::Listed(listed)
            },
            MapAction::ReadFile { path } => {
                let read = ports.fs.read_file(path.as_str());
                MapEvent::FileRead(read)
            },
            MapAction::ComputeMd5 { content } => {
                let m = ports.fs.compute_md5(content.as_slice());
                MapEvent::Md5Computed(m)
            },
            MapAction::GetMap { id } => {
                let current = ports.db.get_map(id);
                let e = MapEvent::MapFetched(current);
                proof {
                    assert(e@ == MapEventView::MapFetched(Ok(stored_map(mm, id))));
                }
                e
            },
            MapAction::WriteZip { entries, dest } => {
                let w = ports.fs.write_zip(entries, dest.as_str());
                MapEvent::ZipWritten(w)
            },
            MapAction::UpdateMap { id, version, filename, checksum } => {
                let u = ports.db.update_map(id, version, filename.as_str(), checksum.as_str());
                MapEvent::MapUpdated(u)
            },
            MapAction::Done(r) => {
                return r;
            },
        };
        action = machine.step(event);
    }
}


/// Deploys every known map as `deploy_all_maps` does, but first tests, at
/// each map, that its checksum sum and its next version fit their integer
/// types: `None` where one would not (the deployment stops there, having
/// done what `map_deployment` says up to that map), else the outcome.
pub fn try_deploy_all_maps(ports: &mut TestPorts, config: &MapConfig) -> (r: Option<
    Result<DeployResult, DeployError>,
>)
    ensures
        ({
            let run = map_deployment(
                old(ports).fs.files_view(),
                config.workdir@,
                config.map_dir@,
                config.dry_run,
                old(ports).db.maps(),
                old(ports).fs.zips_view(),
            );
            &&& match r {
                Some(Ok(d)) => run.result == Some(Ok::<DeployResult, Seq<char>>(d)),
                Some(Err(e)) => run.result == Some(Err::<DeployResult, Seq<char>>(e.0@)),
                None => run.result is None,
            }
            &&& final(ports).db.maps() == run.maps
            &&& final(ports).fs.zips_view() == run.zips
        }),
        final(ports).fs.files_view() == old(ports).fs.files_view(),
        final(ports).db.patches() == old(ports).db.patches(),
        final(ports).db.campaigns() == old(ports).db.campaigns(),
        final(ports).github == old(ports).github,
{
    let ghost run = map_deployment(
        ports.fs.files_view(),
        config.workdir@,
        config.map_dir@,
        config.dry_run,
        ports.db.maps(),
        ports.fs.zips_view(),
    );
    let (mut machine, mut action) = MapDeploy::start(config);
    loop
        invariant
            machine@.awaits(action@),
            machine@.dry_run == config.dry_run,
            machine@.workdir == config.workdir@,
            machine@.map_dir == config.map_dir@,
            remaining_map_outcome(
                machine@,
                action@,
                ports.fs.files_view(),
                ports.db.maps(),
                ports.fs.zips_view(),
            ) == run,
            run == map_deployment(
                old(ports).fs.files_view(),
                config.workdir@,
                config.map_dir@,
                config.dry_run,
                old(ports).db.maps(),
                old(ports).fs.zips_view(),
            ),
            ports.fs.files_view() == old(ports).fs.files_view(),
            ports.db.patches() == old(ports).db.patches(),
            ports.db.campaigns() == old(ports).db.campaigns(),
            ports.github == old(ports).github,
        decreases machine@.maps_left(), machine@.stages_left(), machine@.reads_left(),
    {
        let ghost v = machine@;
        let ghost ft = ports.fs.files_view();
        let ghost mm = ports.db.maps();
        let ghost zz = ports.fs.zips_view();
        let event = match action {
            MapAction::Checkout { url, git_ref, workdir } => {
                let c = ports.git.checkout(url.as_str(), git_ref.as_str(), workdir.as_str());
                MapEvent::CheckedOut(c)
            },
            MapAction::ListFiles { dir } => {
                let listed = ports.fs.list_files(dir.as_str());
                proof {
                    assert(maps_from(ft, v.workdir, v.map_dir, v.dry_run, v.index, mm, zz, v.updated, v.skipped)
                        == remaining_map_outcome(v, action@, ft, mm, zz));
                }
                MapEvent::Listed(listed)
            },
            MapAction::ReadFile { path } => {
                let read = ports.fs.read_file(path.as_str());
                MapEvent::FileRead(read)
            },
            MapAction::ComputeMd5 { content } => {
                if !byte_sum_fits(content.as_slice()) {
                    return None;
                }
                let m = ports.fs.compute_md5(content.as_slice());
                MapEvent::Md5Computed(m)
            },
            MapAction::GetMap { id } => {
                let current = ports.db.get_map(id);
                let e = MapEvent::MapFetched(current);
                proof {
                    assert(e@ == MapEventView::MapFetched(Ok(stored_map(mm, id))));
                }
                if machine.overflows_on(&e) {
                    return None;
                }
                e
            },
            MapAction::WriteZip { entries, dest } => {
                let w = ports.fs.write_zip(entries, dest.as_str());
                MapEvent::ZipWritten(w)
            },
            MapAction::UpdateMap { id, version, filename, checksum } => {
                let u = ports.db.update_map(id, version, filename.as_str(), checksum.as_str());
                MapEvent::MapUpdated(u)
            },
            MapAction::Done(r) => {
                return Some(r);
            },
        };
        action = machine.step(event);
    }
}

} // verus!
