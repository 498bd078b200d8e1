//! What every map deployment against the in-memory ports guarantees.

use vstd::prelude::*;
use crate::db::updated_map;
use crate::fs::{byte_sum, fake_md5, listed_files};
use crate::map::{
    KNOWN_MAP_COUNT, MapRun, concat_contents, known_map_folder, known_map_id, map_after_entries,
    map_after_md5, map_deployment, maps_from, next_map_version, read_entries_from, stored_map,
    zip_file_name, checksum_matches,
};
use crate::models::{CoopMapView, DeployResult, ZipEntryView};
use crate::paths::joined_path;
use crate::table::table_put;

verus! {

/// `maps_from` at one known map `k`, written out in full.
pub open spec fn maps_step(
    files_table: Seq<(Seq<char>, Seq<u8>)>,
    workdir: Seq<char>,
    map_dir: Seq<char>,
    dry_run: bool,
    k: int,
    maps: Map<i32, CoopMapView>,
    zips: Seq<(Seq<char>, Seq<ZipEntryView>)>,
    updated: int,
    skipped: int,
) -> MapRun {
    let folder = known_map_folder(k);
    let dir = joined_path(workdir, folder);
    let files = listed_files(files_table, dir);
    let skip = maps_from(files_table, workdir, map_dir, dry_run, k + 1, maps, zips, updated, skipped + 1);
    if files.len() == 0 {
        skip
    } else {
        match read_entries_from(files_table, files, 0, dir, folder, Seq::empty()) {
            None => skip,
            Some(entries) => {
                let content = concat_contents(entries);
                if byte_sum(content) > u64::MAX {
                    MapRun { result: None, maps, zips }
                } else {
                    let checksum = fake_md5(content);
                    let id = known_map_id(k);
                    let current = stored_map(maps, id);
                    let version = next_map_version(current);
                    let zip_name = zip_file_name(folder, version, checksum);
                    if current matches Some(m) && checksum_matches(m.checksum, checksum) {
                        skip
                    } else if version > i32::MAX {
                        MapRun { result: None, maps, zips }
                    } else if dry_run {
                        maps_from(files_table, workdir, map_dir, dry_run, k + 1, maps, zips, updated + 1, skipped)
                    } else {
                        maps_from(
                            files_table,
                            workdir,
                            map_dir,
                            dry_run,
                            k + 1,
                            maps.insert(
                                id,
                                updated_map(current, id, version as i32, "maps/"@ + zip_name, checksum),
                            ),
                            table_put(zips, joined_path(map_dir, zip_name), entries, true),
                            updated + 1,
                            skipped,
                        )
                    }
                }
            },
        }
    }
}

proof fn lemma_maps_unfold(
    files_table: Seq<(Seq<char>, Seq<u8>)>,
    workdir: Seq<char>,
    map_dir: Seq<char>,
    dry_run: bool,
    k: int,
    maps: Map<i32, CoopMapView>,
    zips: Seq<(Seq<char>, Seq<ZipEntryView>)>,
    updated: int,
    skipped: int,
)
    requires
        0 <= k < KNOWN_MAP_COUNT,
    ensures
        maps_from(files_table, workdir, map_dir, dry_run, k, maps, zips, updated, skipped) == maps_step(
            files_table,
            workdir,
            map_dir,
            dry_run,
            k,
            maps,
            zips,
            updated,
            skipped,
        ),
{
    let folder = known_map_folder(k);
    let dir = joined_path(workdir, folder);
    let files = listed_files(files_table, dir);
    if files.len() > 0 {
        match read_entries_from(files_table, files, 0, dir, folder, Seq::empty()) {
            None => {},
            Some(entries) => {
                let content = concat_contents(entries);
                let _ = map_after_entries(files_table, workdir, map_dir, dry_run, k, entries, maps, zips, updated, skipped);
                let _ = map_after_md5(
                    files_table,
                    workdir,
                    map_dir,
                    dry_run,
                    k,
                    entries,
                    fake_md5(content),
                    maps,
                    zips,
                    updated,
                    skipped,
                );
            },
        }
    }
}

/// The database ids of the known maps increase with their position.
pub proof fn lemma_known_map_ids_increase(i: int, j: int)
    requires
        0 <= i < j < KNOWN_MAP_COUNT,
    ensures
        known_map_id(i) < known_map_id(j),
    decreases j - i,
{
    if j > i + 1 {
        lemma_known_map_ids_increase(i, j - 1);
        lemma_known_map_ids_increase(j - 1, j);
    }
}

/// Known map `j` needs no new version given recorded maps `m`: its folder
/// lists no file or a file cannot be read, or its checksum is the one
/// recorded for it.
pub open spec fn map_settled(
    files_table: Seq<(Seq<char>, Seq<u8>)>,
    workdir: Seq<char>,
    j: int,
    m: Map<i32, CoopMapView>,
) -> bool {
    let folder = known_map_folder(j);
    let dir = joined_path(workdir, folder);
    let files = listed_files(files_table, dir);
    files.len() == 0 || match read_entries_from(files_table, files, 0, dir, folder, Seq::empty()) {
        None => true,
        Some(entries) => byte_sum(concat_contents(entries)) <= u64::MAX && (stored_map(
            m,
            known_map_id(j),
        ) matches Some(r) && checksum_matches(r.checksum, fake_md5(concat_contents(entries)))),
    }
}

/// A deployment from known map `k` on records nothing under the ids of
/// earlier maps.
proof fn lemma_maps_frame(
    files_table: Seq<(Seq<char>, Seq<u8>)>,
    workdir: Seq<char>,
    map_dir: Seq<char>,
    dry_run: bool,
    k: int,
    maps: Map<i32, CoopMapView>,
    zips: Seq<(Seq<char>, Seq<ZipEntryView>)>,
    updated: int,
    skipped: int,
    j: int,
)
    requires
        0 <= j < k <= KNOWN_MAP_COUNT,
    ensures
        stored_map(
            maps_from(files_table, workdir, map_dir, dry_run, k, maps, zips, updated, skipped).maps,
            known_map_id(j),
        ) == stored_map(maps, known_map_id(j)),
    decreases KNOWN_MAP_COUNT - k,
{
    if k < KNOWN_MAP_COUNT {
        lemma_maps_unfold(files_table, workdir, map_dir, dry_run, k, maps, zips, updated, skipped);
        lemma_known_map_ids_increase(j, k);
        let folder = known_map_folder(k);
        let dir = joined_path(workdir, folder);
        let files = listed_files(files_table, dir);
        lemma_maps_frame(files_table, workdir, map_dir, dry_run, k + 1, maps, zips, updated, skipped + 1, j);
        lemma_maps_frame(files_table, workdir, map_dir, dry_run, k + 1, maps, zips, updated + 1, skipped, j);
        if files.len() > 0 {
            match read_entries_from(files_table, files, 0, dir, folder, Seq::empty()) {
                None => {},
                Some(entries) => {
                    let checksum = fake_md5(concat_contents(entries));
                    let id = known_map_id(k);
                    let current = stored_map(maps, id);
                    let version = next_map_version(current);
                    let zip_name = zip_file_name(folder, version, checksum);
                    if version <= i32::MAX {
                        let m2 = maps.insert(
                            id,
                            updated_map(current, id, version as i32, "maps/"@ + zip_name, checksum),
                        );
                        lemma_maps_frame(
                            files_table,
                            workdir,
                            map_dir,
                            dry_run,
                            k + 1,
                            m2,
                            table_put(zips, joined_path(map_dir, zip_name), entries, true),
                            updated + 1,
                            skipped,
                            j,
                        );
                    }
                },
            }
        }
    }
}

/// A deployment that succeeds without dry running leaves every known map
/// from `k` on settled in the maps it records.
proof fn lemma_maps_settle(
    files_table: Seq<(Seq<char>, Seq<u8>)>,
    workdir: Seq<char>,
    map_dir: Seq<char>,
    k: int,
    maps: Map<i32, CoopMapView>,
    zips: Seq<(Seq<char>, Seq<ZipEntryView>)>,
    updated: int,
    skipped: int,
)
    requires
        0 <= k <= KNOWN_MAP_COUNT,
        maps_from(files_table, workdir, map_dir, false, k, maps, zips, updated, skipped).result matches Some(
            Ok(_),
        ),
    ensures
        forall|j: int|
            k <= j < KNOWN_MAP_COUNT ==> map_settled(
                files_table,
                workdir,
                j,
                #[trigger] maps_from(files_table, workdir, map_dir, false, k, maps, zips, updated, skipped).maps,
            ),
    decreases KNOWN_MAP_COUNT - k,
{
    if k < KNOWN_MAP_COUNT {
        lemma_maps_unfold(files_table, workdir, map_dir, false, k, maps, zips, updated, skipped);
        let out = maps_from(files_table, workdir, map_dir, false, k, maps, zips, updated, skipped).maps;
        let folder = known_map_folder(k);
        let dir = joined_path(workdir, folder);
        let files = listed_files(files_table, dir);
        let skip_next = maps_from(files_table, workdir, map_dir, false, k + 1, maps, zips, updated, skipped + 1);
        if files.len() == 0 {
            lemma_maps_settle(files_table, workdir, map_dir, k + 1, maps, zips, updated, skipped + 1);
        } else {
            match read_entries_from(files_table, files, 0, dir, folder, Seq::empty()) {
                None => {
                    lemma_maps_settle(files_table, workdir, map_dir, k + 1, maps, zips, updated, skipped + 1);
                },
                Some(entries) => {
                    let checksum = fake_md5(concat_contents(entries));
                    let id = known_map_id(k);
                    let current = stored_map(maps, id);
                    let version = next_map_version(current);
                    let zip_name = zip_file_name(folder, version, checksum);
                    if current matches Some(m) && checksum_matches(m.checksum, checksum) {
                        lemma_maps_settle(files_table, workdir, map_dir, k + 1, maps, zips, updated, skipped + 1);
                        lemma_maps_frame(files_table, workdir, map_dir, false, k + 1, maps, zips, updated, skipped + 1, k);
                    } else {
                        let m2 = maps.insert(
                            id,
                            updated_map(current, id, version as i32, "maps/"@ + zip_name, checksum),
                        );
                        let z2 = table_put(zips, joined_path(map_dir, zip_name), entries, true);
                        lemma_maps_settle(files_table, workdir, map_dir, k + 1, m2, z2, updated + 1, skipped);
                        lemma_maps_frame(files_table, workdir, map_dir, false, k + 1, m2, z2, updated + 1, skipped, k);
                    }
                },
            }
        }
        assert(map_settled(files_table, workdir, k, out));
    }
}

/// With every known map from `k` on settled, a deployment from `k` skips
/// them all and records and writes nothing.
proof fn lemma_maps_settled_run(
    files_table: Seq<(Seq<char>, Seq<u8>)>,
    workdir: Seq<char>,
    map_dir: Seq<char>,
    dry_run: bool,
    k: int,
    maps: Map<i32, CoopMapView>,
    zips: Seq<(Seq<char>, Seq<ZipEntryView>)>,
    updated: int,
    skipped: int,
)
    requires
        0 <= k <= KNOWN_MAP_COUNT,
        forall|j: int| k <= j < KNOWN_MAP_COUNT ==> #[trigger] map_settled(files_table, workdir, j, maps),
    ensures
        maps_from(files_table, workdir, map_dir, dry_run, k, maps, zips, updated, skipped) == (MapRun {
            result: Some(
                Ok(
                    DeployResult {
                        updated: updated as u32,
                        skipped: (skipped + KNOWN_MAP_COUNT - k) as u32,
                    },
                ),
            ),
            maps,
            zips,
        }),
    decreases KNOWN_MAP_COUNT - k,
{
    if k < KNOWN_MAP_COUNT {
        lemma_maps_unfold(files_table, workdir, map_dir, dry_run, k, maps, zips, updated, skipped);
        assert(map_settled(files_table, workdir, k, maps));
        lemma_maps_settled_run(files_table, workdir, map_dir, dry_run, k + 1, maps, zips, updated, skipped + 1);
    }
}

/// Deploying the maps again from an unchanged checkout, right after a
/// deployment that succeeded without dry running, updates nothing: every
/// known map is skipped, and no map record or archive changes.
pub proof fn law_map_redeploy_skips_all(
    files_table: Seq<(Seq<char>, Seq<u8>)>,
    workdir: Seq<char>,
    map_dir: Seq<char>,
    maps: Map<i32, CoopMapView>,
    zips: Seq<(Seq<char>, Seq<ZipEntryView>)>,
)
    requires
        map_deployment(files_table, workdir, map_dir, false, maps, zips).result matches Some(Ok(_)),
    ensures
        ({
            let first = map_deployment(files_table, workdir, map_dir, false, maps, zips);
            map_deployment(files_table, workdir, map_dir, false, first.maps, first.zips) == (MapRun {
                result: Some(Ok(DeployResult { updated: 0, skipped: 31 })),
                maps: first.maps,
                zips: first.zips,
            })
        }),
{
    let first = map_deployment(files_table, workdir, map_dir, false, maps, zips);
    lemma_maps_settle(files_table, workdir, map_dir, 0, maps, zips, 0, 0);
    assert forall|j: int| 0 <= j < KNOWN_MAP_COUNT implies #[trigger] map_settled(
        files_table,
        workdir,
        j,
        first.maps,
    ) by {}
    lemma_maps_settled_run(files_table, workdir, map_dir, false, 0, first.maps, first.zips, 0, 0);
}

/// After a deployment that succeeded without dry running, every known map
/// whose files could all be read is recorded with their checksum.
pub proof fn law_map_deploy_records_checksums(
    files_table: Seq<(Seq<char>, Seq<u8>)>,
    workdir: Seq<char>,
    map_dir: Seq<char>,
    maps: Map<i32, CoopMapView>,
    zips: Seq<(Seq<char>, Seq<ZipEntryView>)>,
)
    requires
        map_deployment(files_table, workdir, map_dir, false, maps, zips).result matches Some(Ok(_)),
    ensures
        forall|j: int|
            0 <= j < KNOWN_MAP_COUNT ==> #[trigger] map_settled(
                files_table,
                workdir,
                j,
                map_deployment(files_table, workdir, map_dir, false, maps, zips).maps,
            ),
{
    lemma_maps_settle(files_table, workdir, map_dir, 0, maps, zips, 0, 0);
}

/// A dry run records no map and writes no archive.
pub proof fn law_map_dry_run_writes_nothing(
    files_table: Seq<(Seq<char>, Seq<u8>)>,
    workdir: Seq<char>,
    map_dir: Seq<char>,
    maps: Map<i32, CoopMapView>,
    zips: Seq<(Seq<char>, Seq<ZipEntryView>)>,
)
    ensures
        map_deployment(files_table, workdir, map_dir, true, maps, zips).maps == maps,
        map_deployment(files_table, workdir, map_dir, true, maps, zips).zips == zips,
{
    lemma_maps_dry(files_table, workdir, map_dir, 0, maps, zips, 0, 0);
}

proof fn lemma_maps_dry(
    files_table: Seq<(Seq<char>, Seq<u8>)>,
    workdir: Seq<char>,
    map_dir: Seq<char>,
    k: int,
    maps: Map<i32, CoopMapView>,
    zips: Seq<(Seq<char>, Seq<ZipEntryView>)>,
    updated: int,
    skipped: int,
)
    requires
        0 <= k <= KNOWN_MAP_COUNT,
    ensures
        maps_from(files_table, workdir, map_dir, true, k, maps, zips, updated, skipped).maps == maps,
        maps_from(files_table, workdir, map_dir, true, k, maps, zips, updated, skipped).zips == zips,
    decreases KNOWN_MAP_COUNT - k,
{
    if k < KNOWN_MAP_COUNT {
        lemma_maps_unfold(files_table, workdir, map_dir, true, k, maps, zips, updated, skipped);
        lemma_maps_dry(files_table, workdir, map_dir, k + 1, maps, zips, updated, skipped + 1);
        lemma_maps_dry(files_table, workdir, map_dir, k + 1, maps, zips, updated + 1, skipped);
    }
}

/// A deployment that succeeds accounts for every known map: as many updated
/// and skipped together as there are known maps.
pub proof fn law_map_counts_cover_all_maps(
    files_table: Seq<(Seq<char>, Seq<u8>)>,
    workdir: Seq<char>,
    map_dir: Seq<char>,
    dry_run: bool,
    maps: Map<i32, CoopMapView>,
    zips: Seq<(Seq<char>, Seq<ZipEntryView>)>,
)
    ensures
        map_deployment(files_table, workdir, map_dir, dry_run, maps, zips).result matches Some(Ok(d))
            ==> d.updated + d.skipped == KNOWN_MAP_COUNT,
{
    lemma_maps_counts(files_table, workdir, map_dir, dry_run, 0, maps, zips, 0, 0);
}

proof fn lemma_maps_counts(
    files_table: Seq<(Seq<char>, Seq<u8>)>,
    workdir: Seq<char>,
    map_dir: Seq<char>,
    dry_run: bool,
    k: int,
    maps: Map<i32, CoopMapView>,
    zips: Seq<(Seq<char>, Seq<ZipEntryView>)>,
    updated: int,
    skipped: int,
)
    requires
        0 <= k <= KNOWN_MAP_COUNT,
        0 <= updated,
        0 <= skipped,
        updated + skipped == k,
    ensures
        maps_from(files_table, workdir, map_dir, dry_run, k, maps, zips, updated, skipped).result matches Some(
            Ok(d),
        ) ==> d.updated + d.skipped == KNOWN_MAP_COUNT,
    decreases KNOWN_MAP_COUNT - k,
{
    if k < KNOWN_MAP_COUNT {
        lemma_maps_unfold(files_table, workdir, map_dir, dry_run, k, maps, zips, updated, skipped);
        lemma_maps_counts(files_table, workdir, map_dir, dry_run, k + 1, maps, zips, updated, skipped + 1);
        lemma_maps_counts(files_table, workdir, map_dir, dry_run, k + 1, maps, zips, updated + 1, skipped);
        let folder = known_map_folder(k);
        let dir = joined_path(workdir, folder);
        let files = listed_files(files_table, dir);
        if files.len() > 0 {
            match read_entries_from(files_table, files, 0, dir, folder, Seq::empty()) {
                None => {},
                Some(entries) => {
                    let checksum = fake_md5(concat_contents(entries));
                    let id = known_map_id(k);
                    let current = stored_map(maps, id);
                    let version = next_map_version(current);
                    let zip_name = zip_file_name(folder, version, checksum);
                    if version <= i32::MAX {
                        lemma_maps_counts(
                            files_table,
                            workdir,
                            map_dir,
                            dry_run,
                            k + 1,
                            maps.insert(
                                id,
                                updated_map(current, id, version as i32, "maps/"@ + zip_name, checksum),
                            ),
                            table_put(zips, joined_path(map_dir, zip_name), entries, true),
                            updated + 1,
                            skipped,
                        );
                    }
                },
            }
        }
    }
}

/// What a deployment that succeeds without dry running records for known
/// map `j`, given what was recorded for it before (`current`): nothing new
/// when its folder lists no file, a file cannot be read, or its checksum is
/// the recorded one; otherwise the next version, archived as
/// `maps/{folder}.v{version:04}.zip`, with the new checksum.
pub open spec fn map_record_after(
    files_table: Seq<(Seq<char>, Seq<u8>)>,
    workdir: Seq<char>,
    j: int,
    current: Option<CoopMapView>,
) -> Option<CoopMapView> {
    let folder = known_map_folder(j);
    let dir = joined_path(workdir, folder);
    let files = listed_files(files_table, dir);
    if files.len() == 0 {
        current
    } else {
        match read_entries_from(files_table, files, 0, dir, folder, Seq::empty()) {
            None => current,
            Some(entries) => {
                let checksum = fake_md5(concat_contents(entries));
                if current matches Some(m) && checksum_matches(m.checksum, checksum) {
                    current
                } else {
                    let version = next_map_version(current);
                    Some(
                        updated_map(
                            current,
                            known_map_id(j),
                            version as i32,
                            "maps/"@ + zip_file_name(folder, version, checksum),
                            checksum,
                        ),
                    )
                }
            },
        }
    }
}

/// From known map `k` on, what is recorded for a later or equal map `j` is
/// `map_record_after` of what was recorded for it when the run reached `k`.
proof fn lemma_maps_record(
    files_table: Seq<(Seq<char>, Seq<u8>)>,
    workdir: Seq<char>,
    map_dir: Seq<char>,
    k: int,
    maps: Map<i32, CoopMapView>,
    zips: Seq<(Seq<char>, Seq<ZipEntryView>)>,
    updated: int,
    skipped: int,
    j: int,
)
    requires
        0 <= k <= j < KNOWN_MAP_COUNT,
        maps_from(files_table, workdir, map_dir, false, k, maps, zips, updated, skipped).result matches Some(
            Ok(_),
        ),
    ensures
        stored_map(
            maps_from(files_table, workdir, map_dir, false, k, maps, zips, updated, skipped).maps,
            known_map_id(j),
        ) == map_record_after(files_table, workdir, j, stored_map(maps, known_map_id(j))),
    decreases j - k,
{
    lemma_maps_unfold(files_table, workdir, map_dir, false, k, maps, zips, updated, skipped);
    let folder = known_map_folder(k);
    let dir = joined_path(workdir, folder);
    let files = listed_files(files_table, dir);
    let skip_k = files.len() == 0 || read_entries_from(files_table, files, 0, dir, folder, Seq::empty()) is None;
    if skip_k {
        if k < j {
            lemma_maps_record(files_table, workdir, map_dir, k + 1, maps, zips, updated, skipped + 1, j);
        } else {
            lemma_maps_frame(files_table, workdir, map_dir, false, k + 1, maps, zips, updated, skipped + 1, k);
        }
    } else {
        let entries = read_entries_from(files_table, files, 0, dir, folder, Seq::empty()).unwrap();
        let checksum = fake_md5(concat_contents(entries));
        let id = known_map_id(k);
        let current = stored_map(maps, id);
        let version = next_map_version(current);
        let zip_name = zip_file_name(folder, version, checksum);
        if current matches Some(m) && checksum_matches(m.checksum, checksum) {
            if k < j {
                lemma_maps_record(files_table, workdir, map_dir, k + 1, maps, zips, updated, skipped + 1, j);
            } else {
                lemma_maps_frame(files_table, workdir, map_dir, false, k + 1, maps, zips, updated, skipped + 1, k);
            }
        } else {
            let m2 = maps.insert(id, updated_map(current, id, version as i32, "maps/"@ + zip_name, checksum));
            let z2 = table_put(zips, joined_path(map_dir, zip_name), entries, true);
            if k < j {
                lemma_known_map_ids_increase(k, j);
                assert(stored_map(m2, known_map_id(j)) == stored_map(maps, known_map_id(j)));
                lemma_maps_record(files_table, workdir, map_dir, k + 1, m2, z2, updated + 1, skipped, j);
            } else {
                lemma_maps_frame(files_table, workdir, map_dir, false, k + 1, m2, z2, updated + 1, skipped, k);
            }
        }
    }
}

/// A deployment that succeeds without dry running records, for each known
/// map, what `map_record_after` says: a changed map gets the next version
/// (one more than the recorded one, or 1), its archive name and its new
/// checksum; an unchanged or unreadable map keeps its record.
pub proof fn law_map_deploy_versions(
    files_table: Seq<(Seq<char>, Seq<u8>)>,
    workdir: Seq<char>,
    map_dir: Seq<char>,
    maps: Map<i32, CoopMapView>,
    zips: Seq<(Seq<char>, Seq<ZipEntryView>)>,
    j: int,
)
    requires
        0 <= j < KNOWN_MAP_COUNT,
        map_deployment(files_table, workdir, map_dir, false, maps, zips).result matches Some(Ok(_)),
    ensures
        stored_map(map_deployment(files_table, workdir, map_dir, false, maps, zips).maps, known_map_id(j))
            == map_record_after(files_table, workdir, j, stored_map(maps, known_map_id(j))),
{
    lemma_maps_record(files_table, workdir, map_dir, 0, maps, zips, 0, 0, j);
}

/// From known map `k` on, a dry run and a real run reach the same outcome
/// when the maps from `k` on are recorded alike in the two.
proof fn lemma_maps_dry_same(
    files_table: Seq<(Seq<char>, Seq<u8>)>,
    workdir: Seq<char>,
    map_dir: Seq<char>,
    k: int,
    real_maps: Map<i32, CoopMapView>,
    real_zips: Seq<(Seq<char>, Seq<ZipEntryView>)>,
    dry_maps: Map<i32, CoopMapView>,
    dry_zips: Seq<(Seq<char>, Seq<ZipEntryView>)>,
    updated: int,
    skipped: int,
)
    requires
        0 <= k <= KNOWN_MAP_COUNT,
        forall|j: int| k <= j < KNOWN_MAP_COUNT ==> stored_map(real_maps, #[trigger] known_map_id(j))
            == stored_map(dry_maps, known_map_id(j)),
    ensures
        maps_from(files_table, workdir, map_dir, true, k, dry_maps, dry_zips, updated, skipped).result
            == maps_from(files_table, workdir, map_dir, false, k, real_maps, real_zips, updated, skipped).result,
    decreases KNOWN_MAP_COUNT - k,
{
    if k < KNOWN_MAP_COUNT {
        lemma_maps_unfold(files_table, workdir, map_dir, true, k, dry_maps, dry_zips, updated, skipped);
        lemma_maps_unfold(files_table, workdir, map_dir, false, k, real_maps, real_zips, updated, skipped);
        assert(stored_map(real_maps, known_map_id(k)) == stored_map(dry_maps, known_map_id(k)));
        lemma_maps_dry_same(
            files_table, workdir, map_dir, k + 1, real_maps, real_zips, dry_maps, dry_zips, updated,
            skipped + 1,
        );
        let folder = known_map_folder(k);
        let dir = joined_path(workdir, folder);
        let files = listed_files(files_table, dir);
        if files.len() > 0 {
            match read_entries_from(files_table, files, 0, dir, folder, Seq::empty()) {
                None => {},
                Some(entries) => {
                    let checksum = fake_md5(concat_contents(entries));
                    let id = known_map_id(k);
                    let current = stored_map(real_maps, id);
                    let version = next_map_version(current);
                    let zip_name = zip_file_name(folder, version, checksum);
                    if version <= i32::MAX {
                        let m2 = real_maps.insert(
                            id,
                            updated_map(current, id, version as i32, "maps/"@ + zip_name, checksum),
                        );
                        assert forall|j: int| k + 1 <= j < KNOWN_MAP_COUNT implies stored_map(
                            m2,
                            #[trigger] known_map_id(j),
                        ) == stored_map(dry_maps, known_map_id(j)) by {
                            lemma_known_map_ids_increase(k, j);
                        }
                        lemma_maps_dry_same(
                            files_table,
                            workdir,
                            map_dir,
                            k + 1,
                            m2,
                            table_put(real_zips, joined_path(map_dir, zip_name), entries, true),
                            dry_maps,
                            dry_zips,
                            updated + 1,
                            skipped,
                        );
                    }
                },
            }
        }
    }
}

/// A dry run of the map deployment reaches the same outcome, and so the
/// same counts, as the real run from the same state.
pub proof fn law_map_dry_run_same_counts(
    files_table: Seq<(Seq<char>, Seq<u8>)>,
    workdir: Seq<char>,
    map_dir: Seq<char>,
    maps: Map<i32, CoopMapView>,
    zips: Seq<(Seq<char>, Seq<ZipEntryView>)>,
)
    ensures
        map_deployment(files_table, workdir, map_dir, true, maps, zips).result == map_deployment(
            files_table,
            workdir,
            map_dir,
            false,
            maps,
            zips,
        ).result,
{
    lemma_maps_dry_same(files_table, workdir, map_dir, 0, maps, zips, maps, zips, 0, 0);
}

} // verus!
