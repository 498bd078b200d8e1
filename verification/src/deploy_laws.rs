//! Laws of the deployments that the in-memory ports never exercise: what a
//! failed checkout, release fetch or archive write leads to, and the tables
//! of known maps and patch files.

use vstd::prelude::*;
use vstd::string::*;
use crate::map::{
    KNOWN_MAP_COUNT, MapActionView, MapDeployView, MapEventView, MapStage, known_map_folder,
    known_map_id, skip_warning,
};
use crate::patch::{
    PATCH_FILE_COUNT, PatchActionView, PatchDeployView, PatchEventView, PatchStage, patch_file_id,
    patch_file_name,
};
use crate::text::decimal_digit;

verus! {

/// A patch deployment waiting for the release's assets ends, when they
/// cannot be fetched, with the error `failed to fetch release assets: ` and
/// the cause, and asks for nothing more: no download, and no record is
/// written.
pub proof fn law_patch_fetch_failure_fails(v: PatchDeployView, cause: Seq<char>)
    requires
        v.wf(),
        v.stage == PatchStage::Fetching,
    ensures
        v.transition(PatchEventView::AssetsFetched(Err(cause))).1 == (PatchActionView::Done {
            result: Err("failed to fetch release assets: "@ + cause),
        }),
        v.transition(PatchEventView::AssetsFetched(Err(cause))).0.stage == PatchStage::Finished,
        v.transition(PatchEventView::AssetsFetched(Err(cause))).0.updated == 0,
{
}

/// A map deployment whose checkout fails ends at once with the error
/// `git checkout failed: ` and the cause: it lists, reads, archives and
/// records nothing.
pub proof fn law_map_checkout_failure_fails(v: MapDeployView, cause: Seq<char>)
    requires
        v.wf(),
        v.stage == MapStage::CheckingOut,
    ensures
        v.transition(MapEventView::CheckedOut(Err(cause))).1 == (MapActionView::Done {
            result: Err("git checkout failed: "@ + cause),
        }),
        v.transition(MapEventView::CheckedOut(Err(cause))).0.stage == MapStage::Finished,
{
}

/// When a map's archive cannot be written, the map is skipped: its record
/// is not updated (the next action lists the next map's folder, or ends the
/// run), it counts as skipped and not as updated, and the warning gives the
/// cause.
pub proof fn law_map_archive_failure_skips(v: MapDeployView, cause: Seq<char>)
    requires
        v.wf(),
        v.stage == MapStage::Writing,
    ensures
        ({
            let (w, a) = v.transition(MapEventView::ZipWritten(Err(cause)));
            &&& !(a is UpdateMap)
            &&& !(a is WriteZip)
            &&& (a is ListFiles || a is Done)
            &&& w.skipped == v.skipped + 1
            &&& w.updated == v.updated
            &&& w.index == v.index + 1
            &&& w.warning == Some(skip_warning(v.index, "zip write failed: "@ + cause))
        }),
{
}

/// Likewise when recording a written map fails: it counts as skipped, not
/// as updated, and the run moves on.
pub proof fn law_map_record_failure_skips(v: MapDeployView, cause: Seq<char>)
    requires
        v.wf(),
        v.stage == MapStage::Updating,
    ensures
        ({
            let (w, a) = v.transition(MapEventView::MapUpdated(Err(cause)));
            &&& (a is ListFiles || a is Done)
            &&& w.skipped == v.skipped + 1
            &&& w.updated == v.updated
            &&& w.index == v.index + 1
        }),
{
}

/// The UEF campaign (X1CA_Coop_001 to 006) holds the first six known maps, with ids 1 and 3 to 7.
pub proof fn law_known_maps_uef(i: int)
    requires
        0 <= i < 6,
    ensures
        known_map_folder(i) == "X1CA_Coop_00"@.push(decimal_digit(i + 1)),
        known_map_id(i) == (if i == 0 { 1 } else { i + 2 }),
{
    reveal_strlit("X1CA_Coop_00");
    if i == 0 {
        reveal_strlit("X1CA_Coop_001");
        assert(known_map_folder(i) =~= "X1CA_Coop_00"@.push(decimal_digit(i + 1)));
    } else if i == 1 {
        reveal_strlit("X1CA_Coop_002");
        assert(known_map_folder(i) =~= "X1CA_Coop_00"@.push(decimal_digit(i + 1)));
    } else if i == 2 {
        reveal_strlit("X1CA_Coop_003");
        assert(known_map_folder(i) =~= "X1CA_Coop_00"@.push(decimal_digit(i + 1)));
    } else if i == 3 {
        reveal_strlit("X1CA_Coop_004");
        assert(known_map_folder(i) =~= "X1CA_Coop_00"@.push(decimal_digit(i + 1)));
    } else if i == 4 {
        reveal_strlit("X1CA_Coop_005");
        assert(known_map_folder(i) =~= "X1CA_Coop_00"@.push(decimal_digit(i + 1)));
    } else if i == 5 {
        reveal_strlit("X1CA_Coop_006");
        assert(known_map_folder(i) =~= "X1CA_Coop_00"@.push(decimal_digit(i + 1)));
    }
}

/// The Aeon campaign (SCCA_Coop_A01 to A06) holds the next six known maps, with ids 8 to 13.
pub proof fn law_known_maps_aeon(i: int)
    requires
        6 <= i < 12,
    ensures
        known_map_folder(i) == "SCCA_Coop_A0"@.push(decimal_digit(i - 5)),
        known_map_id(i) == i + 2,
{
    reveal_strlit("SCCA_Coop_A0");
    if i == 6 {
        reveal_strlit("SCCA_Coop_A01");
        assert(known_map_folder(i) =~= "SCCA_Coop_A0"@.push(decimal_digit(i - 5)));
    } else if i == 7 {
        reveal_strlit("SCCA_Coop_A02");
        assert(known_map_folder(i) =~= "SCCA_Coop_A0"@.push(decimal_digit(i - 5)));
    } else if i == 8 {
        reveal_strlit("SCCA_Coop_A03");
        assert(known_map_folder(i) =~= "SCCA_Coop_A0"@.push(decimal_digit(i - 5)));
    } else if i == 9 {
        reveal_strlit("SCCA_Coop_A04");
        assert(known_map_folder(i) =~= "SCCA_Coop_A0"@.push(decimal_digit(i - 5)));
    } else if i == 10 {
        reveal_strlit("SCCA_Coop_A05");
        assert(known_map_folder(i) =~= "SCCA_Coop_A0"@.push(decimal_digit(i - 5)));
    } else if i == 11 {
        reveal_strlit("SCCA_Coop_A06");
        assert(known_map_folder(i) =~= "SCCA_Coop_A0"@.push(decimal_digit(i - 5)));
    }
}

/// The Seraphim campaign (SCCA_Coop_E01 to E06) holds the next six known maps, with ids 14 to 19.
pub proof fn law_known_maps_seraphim(i: int)
    requires
        12 <= i < 18,
    ensures
        known_map_folder(i) == "SCCA_Coop_E0"@.push(decimal_digit(i - 11)),
        known_map_id(i) == i + 2,
{
    reveal_strlit("SCCA_Coop_E0");
    if i == 12 {
        reveal_strlit("SCCA_Coop_E01");
        assert(known_map_folder(i) =~= "SCCA_Coop_E0"@.push(decimal_digit(i - 11)));
    } else if i == 13 {
        reveal_strlit("SCCA_Coop_E02");
        assert(known_map_folder(i) =~= "SCCA_Coop_E0"@.push(decimal_digit(i - 11)));
    } else if i == 14 {
        reveal_strlit("SCCA_Coop_E03");
        assert(known_map_folder(i) =~= "SCCA_Coop_E0"@.push(decimal_digit(i - 11)));
    } else if i == 15 {
        reveal_strlit("SCCA_Coop_E04");
        assert(known_map_folder(i) =~= "SCCA_Coop_E0"@.push(decimal_digit(i - 11)));
    } else if i == 16 {
        reveal_strlit("SCCA_Coop_E05");
        assert(known_map_folder(i) =~= "SCCA_Coop_E0"@.push(decimal_digit(i - 11)));
    } else if i == 17 {
        reveal_strlit("SCCA_Coop_E06");
        assert(known_map_folder(i) =~= "SCCA_Coop_E0"@.push(decimal_digit(i - 11)));
    }
}

/// The Cybran campaign (SCCA_Coop_R01 to R06) holds the next six known maps, with ids 20 to 25.
pub proof fn law_known_maps_cybran(i: int)
    requires
        18 <= i < 24,
    ensures
        known_map_folder(i) == "SCCA_Coop_R0"@.push(decimal_digit(i - 17)),
        known_map_id(i) == i + 2,
{
    reveal_strlit("SCCA_Coop_R0");
    if i == 18 {
        reveal_strlit("SCCA_Coop_R01");
        assert(known_map_folder(i) =~= "SCCA_Coop_R0"@.push(decimal_digit(i - 17)));
    } else if i == 19 {
        reveal_strlit("SCCA_Coop_R02");
        assert(known_map_folder(i) =~= "SCCA_Coop_R0"@.push(decimal_digit(i - 17)));
    } else if i == 20 {
        reveal_strlit("SCCA_Coop_R03");
        assert(known_map_folder(i) =~= "SCCA_Coop_R0"@.push(decimal_digit(i - 17)));
    } else if i == 21 {
        reveal_strlit("SCCA_Coop_R04");
        assert(known_map_folder(i) =~= "SCCA_Coop_R0"@.push(decimal_digit(i - 17)));
    } else if i == 22 {
        reveal_strlit("SCCA_Coop_R05");
        assert(known_map_folder(i) =~= "SCCA_Coop_R0"@.push(decimal_digit(i - 17)));
    } else if i == 23 {
        reveal_strlit("SCCA_Coop_R06");
        assert(known_map_folder(i) =~= "SCCA_Coop_R0"@.push(decimal_digit(i - 17)));
    }
}

/// The FAF operations follow, with ids 26 to 31, in this order: Prothyon 16,
/// Fort Clarke Assault, Novax Station Assault, Tight Spot, Black Day,
/// Overlord; the last known map is Tha Thuum, with id 49.
pub proof fn law_known_maps_faf_operations()
    ensures
        known_map_folder(24) == "FAF_Coop_Operation_"@ + "Prothyon_16"@,
        known_map_id(24) == 26,
        known_map_folder(25) == "FAF_Coop_Operation_"@ + "Fort_Clarke_Assault"@,
        known_map_id(25) == 27,
        known_map_folder(26) == "FAF_Coop_Operation_"@ + "Novax_Station_Assault"@,
        known_map_id(26) == 28,
        known_map_folder(27) == "FAF_Coop_Operation_"@ + "Tight_Spot"@,
        known_map_id(27) == 29,
        known_map_folder(28) == "FAF_Coop_Operation_"@ + "Black_Day"@,
        known_map_id(28) == 30,
        known_map_folder(29) == "FAF_Coop_Operation_"@ + "Overlord"@,
        known_map_id(29) == 31,
        known_map_folder(30) == "FAF_Coop_Operation_"@ + "Tha_Thuum"@,
        known_map_id(30) == 49,
        KNOWN_MAP_COUNT == 31,
{
    reveal_strlit("FAF_Coop_Operation_");
    reveal_strlit("Prothyon_16");
    reveal_strlit("FAF_Coop_Operation_Prothyon_16");
    reveal_strlit("Fort_Clarke_Assault");
    reveal_strlit("FAF_Coop_Operation_Fort_Clarke_Assault");
    reveal_strlit("Novax_Station_Assault");
    reveal_strlit("FAF_Coop_Operation_Novax_Station_Assault");
    reveal_strlit("Tight_Spot");
    reveal_strlit("FAF_Coop_Operation_Tight_Spot");
    reveal_strlit("Black_Day");
    reveal_strlit("FAF_Coop_Operation_Black_Day");
    reveal_strlit("Overlord");
    reveal_strlit("FAF_Coop_Operation_Overlord");
    reveal_strlit("Tha_Thuum");
    reveal_strlit("FAF_Coop_Operation_Tha_Thuum");
    assert(known_map_folder(24) =~= "FAF_Coop_Operation_"@ + "Prothyon_16"@);
    assert(known_map_folder(25) =~= "FAF_Coop_Operation_"@ + "Fort_Clarke_Assault"@);
    assert(known_map_folder(26) =~= "FAF_Coop_Operation_"@ + "Novax_Station_Assault"@);
    assert(known_map_folder(27) =~= "FAF_Coop_Operation_"@ + "Tight_Spot"@);
    assert(known_map_folder(28) =~= "FAF_Coop_Operation_"@ + "Black_Day"@);
    assert(known_map_folder(29) =~= "FAF_Coop_Operation_"@ + "Overlord"@);
    assert(known_map_folder(30) =~= "FAF_Coop_Operation_"@ + "Tha_Thuum"@);
}

/// Each patch file's record id is its position plus one.
pub proof fn law_patch_file_ids(i: int)
    requires
        0 <= i < PATCH_FILE_COUNT,
    ensures
        patch_file_id(i) == i + 1,
{
}

/// The Aeon voice files A01_VO to A06_VO are patch files 3 to 8.
pub proof fn law_patch_files_aeon_voice(i: int)
    requires
        2 <= i < 8,
    ensures
        patch_file_name(i) == "A0"@.push(decimal_digit(i - 1)) + "_VO"@,
        patch_file_id(i) == i + 1,
{
    reveal_strlit("A0");
    reveal_strlit("_VO");
    if i == 2 {
        reveal_strlit("A01_VO");
        assert(patch_file_name(i) =~= "A0"@.push(decimal_digit(i - 1)) + "_VO"@);
    } else if i == 3 {
        reveal_strlit("A02_VO");
        assert(patch_file_name(i) =~= "A0"@.push(decimal_digit(i - 1)) + "_VO"@);
    } else if i == 4 {
        reveal_strlit("A03_VO");
        assert(patch_file_name(i) =~= "A0"@.push(decimal_digit(i - 1)) + "_VO"@);
    } else if i == 5 {
        reveal_strlit("A04_VO");
        assert(patch_file_name(i) =~= "A0"@.push(decimal_digit(i - 1)) + "_VO"@);
    } else if i == 6 {
        reveal_strlit("A05_VO");
        assert(patch_file_name(i) =~= "A0"@.push(decimal_digit(i - 1)) + "_VO"@);
    } else if i == 7 {
        reveal_strlit("A06_VO");
        assert(patch_file_name(i) =~= "A0"@.push(decimal_digit(i - 1)) + "_VO"@);
    }
}

/// The Cybran voice files C01_VO to C06_VO are patch files 9 to 14.
pub proof fn law_patch_files_cybran_voice(i: int)
    requires
        8 <= i < 14,
    ensures
        patch_file_name(i) == "C0"@.push(decimal_digit(i - 7)) + "_VO"@,
        patch_file_id(i) == i + 1,
{
    reveal_strlit("C0");
    reveal_strlit("_VO");
    if i == 8 {
        reveal_strlit("C01_VO");
        assert(patch_file_name(i) =~= "C0"@.push(decimal_digit(i - 7)) + "_VO"@);
    } else if i == 9 {
        reveal_strlit("C02_VO");
        assert(patch_file_name(i) =~= "C0"@.push(decimal_digit(i - 7)) + "_VO"@);
    } else if i == 10 {
        reveal_strlit("C03_VO");
        assert(patch_file_name(i) =~= "C0"@.push(decimal_digit(i - 7)) + "_VO"@);
    } else if i == 11 {
        reveal_strlit("C04_VO");
        assert(patch_file_name(i) =~= "C0"@.push(decimal_digit(i - 7)) + "_VO"@);
    } else if i == 12 {
        reveal_strlit("C05_VO");
        assert(patch_file_name(i) =~= "C0"@.push(decimal_digit(i - 7)) + "_VO"@);
    } else if i == 13 {
        reveal_strlit("C06_VO");
        assert(patch_file_name(i) =~= "C0"@.push(decimal_digit(i - 7)) + "_VO"@);
    }
}

/// The Seraphim voice files E01_VO to E06_VO are patch files 15 to 20.
pub proof fn law_patch_files_seraphim_voice(i: int)
    requires
        14 <= i < 20,
    ensures
        patch_file_name(i) == "E0"@.push(decimal_digit(i - 13)) + "_VO"@,
        patch_file_id(i) == i + 1,
{
    reveal_strlit("E0");
    reveal_strlit("_VO");
    if i == 14 {
        reveal_strlit("E01_VO");
        assert(patch_file_name(i) =~= "E0"@.push(decimal_digit(i - 13)) + "_VO"@);
    } else if i == 15 {
        reveal_strlit("E02_VO");
        assert(patch_file_name(i) =~= "E0"@.push(decimal_digit(i - 13)) + "_VO"@);
    } else if i == 16 {
        reveal_strlit("E03_VO");
        assert(patch_file_name(i) =~= "E0"@.push(decimal_digit(i - 13)) + "_VO"@);
    } else if i == 17 {
        reveal_strlit("E04_VO");
        assert(patch_file_name(i) =~= "E0"@.push(decimal_digit(i - 13)) + "_VO"@);
    } else if i == 18 {
        reveal_strlit("E05_VO");
        assert(patch_file_name(i) =~= "E0"@.push(decimal_digit(i - 13)) + "_VO"@);
    } else if i == 19 {
        reveal_strlit("E06_VO");
        assert(patch_file_name(i) =~= "E0"@.push(decimal_digit(i - 13)) + "_VO"@);
    }
}

/// The other patch files: the co-op init and lobby files first (ids 1 and
/// 2), then, after the campaign voice files, Prothyon 16's and TCR's voice
/// files, the SCCA briefings and FMVs, and Tight Spot's voice file (ids 21
/// to 25).
pub proof fn law_patch_files_others()
    ensures
        patch_file_name(0) == "init_coop"@,
        patch_file_id(0) == 1,
        patch_file_name(1) == "lobby_coop"@,
        patch_file_id(1) == 2,
        patch_file_name(20) == "Prothyon16_VO"@,
        patch_file_id(20) == 21,
        patch_file_name(21) == "TCR_VO"@,
        patch_file_id(21) == 22,
        patch_file_name(22) == "SCCA_Briefings"@,
        patch_file_id(22) == 23,
        patch_file_name(23) == "SCCA_FMV"@,
        patch_file_id(23) == 24,
        patch_file_name(24) == "FAF_Coop_Operation_Tight_Spot_VO"@,
        patch_file_id(24) == 25,
        PATCH_FILE_COUNT == 25,
{
}

/// The other failures of a patch deployment each end it with their error,
/// and ask for nothing more: a failed download (`download failed for
/// {name}: ` and the cause), a failed checksum (`md5 failed: ` and the
/// cause), and a failed read or write of the record (the cause itself).
pub proof fn law_patch_step_failures_fail(v: PatchDeployView, cause: Seq<char>)
    requires
        v.wf(),
    ensures
        v.stage == PatchStage::Downloading ==> v.transition(PatchEventView::AssetDownloaded(Err(cause))).1
            == (PatchActionView::Done {
            result: Err("download failed for "@ + patch_file_name(v.index) + ": "@ + cause),
        }),
        v.stage == PatchStage::Hashing ==> v.transition(PatchEventView::Md5Computed(Err(cause))).1
            == (PatchActionView::Done { result: Err("md5 failed: "@ + cause) }),
        v.stage == PatchStage::Looking ==> v.transition(PatchEventView::RecordFetched(Err(cause))).1
            == (PatchActionView::Done { result: Err(cause) }),
        v.stage == PatchStage::Storing ==> v.transition(PatchEventView::PatchUpserted(Err(cause))).1
            == (PatchActionView::Done { result: Err(cause) }),
{
}

/// A map whose folder cannot be listed, one of whose files cannot be read,
/// whose checksum cannot be computed, or whose record cannot be read, is
/// skipped with a warning giving the cause, and the run moves on without
/// writing anything for it.
pub proof fn law_map_read_failures_skip(v: MapDeployView, cause: Seq<char>, e: MapEventView)
    requires
        v.wf(),
        v.accepts(e),
        e == MapEventView::Listed(Err(cause)) || e == MapEventView::FileRead(Err(cause))
            || e == MapEventView::Md5Computed(Err(cause)) || e == MapEventView::MapFetched(Err(cause)),
    ensures
        ({
            let (w, a) = v.transition(e);
            &&& (a is ListFiles || a is Done)
            &&& w.skipped == v.skipped + 1
            &&& w.updated == v.updated
            &&& w.index == v.index + 1
            &&& w.warning is Some
        }),
{
}

} // verus!
